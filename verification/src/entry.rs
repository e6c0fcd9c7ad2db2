//! One directory entry, and the texts that the listing shows for it.

use crate::layout::DisplayString;
use crate::mode::{has_bit, FileKind};
use crate::paint::{paint, Tint};
use crate::text::{decimal, decimal_string, pad_left, padded, same_text};
use crate::time::Time;
use vstd::prelude::*;
use vstd::string::*;

verus! {

/// Whether names are coloured.
#[derive(Debug, Clone, Copy, PartialEq, Eq, Structural)]
pub enum DisplayColor {
    Standart,
    Empty,
}

/// `str::to_lowercase` of a text: every character replaced by its lower
/// case as Unicode defines it.
pub uninterp spec fn lowercase(text: Seq<char>) -> Seq<char>;

/// `str::to_lowercase`: the text in lower case, which depends on the text
/// alone.
#[verifier::external_body]
fn to_lowercase(text: &str) -> (lowered: String)
    ensures
        lowered@ == lowercase(text@),
{
    text.to_lowercase()
}

/// The choice that a name in lower case stands for: no colours for `none`
/// and `empty`, colours for every other.
pub open spec fn color_named(lowered: Seq<char>) -> DisplayColor {
    if lowered == seq!['n', 'o', 'n', 'e'] || lowered == seq!['e', 'm', 'p', 't', 'y'] {
        DisplayColor::Empty
    } else {
        DisplayColor::Standart
    }
}

impl DisplayColor {
    /// The choice that a name in lower case stands for.
    pub fn from_lowered(lowered: &str) -> (color: DisplayColor)
        ensures
            color == color_named(lowered@),
    {
        proof {
            reveal_strlit("none");
            reveal_strlit("empty");
            assert("none"@ =~= seq!['n', 'o', 'n', 'e']);
            assert("empty"@ =~= seq!['e', 'm', 'p', 't', 'y']);
        }
        if same_text(lowered, "none") || same_text(lowered, "empty") {
            DisplayColor::Empty
        } else {
            DisplayColor::Standart
        }
    }

    /// The choice that a name stands for, whatever the case of its letters.
    pub fn from_name(name: &str) -> (color: DisplayColor)
        ensures
            color == color_named(lowercase(name@)),
    {
        let lowered = to_lowercase(name);
        Self::from_lowered(lowered.as_str())
    }
}

impl Default for DisplayColor {
    fn default() -> (color: DisplayColor)
        ensures
            color == DisplayColor::Standart,
    {
        DisplayColor::Standart
    }
}

/// What an entry is. A file knows whether it can be executed, a symbolic
/// link where it points; a link whose target cannot be read is broken.
#[derive(Debug, Clone, PartialEq, Eq)]
pub enum FType {
    File(bool),
    Dir,
    Symlink(String),
    BrokenSymlink,
    Other,
}

/// A directory entry with everything that the listing shows of it.
#[derive(Debug, Clone, PartialEq, Eq)]
pub struct FEntry {
    pub name: String,
    pub path: String,
    pub ftype: FType,
    pub modified: Time,
    pub nblocks: u64,
    pub size: u64,
    pub hsize: String,
    pub owner: String,
    pub group: String,
    pub mode: String,
}

/// The widest of each column of the long listing, over a directory.
#[derive(Debug, Clone, Copy, PartialEq, Eq, Structural)]
pub struct Maxs {
    pub size: usize,
    pub hsize: usize,
    pub blocks: usize,
    pub name: usize,
    pub owner: usize,
    pub group: usize,
}

/// The arrow between a link and its target.
pub open spec fn arrow() -> Seq<char> {
    seq![' ', '-', '>', ' ']
}

/// The mark that follows the name of an entry of this type, if it has one.
pub open spec fn suffix_of(ftype: FType) -> Option<char> {
    match ftype {
        FType::File(_) => None,
        FType::Other => None,
        FType::Dir => Some('/'),
        FType::Symlink(_) => Some('@'),
        FType::BrokenSymlink => Some('!'),
    }
}

/// The colour of the name of an entry of this type.
pub open spec fn tint_of(ftype: FType) -> Tint {
    match ftype {
        FType::File(executable) => if executable {
            Tint::Green
        } else {
            Tint::White
        },
        FType::Other => Tint::White,
        FType::Dir => Tint::Blue,
        FType::Symlink(_) => Tint::Cyan,
        FType::BrokenSymlink => Tint::Red,
    }
}

/// The mark as it is appended: nothing where marks are not asked for or the
/// type has none.
pub open spec fn suffix_text(suffix: Option<char>, suf: bool) -> Seq<char> {
    match suffix {
        Some(mark) => if suf {
            seq![mark]
        } else {
            Seq::empty()
        },
        None => Seq::empty(),
    }
}

/// `text` between double quotes.
pub open spec fn quoted_text(text: Seq<char>) -> Seq<char> {
    seq!['"'] + text + seq!['"']
}

/// The type of an entry, from its kind, the target of the link where it is
/// one and could be read, and its mode bits: a file is executable where
/// any of its three execute bits is set.
pub open spec fn ftype_of(kind: FileKind, target: Option<String>, mode: u32) -> FType {
    match kind {
        FileKind::Dir => FType::Dir,
        FileKind::Symlink => match target {
            Some(target) => FType::Symlink(target),
            None => FType::BrokenSymlink,
        },
        FileKind::File => FType::File(has_bit(mode, 0o111)),
        FileKind::Other => FType::Other,
    }
}

impl FType {
    /// The type of an entry of the given kind, link target and mode bits.
    pub fn classify(kind: FileKind, target: Option<String>, mode: u32) -> (ftype: FType)
        ensures
            ftype == ftype_of(kind, target, mode),
    {
        match kind {
            FileKind::Dir => FType::Dir,
            FileKind::Symlink => match target {
                Some(target) => FType::Symlink(target),
                None => FType::BrokenSymlink,
            },
            FileKind::File => FType::File(mode & 0o111 != 0),
            FileKind::Other => FType::Other,
        }
    }

    /// The mark of the type, if it has one.
    pub fn suffix(&self) -> (suffix: Option<char>)
        ensures
            suffix == suffix_of(*self),
    {
        match self {
            FType::File(_) => None,
            FType::Other => None,
            FType::Dir => Some('/'),
            FType::Symlink(_) => Some('@'),
            FType::BrokenSymlink => Some('!'),
        }
    }

    /// The colour of names of the type.
    pub fn tint(&self) -> (tint: Tint)
        ensures
            tint == tint_of(*self),
    {
        match self {
            FType::File(true) => Tint::Green,
            FType::File(false) => Tint::White,
            FType::Other => Tint::White,
            FType::Dir => Tint::Blue,
            FType::Symlink(_) => Tint::Cyan,
            FType::BrokenSymlink => Tint::Red,
        }
    }
}

fn mark_text(ftype: &FType) -> (text: &'static str)
    ensures
        text@ == suffix_text(suffix_of(*ftype), true),
{
    proof {
        reveal_strlit("/");
        reveal_strlit("@");
        reveal_strlit("!");
        reveal_strlit("");
    }
    let text = match ftype {
        FType::Dir => "/",
        FType::Symlink(_) => "@",
        FType::BrokenSymlink => "!",
        FType::File(_) => "",
        FType::Other => "",
    };
    assert(text@ =~= suffix_text(suffix_of(*ftype), true));
    text
}

/// Appends the mark of the type to a name, where marks are asked for and
/// the type has one. The name may be coloured already.
pub fn attach_suffix(name: String, ftype: &FType, suf: bool) -> (text: String)
    ensures
        text@ == name@ + suffix_text(suffix_of(*ftype), suf),
{
    let mut text = name;
    if suf {
        text.append(mark_text(ftype));
    }
    assert(text@ =~= name@ + suffix_text(suffix_of(*ftype), suf));
    text
}

/// Puts `text` between double quotes.
pub fn quote(text: &str) -> (out: String)
    ensures
        out@ == quoted_text(text@),
{
    proof {
        reveal_strlit("\"");
    }
    let mut out = "\"".to_owned();
    out.append(text);
    out.append("\"");
    assert(out@ =~= quoted_text(text@));
    out
}

impl FEntry {
    /// The name with the mark of its type, without colour.
    pub open spec fn colorless_name(self, suf: bool) -> Seq<char> {
        self.name@ + suffix_text(suffix_of(self.ftype), suf)
    }

    /// What the short listing shows where it does not depend on colours:
    /// the quoted name; else the name with its mark.
    pub open spec fn plain_text(self, quoted: bool) -> Seq<char> {
        if quoted {
            quoted_text(self.name@)
        } else {
            self.colorless_name(true)
        }
    }

    /// The name as the terminal is to show it in the colour of its type, and
    /// the mark of its type.
    pub fn get_name_and_suffix(&self) -> (pair: (String, Option<char>))
        ensures
            pair.1 == suffix_of(self.ftype),
    {
        (paint(self.name.as_str(), self.ftype.tint()), self.ftype.suffix())
    }

    /// The coloured name, with the mark of its type where `suf` asks for it.
    /// What the colouring gives is open; the mark ends the text.
    pub fn get_styled_name(&self, suf: bool) -> (text: String)
        ensures
            suffix_text(suffix_of(self.ftype), suf).is_suffix_of(text@),
    {
        let (name, suffix) = self.get_name_and_suffix();
        let text = attach_suffix(name, &self.ftype, suf);
        assert(text@.skip(name@.len() as int) =~= suffix_text(suffix, suf));
        assert(text@.len() - suffix_text(suffix, suf).len() == name@.len());
        text
    }

    /// The bare name, with the mark of its type where `suf` asks for it.
    pub fn get_colorless_name(&self, suf: bool) -> (text: String)
        ensures
            text@ == self.colorless_name(suf),
    {
        attach_suffix(self.name.clone(), &self.ftype, suf)
    }

    /// What the short listing shows for the entry: the quoted name; else the
    /// name with its mark, coloured or not.
    pub fn to_str(&self, color: DisplayColor, quoted: bool) -> (text: String)
        ensures
            quoted || color == DisplayColor::Empty ==> text@ == self.plain_text(quoted),
            !quoted ==> suffix_text(suffix_of(self.ftype), true).is_suffix_of(text@),
    {
        if quoted {
            quote(self.name.as_str())
        } else {
            match color {
                DisplayColor::Standart => self.get_styled_name(true),
                DisplayColor::Empty => {
                    let text = self.get_colorless_name(true);
                    assert(text@.skip(self.name@.len() as int) =~= suffix_text(
                        suffix_of(self.ftype),
                        true,
                    ));
                    text
                },
            }
        }
    }

    /// The entry for the layout engine: the text of `to_str`, and as its
    /// width the number of characters of that text without colours.
    pub fn to_display(&self, color: DisplayColor, quoted: bool) -> (shown: DisplayString)
        ensures
            shown.width == self.plain_text(quoted).len(),
            quoted || color == DisplayColor::Empty ==> shown.text@ == self.plain_text(quoted),
            !quoted ==> suffix_text(suffix_of(self.ftype), true).is_suffix_of(shown.text@),
    {
        let text = self.to_str(color, quoted);
        let plain = if quoted {
            quote(self.name.as_str())
        } else {
            self.get_colorless_name(true)
        };
        let width = plain.as_str().unicode_len();
        DisplayString::new(text, width)
    }

    /// The size column of the long listing: the size in bytes, or the size
    /// as people read it, right-aligned to the widest of the directory.
    pub open spec fn size_column(self, is_human: bool, maxs: Maxs) -> Seq<char> {
        if is_human {
            padded(self.hsize@, maxs.hsize as nat, ' ')
        } else {
            padded(decimal(self.size as nat), maxs.size as nat, ' ')
        }
    }

    /// The long listing's line up to the name: blocks where asked for, mode,
    /// owner, group, size and time of change, each followed by a space.
    pub open spec fn fixed_prefix(self, is_human: bool, maxs: Maxs, blocks: bool) -> Seq<char> {
        (if blocks {
            padded(decimal(self.nblocks as nat), maxs.blocks as nat, ' ') + seq![' ']
        } else {
            Seq::empty()
        }) + self.mode@ + seq![' '] + padded(self.owner@, maxs.owner as nat, ' ') + seq![' ']
            + padded(self.group@, maxs.group as nat, ' ') + seq![' '] + self.size_column(
            is_human,
            maxs,
        ) + seq![' '] + self.modified.text() + seq![' ']
    }

    /// The name column of the long listing without colours: a link with
    /// its target where `link` asks for it, else what the short listing
    /// shows.
    pub open spec fn long_name(self, quoted: bool, link: bool) -> Seq<char> {
        match self.ftype {
            FType::Symlink(target) => if link {
                if quoted {
                    quoted_text(self.name@) + arrow() + quoted_text(target@)
                } else {
                    self.name@ + arrow() + target@
                }
            } else {
                self.plain_text(quoted)
            },
            _ => self.plain_text(quoted),
        }
    }

    /// The name column of the long listing.
    pub fn long_name_text(&self, color: DisplayColor, quoted: bool, link: bool) -> (text: String)
        ensures
            quoted || color == DisplayColor::Empty ==> text@ == self.long_name(quoted, link),
            !quoted && link ==> (self.ftype matches FType::Symlink(target) ==> (arrow()
                + target@).is_suffix_of(text@)),
    {
        proof {
            reveal_strlit(" -> ");
            assert(" -> "@ =~= arrow());
        }
        match &self.ftype {
            FType::Symlink(target) => {
                if link {
                    let mut text = if quoted {
                        quote(self.name.as_str())
                    } else {
                        match color {
                            DisplayColor::Standart => self.get_styled_name(false),
                            DisplayColor::Empty => self.get_colorless_name(false),
                        }
                    };
                    let ghost shown = text@;
                    text.append(" -> ");
                    if quoted {
                        text.append(quote(target.as_str()).as_str());
                    } else {
                        text.append(target.as_str());
                        assert(text@.skip(shown.len() as int) =~= arrow() + target@);
                    }
                    assert(quoted || color == DisplayColor::Empty ==> text@ =~= self.long_name(
                        quoted,
                        link,
                    ));
                    text
                } else {
                    self.to_str(color, quoted)
                }
            },
            _ => self.to_str(color, quoted),
        }
    }

    /// One line of the long listing, with `name` in its name column.
    pub fn fixed_line(&self, is_human: bool, maxs: &Maxs, blocks: bool, name: &str) -> (line:
        String)
        ensures
            line@ == self.fixed_prefix(is_human, *maxs, blocks) + name@,
    {
        proof {
            reveal_strlit(" ");
        }
        let mut line = String::new();
        if blocks {
            let count = decimal_string(self.nblocks);
            line.append(pad_left(count.as_str(), maxs.blocks).as_str());
            line.append(" ");
        }
        line.append(self.mode.as_str());
        line.append(" ");
        line.append(pad_left(self.owner.as_str(), maxs.owner).as_str());
        line.append(" ");
        line.append(pad_left(self.group.as_str(), maxs.group).as_str());
        line.append(" ");
        if is_human {
            line.append(pad_left(self.hsize.as_str(), maxs.hsize).as_str());
        } else {
            let size = decimal_string(self.size);
            line.append(pad_left(size.as_str(), maxs.size).as_str());
        }
        line.append(" ");
        line.append(self.modified.format().as_str());
        line.append(" ");
        line.append(name);
        assert(line@ =~= self.fixed_prefix(is_human, *maxs, blocks) + name@);
        line
    }

    /// The entry's line of the long listing.
    pub fn to_fixed_str(
        &self,
        is_human: bool,
        maxs: &Maxs,
        blocks: bool,
        color: DisplayColor,
        quoted: bool,
        link: bool,
    ) -> (line: String)
        ensures
            self.fixed_prefix(is_human, *maxs, blocks).is_prefix_of(line@),
            quoted || color == DisplayColor::Empty ==> line@ == self.fixed_prefix(
                is_human,
                *maxs,
                blocks,
            ) + self.long_name(quoted, link),
    {
        let name = self.long_name_text(color, quoted, link);
        let line = self.fixed_line(is_human, maxs, blocks, name.as_str());
        assert(line@.take(self.fixed_prefix(is_human, *maxs, blocks).len() as int)
            =~= self.fixed_prefix(is_human, *maxs, blocks));
        line
    }
}

} // verus!
