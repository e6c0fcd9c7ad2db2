//! A directory's entries as a whole: which are shown, how wide the columns
//! of the long listing must be, and in what order the entries come.

use crate::entry::{FEntry, Maxs};
use crate::text::{decimal, decimal_string, joined};
use vstd::prelude::*;
use vstd::string::*;

verus! {

/// The larger of two widths.
pub open spec fn larger(a: int, b: int) -> int {
    if a >= b {
        a
    } else {
        b
    }
}

/// Bytes that a text takes in UTF-8.
pub open spec fn byte_len(text: Seq<char>) -> nat {
    vstd::utf8::encode_utf8(text).len()
}

/// An entry is left out unless all are asked for: one whose name starts
/// with a dot.
pub open spec fn hidden(name: Seq<char>, all: bool) -> bool {
    !all && name.len() > 0 && name[0] == '.'
}

/// `maxs` after an entry of `blocks` blocks was met, shown or not.
pub open spec fn with_blocks(maxs: Maxs, blocks: u64) -> Maxs {
    Maxs { blocks: larger(maxs.blocks as int, decimal(blocks as nat).len() as int) as usize, ..maxs }
}

/// `maxs` after `entry` joined the listing: the widths of its name, owner,
/// group and readable size in bytes, and the digits of its size.
pub open spec fn with_entry(maxs: Maxs, entry: FEntry) -> Maxs {
    Maxs {
        size: larger(maxs.size as int, decimal(entry.size as nat).len() as int) as usize,
        hsize: larger(maxs.hsize as int, byte_len(entry.hsize@) as int) as usize,
        blocks: maxs.blocks,
        name: larger(maxs.name as int, byte_len(entry.name@) as int) as usize,
        owner: larger(maxs.owner as int, byte_len(entry.owner@) as int) as usize,
        group: larger(maxs.group as int, byte_len(entry.group@) as int) as usize,
    }
}

fn wider(current: usize, width: usize) -> (max: usize)
    ensures
        max == larger(current as int, width as int),
{
    if width > current {
        width
    } else {
        current
    }
}

fn bytes_of(text: &String) -> (len: usize)
    ensures
        len == byte_len(text@),
{
    text.as_str().as_bytes().len()
}

fn digits_of(n: u64) -> (len: usize)
    ensures
        len == decimal(n as nat).len(),
{
    decimal_string(n).as_str().unicode_len()
}

/// Whether the entry called `name` is left out of the listing.
pub fn is_hidden(name: &str, all: bool) -> (skip: bool)
    ensures
        skip == hidden(name@, all),
{
    !all && name.unicode_len() > 0 && name.get_char(0) == '.'
}

impl Maxs {
    /// No entry met yet: every width is 0.
    pub fn new() -> (maxs: Maxs)
        ensures
            maxs == (Maxs { size: 0, hsize: 0, blocks: 0, name: 0, owner: 0, group: 0 }),
    {
        Maxs { size: 0, hsize: 0, blocks: 0, name: 0, owner: 0, group: 0 }
    }

    /// Takes note of the blocks of an entry that was met, shown or not, and
    /// gives the number that the listing shows for it: blocks of 1024 bytes,
    /// for `sectors` of 512.
    pub fn note_blocks(&mut self, sectors: u64) -> (blocks: u64)
        ensures
            blocks == sectors / 2,
            *final(self) == with_blocks(*old(self), blocks),
    {
        let blocks = sectors / 2;
        self.blocks = wider(self.blocks, digits_of(blocks));
        blocks
    }

    /// Takes note of an entry that joins the listing.
    pub fn note_entry(&mut self, entry: &FEntry)
        ensures
            *final(self) == with_entry(*old(self), *entry),
    {
        self.name = wider(self.name, bytes_of(&entry.name));
        self.size = wider(self.size, digits_of(entry.size));
        self.hsize = wider(self.hsize, bytes_of(&entry.hsize));
        self.owner = wider(self.owner, bytes_of(&entry.owner));
        self.group = wider(self.group, bytes_of(&entry.group));
    }
}

/// Adds an entry to the listing and widens the columns for it.
pub fn push_entry(dir: &mut Vec<FEntry>, maxs: &mut Maxs, entry: FEntry)
    ensures
        final(dir)@ == old(dir)@.push(entry),
        *final(maxs) == with_entry(*old(maxs), entry),
{
    maxs.note_entry(&entry);
    dir.push(entry);
}

/// The texts of some strings, in order.
pub open spec fn views(lines: Seq<String>) -> Seq<Seq<char>> {
    lines.map_values(|line: String| line@)
}

/// The long listing: one line for each entry.
pub fn format_long_info(names: Vec<String>) -> (out: String)
    ensures
        out@ == joined(views(names@), seq!['\n']),
{
    proof {
        reveal_strlit("\n");
        assert("\n"@ =~= seq!['\n']);
    }
    let ghost lines = views(names@);
    let mut out = String::new();
    let mut i: usize = 0;
    while i < names.len()
        invariant
            lines == views(names@),
            i <= names@.len(),
            "\n"@ == seq!['\n'],
            out@ == joined(lines.take(i as int), seq!['\n']),
        decreases names@.len() - i,
    {
        assert(lines.take(i + 1).drop_last() =~= lines.take(i as int));
        if i > 0 {
            out.append("\n");
        }
        out.append(names[i].as_str());
        i += 1;
        assert(out@ =~= joined(lines.take(i as int), seq!['\n']));
    }
    assert(lines.take(i as int) =~= lines);
    out
}

/// `a` is not after `b` in the order of strings: character by character, by
/// code point, a prefix before what continues it.
pub open spec fn name_le(a: Seq<char>, b: Seq<char>) -> bool
    decreases a.len(),
{
    if a.len() == 0 {
        true
    } else if b.len() == 0 {
        false
    } else if a[0] != b[0] {
        (a[0] as u32) < (b[0] as u32)
    } else {
        name_le(a.skip(1), b.skip(1))
    }
}

/// The entries of the given size, in their order.
pub open spec fn of_size(entries: Seq<FEntry>, size: u64) -> Seq<FEntry> {
    entries.filter(|e: FEntry| e.size == size)
}

/// The entries of the given name, in their order.
pub open spec fn of_name(entries: Seq<FEntry>, name: Seq<char>) -> Seq<FEntry> {
    entries.filter(|e: FEntry| e.name@ == name)
}

/// `after` holds the entries of `before` in the order of their sizes, and
/// entries of one size in the order that they had.
pub open spec fn sorted_by_size(before: Seq<FEntry>, after: Seq<FEntry>) -> bool {
    &&& after.len() == before.len()
    &&& forall|i: int, j: int| 0 <= i <= j < after.len() ==> after[i].size <= after[j].size
    &&& forall|size: u64| #[trigger] of_size(after, size) == of_size(before, size)
}

/// `after` holds the entries of `before` in the order of their names, and
/// entries of one name in the order that they had.
pub open spec fn sorted_by_name(before: Seq<FEntry>, after: Seq<FEntry>) -> bool {
    &&& after.len() == before.len()
    &&& forall|i: int, j: int|
        0 <= i <= j < after.len() ==> name_le(after[i].name@, after[j].name@)
    &&& forall|name: Seq<char>| #[trigger] of_name(after, name) == of_name(before, name)
}

/// The standard library's `sort_by_key` on the vector's slice, with the size
/// as key: a stable sort, so the entries come out by ascending size, none
/// lost or added, and those of equal size in their earlier order.
#[verifier::external_body]
fn sort_by_size(dir: &mut Vec<FEntry>)
    ensures
        sorted_by_size(old(dir)@, final(dir)@),
{
    dir.sort_by_key(|fe| fe.size)
}

/// The standard library's `sort_by_key` on the vector's slice, with the name
/// as key: a stable sort in the order of `String`, which compares byte by
/// byte and so code point by code point; none lost or added, and entries of
/// equal name in their earlier order.
#[verifier::external_body]
fn sort_by_name(dir: &mut Vec<FEntry>)
    ensures
        sorted_by_name(old(dir)@, final(dir)@),
{
    dir.sort_by_key(|fe| fe.name.clone())
}

/// Turns the order of the entries round.
pub fn reverse_entries(dir: &mut Vec<FEntry>)
    ensures
        final(dir)@ == old(dir)@.reverse(),
{
    let ghost before = dir@;
    let mut turned: Vec<FEntry> = Vec::new();
    while dir.len() > 0
        invariant
            dir@.len() <= before.len(),
            dir@ == before.take(dir@.len() as int),
            turned@.len() == before.len() - dir@.len(),
            forall|i: int|
                0 <= i < turned@.len() ==> turned@[i] == before[before.len() - 1 - i],
        decreases dir@.len(),
    {
        let ghost rest = dir@.len() - 1;
        match dir.pop() {
            Some(entry) => {
                turned.push(entry);
            },
            None => {},
        }
        assert(dir@ =~= before.take(rest));
    }
    assert(turned@ =~= before.reverse());
    *dir = turned;
}

/// Orders the listing: by size where `bsize` asks for it, else by name;
/// entries with the same key stay in their order; then the whole is turned
/// round where `nrev` asks for it.
pub fn sort(dir: &mut Vec<FEntry>, nrev: bool, bsize: bool)
    ensures
        bsize ==> sorted_by_size(
            old(dir)@,
            if nrev {
                final(dir)@.reverse()
            } else {
                final(dir)@
            },
        ),
        !bsize ==> sorted_by_name(
            old(dir)@,
            if nrev {
                final(dir)@.reverse()
            } else {
                final(dir)@
            },
        ),
{
    if bsize {
        sort_by_size(dir);
    } else {
        sort_by_name(dir);
    }
    if nrev {
        let ghost sorted = dir@;
        reverse_entries(dir);
        assert(dir@.reverse() =~= sorted);
    }
}

} // verus!
