//! The ten-character permission string of a file, from its kind and its
//! mode bits.

use vstd::prelude::*;
use vstd::string::*;

verus! {

/// What a directory entry is, as far as the listing tells kinds apart.
#[derive(Debug, Clone, Copy, PartialEq, Eq, Structural)]
pub enum FileKind {
    Dir,
    File,
    Symlink,
    Other,
}

/// Some bit of `mask` is set in `mode`.
pub open spec fn has_bit(mode: u32, mask: u32) -> bool {
    mode & mask != 0
}

/// The first character of the permission string.
pub open spec fn kind_char(kind: FileKind) -> char {
    match kind {
        FileKind::Dir => 'd',
        FileKind::File => '-',
        FileKind::Symlink => 'l',
        FileKind::Other => '?',
    }
}

/// The character for the execute bit `exec` together with the special bit
/// `special`: set-id bits show as `s` and `S`, the sticky bit as `t` and
/// `T`, lower case where the execute bit is set too.
pub open spec fn execute_char(mode: u32, exec: u32, special: u32, sticky: bool) -> char {
    if has_bit(mode, exec) {
        if !has_bit(mode, special) {
            'x'
        } else if sticky {
            't'
        } else {
            's'
        }
    } else {
        if !has_bit(mode, special) {
            '-'
        } else if sticky {
            'T'
        } else {
            'S'
        }
    }
}

/// The three characters of one class of users.
pub open spec fn triad(
    mode: u32,
    read: u32,
    write: u32,
    exec: u32,
    special: u32,
    sticky: bool,
) -> Seq<char> {
    seq![
        if has_bit(mode, read) {
            'r'
        } else {
            '-'
        },
        if has_bit(mode, write) {
            'w'
        } else {
            '-'
        },
        execute_char(mode, exec, special, sticky),
    ]
}

/// The permission string: the kind, then owner, group and others.
pub open spec fn mode_text(kind: FileKind, mode: u32) -> Seq<char> {
    seq![kind_char(kind)] + triad(mode, 0o400, 0o200, 0o100, 0o4000, false) + triad(
        mode,
        0o040,
        0o020,
        0o010,
        0o2000,
        false,
    ) + triad(mode, 0o004, 0o002, 0o001, 0o1000, true)
}

fn push_triad(
    out: &mut String,
    mode: u32,
    read: u32,
    write: u32,
    exec: u32,
    special: u32,
    sticky: bool,
)
    ensures
        final(out)@ == old(out)@ + triad(mode, read, write, exec, special, sticky),
{
    proof {
        reveal_strlit("r");
        reveal_strlit("w");
        reveal_strlit("x");
        reveal_strlit("-");
        reveal_strlit("s");
        reveal_strlit("S");
        reveal_strlit("t");
        reveal_strlit("T");
    }
    let ghost before = out@;
    out.append(if mode & read != 0 {
        "r"
    } else {
        "-"
    });
    out.append(if mode & write != 0 {
        "w"
    } else {
        "-"
    });
    let last = if mode & exec != 0 {
        if mode & special == 0 {
            "x"
        } else if sticky {
            "t"
        } else {
            "s"
        }
    } else {
        if mode & special == 0 {
            "-"
        } else if sticky {
            "T"
        } else {
            "S"
        }
    };
    out.append(last);
    assert(out@ =~= before + triad(mode, read, write, exec, special, sticky));
}

/// Writes the permission string of a file of the given kind and mode bits.
pub fn get_mode(kind: FileKind, mode: u32) -> (text: String)
    ensures
        text@ == mode_text(kind, mode),
{
    proof {
        reveal_strlit("d");
        reveal_strlit("-");
        reveal_strlit("l");
        reveal_strlit("?");
    }
    let first = match kind {
        FileKind::Dir => "d",
        FileKind::File => "-",
        FileKind::Symlink => "l",
        FileKind::Other => "?",
    };
    let mut text = first.to_owned();
    assert(text@ =~= seq![kind_char(kind)]);
    push_triad(&mut text, mode, 0o400, 0o200, 0o100, 0o4000, false);
    push_triad(&mut text, mode, 0o040, 0o020, 0o010, 0o2000, false);
    push_triad(&mut text, mode, 0o004, 0o002, 0o001, 0o1000, true);
    text
}

} // verus!
