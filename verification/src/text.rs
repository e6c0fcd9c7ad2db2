//! Text building blocks: decimal digits, padding, trimming and joining,
//! each with its meaning as a sequence of characters.

use vstd::prelude::*;
use vstd::string::*;

verus! {

/// The character of a decimal digit.
pub open spec fn digit(d: int) -> char {
    if d == 0 {
        '0'
    } else if d == 1 {
        '1'
    } else if d == 2 {
        '2'
    } else if d == 3 {
        '3'
    } else if d == 4 {
        '4'
    } else if d == 5 {
        '5'
    } else if d == 6 {
        '6'
    } else if d == 7 {
        '7'
    } else if d == 8 {
        '8'
    } else {
        '9'
    }
}

/// A number written in base ten, without sign or leading zeros.
pub open spec fn decimal(n: nat) -> Seq<char>
    decreases n,
{
    if n < 10 {
        seq![digit(n as int)]
    } else {
        decimal(n / 10).push(digit((n % 10) as int))
    }
}

/// `count` copies of one character.
pub open spec fn repeated(c: char, count: nat) -> Seq<char> {
    Seq::new(count, |i: int| c)
}

/// `text`, filled on the left up to `width` characters; unchanged when it is
/// that long already.
pub open spec fn padded(text: Seq<char>, width: nat, fill: char) -> Seq<char> {
    if text.len() < width {
        repeated(fill, (width - text.len()) as nat) + text
    } else {
        text
    }
}

/// The characters with the Unicode property `White_Space`.
pub open spec fn is_space(c: char) -> bool {
    let code = c as u32;
    (0x09 <= code <= 0x0D) || code == 0x20 || code == 0x85 || code == 0xA0 || code == 0x1680 || (
    0x2000 <= code <= 0x200A) || code == 0x2028 || code == 0x2029 || code == 0x202F || code
        == 0x205F || code == 0x3000
}

/// `s` without the white space at its end.
pub open spec fn trim_end(s: Seq<char>) -> Seq<char>
    decreases s.len(),
{
    if s.len() > 0 && is_space(s.last()) {
        trim_end(s.drop_last())
    } else {
        s
    }
}

/// The parts in order, with `sep` between each two.
pub open spec fn joined(parts: Seq<Seq<char>>, sep: Seq<char>) -> Seq<char>
    decreases parts.len(),
{
    if parts.len() == 0 {
        Seq::empty()
    } else if parts.len() == 1 {
        parts[0]
    } else {
        joined(parts.drop_last(), sep) + sep + parts.last()
    }
}

/// What `trim_end` keeps is a prefix that does not end in white space, and
/// what it drops is white space only.
pub proof fn lemma_trim_end(s: Seq<char>)
    ensures
        trim_end(s).len() <= s.len(),
        trim_end(s) == s.take(trim_end(s).len() as int),
        trim_end(s).len() > 0 ==> !is_space(trim_end(s).last()),
        forall|i: int| trim_end(s).len() <= i < s.len() ==> is_space(#[trigger] s[i]),
    decreases s.len(),
{
    if s.len() > 0 && is_space(s.last()) {
        lemma_trim_end(s.drop_last());
        let kept = trim_end(s).len() as int;
        assert(s.drop_last().take(kept) =~= s.take(kept));
        assert forall|i: int| kept <= i < s.len() implies is_space(#[trigger] s[i]) by {
            if i < s.len() - 1 {
                assert(s[i] == s.drop_last()[i]);
            }
        }
    } else {
        assert(s.take(s.len() as int) =~= s);
    }
}

/// Trimming what is trimmed changes nothing.
pub proof fn lemma_trim_end_idempotent(s: Seq<char>)
    ensures
        trim_end(trim_end(s)) == trim_end(s),
{
    lemma_trim_end(s);
}

pub fn is_whitespace(c: char) -> (space: bool)
    ensures
        space == is_space(c),
{
    let code = c as u32;
    (0x09 <= code && code <= 0x0D) || code == 0x20 || code == 0x85 || code == 0xA0 || code
        == 0x1680 || (0x2000 <= code && code <= 0x200A) || code == 0x2028 || code == 0x2029
        || code == 0x202F || code == 0x205F || code == 0x3000
}

/// Cuts the white space off the end of `s`.
pub fn trim_line(s: &str) -> (kept: &str)
    ensures
        kept@ == trim_end(s@),
{
    let total = s.unicode_len();
    let mut seen: usize = 0;
    let mut keep: usize = 0;
    for c in it: s.chars()
        invariant
            total == s@.len(),
            it.seq() == s@,
            seen == it.index(),
            seen <= total,
            keep <= seen,
            keep == trim_end(s@.take(seen as int)).len(),
    {
        assert(s@.take(seen + 1).drop_last() =~= s@.take(seen as int));
        seen = seen + 1;
        if !is_whitespace(c) {
            keep = seen;
        }
    }
    proof {
        assert(s@.take(seen as int) =~= s@);
        lemma_trim_end(s@);
    }
    s.substring_char(0, keep)
}

fn digit_text(d: u64) -> (text: &'static str)
    requires
        d < 10,
    ensures
        text@ == seq![digit(d as int)],
{
    proof {
        reveal_strlit("0");
        reveal_strlit("1");
        reveal_strlit("2");
        reveal_strlit("3");
        reveal_strlit("4");
        reveal_strlit("5");
        reveal_strlit("6");
        reveal_strlit("7");
        reveal_strlit("8");
        reveal_strlit("9");
    }
    let text = match d {
        0 => "0",
        1 => "1",
        2 => "2",
        3 => "3",
        4 => "4",
        5 => "5",
        6 => "6",
        7 => "7",
        8 => "8",
        _ => "9",
    };
    assert(text@ =~= seq![digit(d as int)]);
    text
}

/// Writes a number in base ten.
pub fn decimal_string(n: u64) -> (text: String)
    ensures
        text@ == decimal(n as nat),
    decreases n,
{
    if n < 10 {
        digit_text(n).to_owned()
    } else {
        let mut text = decimal_string(n / 10);
        text.append(digit_text(n % 10));
        text
    }
}

/// Appends `count` copies of the one character that `unit` holds.
fn push_repeated(out: &mut String, unit: &str, count: usize)
    requires
        unit@.len() == 1,
    ensures
        final(out)@ == old(out)@ + repeated(unit@[0], count as nat),
{
    let ghost before = out@;
    let mut done: usize = 0;
    assert(before + repeated(unit@[0], 0) =~= before);
    while done < count
        invariant
            done <= count,
            unit@.len() == 1,
            out@ == before + repeated(unit@[0], done as nat),
        decreases count - done,
    {
        out.append(unit);
        done += 1;
        assert(before + repeated(unit@[0], (done - 1) as nat) + unit@ =~= before + repeated(
            unit@[0],
            done as nat,
        ));
    }
}

/// Appends `count` spaces.
pub fn push_spaces(out: &mut String, count: usize)
    ensures
        final(out)@ == old(out)@ + repeated(' ', count as nat),
{
    proof {
        reveal_strlit(" ");
    }
    push_repeated(out, " ", count);
}

fn pad_with(text: &str, width: usize, unit: &str) -> (out: String)
    requires
        unit@.len() == 1,
    ensures
        out@ == padded(text@, width as nat, unit@[0]),
{
    let len = text.unicode_len();
    let mut out = String::new();
    if len < width {
        push_repeated(&mut out, unit, width - len);
    }
    out.append(text);
    assert(out@ =~= padded(text@, width as nat, unit@[0]));
    out
}

/// Right-aligns `text` in `width` columns, with spaces on its left.
pub fn pad_left(text: &str, width: usize) -> (out: String)
    ensures
        out@ == padded(text@, width as nat, ' '),
{
    proof {
        reveal_strlit(" ");
    }
    pad_with(text, width, " ")
}

/// Right-aligns `text` in `width` columns, with zeros on its left.
pub fn pad_zeros(text: &str, width: usize) -> (out: String)
    ensures
        out@ == padded(text@, width as nat, '0'),
{
    proof {
        reveal_strlit("0");
    }
    pad_with(text, width, "0")
}

/// Whether two texts hold the same characters.
pub fn same_text(a: &str, b: &str) -> (same: bool)
    ensures
        same == (a@ == b@),
{
    let left = a.to_owned();
    let right = b.to_owned();
    left == right
}

} // verus!
