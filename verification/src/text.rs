//! Small tools for text: lines, numbers in decimal, and runs of one
//! character.

use crate::parse::chars::{run_len, scan_run, CharClass};
use crate::parse::stream::LINE_SEPARATOR;
use vstd::prelude::*;
use vstd::string::*;

verus! {

/// `line` without the carriage return at its end, if it has one.
pub open spec fn without_return(line: Seq<char>) -> Seq<char> {
    if line.len() > 0 && line.last() == '\r' {
        line.drop_last()
    } else {
        line
    }
}

/// The lines of `text`: the pieces between its line separators. A carriage
/// return just before a line separator belongs to the line ending, not to
/// the line. A line separator at the very end does not begin another line;
/// a last line that no line separator ends keeps a carriage return.
pub open spec fn lines_of(text: Seq<char>) -> Seq<Seq<char>>
    decreases text.len(),
{
    let first = run_len(text, CharClass::Except(LINE_SEPARATOR));
    if text.len() == 0 {
        Seq::empty()
    } else if first < text.len() {
        seq![without_return(text.take(first as int))] + lines_of(text.skip(first as int + 1))
    } else {
        seq![text]
    }
}

/// Splits `code` into its lines.
pub fn split_lines<'a>(code: &'a str) -> (lines: Vec<&'a str>)
    ensures
        lines.deep_view() == lines_of(code@),
{
    let mut lines: Vec<&'a str> = Vec::new();
    let mut rest = code;
    assert(lines.deep_view() =~= Seq::<Seq<char>>::empty());
    assert(Seq::<Seq<char>>::empty() + lines_of(code@) =~= lines_of(code@));
    while !rest.is_empty()
        invariant
            lines_of(code@) == lines.deep_view() + lines_of(rest@),
        decreases rest@.len(),
    {
        let len = rest.unicode_len();
        let first = scan_run(rest, CharClass::Except(LINE_SEPARATOR));
        let ghost sofar = lines.deep_view();
        let ghost before = rest@;
        let line = if first < len && first > 0 && rest.get_char(first - 1) == '\r' {
            rest.substring_char(0, first - 1)
        } else {
            rest.substring_char(0, first)
        };
        lines.push(line);
        if first < len {
            rest = rest.substring_char(first + 1, len);
        } else {
            rest = rest.substring_char(len, len);
        }
        proof {
            let whole = before.take(first as int);
            assert(before.subrange(0, first as int) =~= whole);
            assert(lines.deep_view() =~= sofar.push(line@));
            if first < len {
                if first > 0 && before[first - 1] == '\r' {
                    assert(whole.last() == '\r');
                    assert(before.subrange(0, first - 1) =~= whole.drop_last());
                }
                assert(line@ == without_return(whole));
                assert(rest@ =~= before.skip(first + 1));
                assert(sofar + (seq![line@] + lines_of(rest@)) =~= sofar.push(line@) + lines_of(
                    rest@,
                ));
            } else {
                assert(line@ =~= before);
                assert(sofar + seq![before] =~= sofar.push(line@) + lines_of(rest@));
            }
        }
    }
    assert(lines.deep_view() + Seq::<Seq<char>>::empty() =~= lines.deep_view());
    lines
}

/// The lines `lines` with a line separator between each two of them.
pub open spec fn joined(lines: Seq<Seq<char>>) -> Seq<char>
    decreases lines.len(),
{
    if lines.len() == 0 {
        Seq::empty()
    } else if lines.len() == 1 {
        lines[0]
    } else {
        joined(lines.drop_last()) + seq![LINE_SEPARATOR] + lines.last()
    }
}

/// The character that stands for the digit `d`.
pub open spec fn digit_char(d: nat) -> char {
    if d == 0 {
        '0'
    } else if d == 1 {
        '1'
    } else if d == 2 {
        '2'
    } else if d == 3 {
        '3'
    } else if d == 4 {
        '4'
    } else if d == 5 {
        '5'
    } else if d == 6 {
        '6'
    } else if d == 7 {
        '7'
    } else if d == 8 {
        '8'
    } else {
        '9'
    }
}

/// The number `n` written in decimal, without leading zeros.
pub open spec fn decimal(n: nat) -> Seq<char>
    decreases n,
{
    if n < 10 {
        seq![digit_char(n)]
    } else {
        decimal(n / 10).push(digit_char(n % 10))
    }
}

/// A number in decimal has one digit at least.
pub proof fn lemma_decimal_len(n: nat)
    ensures
        decimal(n).len() >= 1,
        n < 10 ==> decimal(n).len() == 1,
    decreases n,
{
    if n >= 10 {
        lemma_decimal_len(n / 10);
    }
}

/// A number in decimal is far shorter than the number is large.
pub proof fn lemma_decimal_short(n: nat)
    ensures
        decimal(n).len() <= n / 10 + 1,
    decreases n,
{
    if n >= 10 {
        lemma_decimal_short(n / 10);
    }
}

/// The line at place `index` of `lines`, or the empty line where there is
/// none.
pub open spec fn line_or_empty(lines: Seq<Seq<char>>, index: int) -> Seq<char> {
    if 0 <= index < lines.len() {
        lines[index]
    } else {
        Seq::empty()
    }
}

/// The character that stands for the digit `d`.
fn digit(d: u128) -> (c: char)
    requires
        d < 10,
    ensures
        c == digit_char(d as nat),
{
    if d == 0 {
        '0'
    } else if d == 1 {
        '1'
    } else if d == 2 {
        '2'
    } else if d == 3 {
        '3'
    } else if d == 4 {
        '4'
    } else if d == 5 {
        '5'
    } else if d == 6 {
        '6'
    } else if d == 7 {
        '7'
    } else if d == 8 {
        '8'
    } else {
        '9'
    }
}

/// Appends `n` in decimal to `out`.
pub fn push_decimal(out: &mut String, n: u128)
    ensures
        final(out)@ == old(out)@ + decimal(n as nat),
    decreases n,
{
    if n >= 10 {
        push_decimal(out, n / 10);
    }
    out.push(digit(n % 10));
}

/// The number `n` written in decimal.
pub fn decimal_text(n: u128) -> (r: String)
    ensures
        r@ == decimal(n as nat),
{
    let mut out = String::new();
    push_decimal(&mut out, n);
    out
}

/// The text of `count` characters `c`.
pub open spec fn repeated(c: char, count: nat) -> Seq<char> {
    Seq::new(count, |i: int| c)
}

/// Appends `count` characters `c` to `out`.
pub fn push_repeated(out: &mut String, c: char, count: usize)
    ensures
        final(out)@ == old(out)@ + repeated(c, count as nat),
{
    let mut i: usize = 0;
    while i < count
        invariant
            i <= count,
            out@ == old(out)@ + repeated(c, i as nat),
        decreases count - i,
    {
        out.push(c);
        i = i + 1;
    }
}

/// Joins three pieces of text.
pub fn join3(a: &str, b: &str, c: &str) -> (r: String)
    ensures
        r@ == a@ + b@ + c@,
{
    String::from_str(a).concat(b).concat(c)
}

/// The text that holds `c` alone.
pub fn char_text(c: char) -> (r: String)
    ensures
        r@ == seq![c],
{
    let mut text = String::new();
    text.push(c);
    text
}

} // verus!
