//! Character classes, and runs of characters of one class at the head of a text.

use vstd::prelude::*;
use vstd::string::*;

verus! {

/// Whether `c` has the Unicode property `White_Space`: the blank, the
/// controls from tab to carriage return, next line, and the spaces and
/// separators of lines and paragraphs beyond ASCII.
pub open spec fn white_space(c: char) -> bool {
    ||| c == ' '
    ||| ('\u{9}' <= c && c <= '\u{d}')
    ||| c == '\u{85}'
    ||| c == '\u{a0}'
    ||| c == '\u{1680}'
    ||| ('\u{2000}' <= c && c <= '\u{200a}')
    ||| c == '\u{2028}'
    ||| c == '\u{2029}'
    ||| c == '\u{202f}'
    ||| c == '\u{205f}'
    ||| c == '\u{3000}'
}

/// Whether `c` is one of the characters of ASCII.
pub open spec fn is_ascii_char(c: char) -> bool {
    c <= '\u{7f}'
}

/// Whether `c` is one of the 52 letters of ASCII.
pub open spec fn is_ascii_letter(c: char) -> bool {
    ('a' <= c && c <= 'z') || ('A' <= c && c <= 'Z')
}

/// Whether a character beyond ASCII has the Unicode property `Alphabetic`.
pub uninterp spec fn alphabetic_beyond_ascii(c: char) -> bool;

/// Whether a character beyond ASCII has one of Unicode's general
/// categories for numbers.
pub uninterp spec fn numeric_beyond_ascii(c: char) -> bool;

/// Whether `c` has the Unicode property `Alphabetic`. Of ASCII the letters
/// have it, and nothing else.
pub open spec fn alphabetic(c: char) -> bool {
    if is_ascii_char(c) {
        is_ascii_letter(c)
    } else {
        alphabetic_beyond_ascii(c)
    }
}

/// Whether `c` has one of Unicode's general categories for numbers. Of
/// ASCII the ten digits have, and nothing else.
pub open spec fn numeric(c: char) -> bool {
    if is_ascii_char(c) {
        is_digit(c)
    } else {
        numeric_beyond_ascii(c)
    }
}

/// Whether `c` is alphabetic or numeric.
pub open spec fn alphanumeric(c: char) -> bool {
    alphabetic(c) || numeric(c)
}

/// `char::is_whitespace` of the standard library decides the Unicode property
/// `White_Space`, which 25 characters have; they are listed in
/// [`white_space`].
pub assume_specification[ char::is_whitespace ](c: char) -> (b: bool)
    ensures
        b == white_space(c),
;

/// `char::is_alphabetic` of the standard library decides the Unicode property
/// `Alphabetic`. Of ASCII exactly the letters have it. Beyond ASCII the
/// answer comes from tables; it depends on the character alone, and is
/// given the name [`alphabetic_beyond_ascii`] here.
pub assume_specification[ char::is_alphabetic ](c: char) -> (b: bool)
    ensures
        b == alphabetic(c),
        !is_ascii_char(c) ==> b == alphabetic_beyond_ascii(c),
;

/// `char::is_alphanumeric` of the standard library answers what
/// `char::is_alphabetic` or `char::is_numeric` answers. `char::is_numeric`
/// decides Unicode's general categories for numbers: of ASCII exactly the
/// ten digits have one, and beyond ASCII the answer comes from tables,
/// depends on the character alone, and is given the name
/// [`numeric_beyond_ascii`] here.
pub assume_specification[ char::is_alphanumeric ](c: char) -> (b: bool)
    ensures
        b == alphanumeric(c),
        !is_ascii_char(c) ==> b == (alphabetic_beyond_ascii(c) || numeric_beyond_ascii(c)),
;

/// `String::push` of the standard library appends one character to the end
/// of the string and leaves the rest as it was.
pub assume_specification[ std::string::String::push ](s: &mut std::string::String, ch: char)
    ensures
        final(s)@ == old(s)@.push(ch),
;

/// The classes of characters that the scanners tell apart.
#[derive(Copy, Clone, Debug, PartialEq, Eq, Structural)]
pub enum CharClass {
    /// Blank characters, line separators among them.
    Whitespace,
    /// Letters and numerals.
    Alphanumeric,
    /// The ten decimal digits `0` to `9`.
    Digit,
    /// Every character but the one named.
    Except(char),
    /// Every character that is not blank.
    NonBlank,
}

/// Whether `c` is one of the ten decimal digits.
pub open spec fn is_digit(c: char) -> bool {
    '0' <= c && c <= '9'
}

/// Whether `c` belongs to `class`.
pub open spec fn in_class(c: char, class: CharClass) -> bool {
    match class {
        CharClass::Whitespace => white_space(c),
        CharClass::Alphanumeric => alphanumeric(c),
        CharClass::Digit => is_digit(c),
        CharClass::Except(other) => c != other,
        CharClass::NonBlank => !white_space(c),
    }
}

/// Decides whether `c` belongs to `class`.
pub fn has_class(c: char, class: CharClass) -> (b: bool)
    ensures
        b == in_class(c, class),
{
    match class {
        CharClass::Whitespace => c.is_whitespace(),
        CharClass::Alphanumeric => c.is_alphanumeric(),
        CharClass::Digit => '0' <= c && c <= '9',
        CharClass::Except(other) => c != other,
        CharClass::NonBlank => !c.is_whitespace(),
    }
}

/// The length of the longest prefix of `s` whose characters all belong to
/// `class`.
pub open spec fn run_len(s: Seq<char>, class: CharClass) -> nat
    decreases s.len(),
{
    if s.len() > 0 && in_class(s[0], class) {
        1 + run_len(s.skip(1), class)
    } else {
        0
    }
}

/// A run is a prefix, every character of it belongs to the class, and the
/// character after it, if there is one, does not.
pub proof fn lemma_run_len(s: Seq<char>, class: CharClass)
    ensures
        run_len(s, class) <= s.len(),
        forall|i: int| 0 <= i < run_len(s, class) ==> in_class(#[trigger] s[i], class),
        run_len(s, class) < s.len() ==> !in_class(s[run_len(s, class) as int], class),
    decreases s.len(),
{
    if s.len() > 0 && in_class(s[0], class) {
        let tail = s.skip(1);
        lemma_run_len(tail, class);
        assert forall|i: int| 0 <= i < run_len(s, class) implies in_class(
            #[trigger] s[i],
            class,
        ) by {
            if i > 0 {
                assert(s[i] == tail[i - 1]);
            }
        }
    }
}

/// The run is the only prefix that is in the class throughout and cannot be
/// made longer.
pub proof fn lemma_run_len_is(s: Seq<char>, class: CharClass, n: nat)
    requires
        n <= s.len(),
        forall|i: int| 0 <= i < n ==> in_class(#[trigger] s[i], class),
        n < s.len() ==> !in_class(s[n as int], class),
    ensures
        run_len(s, class) == n,
    decreases n,
{
    if n > 0 {
        let tail = s.skip(1);
        lemma_run_len_is(tail, class, (n - 1) as nat);
    }
}

/// Counts the characters at the head of `code` that belong to `class`.
pub fn scan_run(code: &str, class: CharClass) -> (n: usize)
    ensures
        n == run_len(code@, class),
        n <= code@.len(),
{
    let len = code.unicode_len();
    let mut n: usize = 0;
    while n < len && has_class(code.get_char(n), class)
        invariant
            n <= len,
            len == code@.len(),
            forall|i: int| 0 <= i < n ==> in_class(#[trigger] code@[i], class),
        decreases len - n,
    {
        n = n + 1;
    }
    proof {
        lemma_run_len_is(code@, class, n as nat);
    }
    n
}

} // verus!
