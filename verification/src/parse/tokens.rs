//! The primitive parsers: keywords, punctuation, enclosed strings, small
//! numbers and line ends.
//!
//! Punctuation is read against a table of tokens. The tokens are tried in
//! the order of the table, and the first that the text begins with is the
//! next token, whole: where `==` stands, `=` is not found. A keyword is a
//! name that reads as the keyword does, and nothing else.

use crate::parse::chars::{
    alphanumeric, is_digit, lemma_run_len, run_len, scan_run, white_space, CharClass,
};
use crate::parse::outcome::{fulfils, Failure, Outcome, Parse, ParseStreamError};
use crate::parse::span::{DoubleQuotedModel, DoubleQuotedString, Ident};
use crate::parse::stream::{
    step, walk, ESCAPING_SIGN, LINE_SEPARATOR, ParseStream, ParsingDepth, StreamState,
};
use crate::span::{CursorPosition, Span};
use crate::text::{char_text, join3};
use vstd::prelude::*;
use vstd::string::*;

verus! {

broadcast use {
    crate::parse::stream::lemma_precedes_chain,
    crate::parse::stream::lemma_precedes_self,
};

/// Whether two texts hold the same characters.
pub fn same_text(a: &str, b: &str) -> (r: bool)
    ensures
        r == (a@ == b@),
{
    let len = a.unicode_len();
    if b.unicode_len() != len {
        return false;
    }
    let mut i: usize = 0;
    while i < len
        invariant
            i <= len,
            len == a@.len(),
            len == b@.len(),
            forall|j: int| 0 <= j < i ==> a@[j] == b@[j],
        decreases len - i,
    {
        if a.get_char(i) != b.get_char(i) {
            return false;
        }
        i = i + 1;
    }
    assert(a@ =~= b@);
    true
}

/// Whether `code` begins with `token`.
pub fn starts_with(code: &str, token: &str) -> (r: bool)
    ensures
        r == token@.is_prefix_of(code@),
{
    let len = token.unicode_len();
    if code.unicode_len() < len {
        return false;
    }
    let mut i: usize = 0;
    while i < len
        invariant
            i <= len,
            len == token@.len(),
            len <= code@.len(),
            forall|j: int| 0 <= j < i ==> token@[j] == code@[j],
        decreases len - i,
    {
        if token.get_char(i) != code.get_char(i) {
            return false;
        }
        i = i + 1;
    }
    true
}

/// What a failed keyword parse says it expected.
pub open spec fn keyword_expected(keyword: Seq<char>) -> Seq<char> {
    "keyword `"@ + keyword + "`"@
}

/// A keyword is a name that reads exactly `keyword`. Another name fails over
/// its own range, at the depth where the attempt began.
pub open spec fn keyword_spec(pre: StreamState, keyword: Seq<char>) -> Outcome<()> {
    match Ident::parse_spec(pre) {
        Outcome::Parsed { value, rest } => if value.name == keyword {
            Outcome::Parsed { value: (), rest }
        } else {
            Outcome::Failed(Failure::new(value.span(), pre.depth, keyword_expected(keyword)))
        },
        Outcome::Failed(failure) => Outcome::Failed(failure.expecting(keyword_expected(keyword))),
    }
}

/// A keyword that is read takes at least one character.
pub proof fn lemma_keyword_consumes(pre: StreamState, keyword: Seq<char>)
    requires
        pre.wf(),
    ensures
        keyword_spec(pre, keyword) matches Outcome::Parsed { rest, .. } ==> rest.wf()
            && pre.precedes(rest) && rest.code.len() < pre.code.len(),
{
    crate::parse::span::lemma_ident_sound(pre);
}

/// The punctuation tokens, in the order in which they are tried. A token
/// that begins like a shorter one stands before it.
pub open spec fn punct_tokens() -> Seq<Seq<char>> {
    seq![
        "=="@, "="@, ":"@, ";"@, "."@, ","@, "("@, ")"@, "["@, "]"@, "{"@,
        "}"@, "<"@, ">"@, "|"@, "->"@, "+"@, "-"@, "*"@, "/"@, "!"@, "&"@,
    ]
}

/// The number of punctuation tokens.
pub const PUNCT_COUNT: usize = 22;

/// The punctuation token at place `index` of the order of trial.
pub fn punct_token(index: usize) -> (r: &'static str)
    requires
        index < PUNCT_COUNT,
    ensures
        r@ == punct_tokens()[index as int],
{
    match index {
        0 => "==",
        1 => "=",
        2 => ":",
        3 => ";",
        4 => ".",
        5 => ",",
        6 => "(",
        7 => ")",
        8 => "[",
        9 => "]",
        10 => "{",
        11 => "}",
        12 => "<",
        13 => ">",
        14 => "|",
        15 => "->",
        16 => "+",
        17 => "-",
        18 => "*",
        19 => "/",
        20 => "!",
        _ => "&",
    }
}

/// Every punctuation token has one or two characters, and the second
/// character of a token is `=` or `>`.
pub proof fn lemma_punct_tokens()
    ensures
        punct_tokens().len() == PUNCT_COUNT,
        forall|i: int| 0 <= i < PUNCT_COUNT ==> 1 <= (#[trigger] punct_tokens()[i]).len() <= 2,
        forall|i: int|
            0 <= i < PUNCT_COUNT && (#[trigger] punct_tokens()[i]).len() == 2 ==> punct_tokens()[i][1]
                == '=' || punct_tokens()[i][1] == '>',
{
    reveal_strlit("==");
    reveal_strlit("=");
    reveal_strlit(":");
    reveal_strlit(";");
    reveal_strlit(".");
    reveal_strlit(",");
    reveal_strlit("(");
    reveal_strlit(")");
    reveal_strlit("[");
    reveal_strlit("]");
    reveal_strlit("{");
    reveal_strlit("}");
    reveal_strlit("<");
    reveal_strlit(">");
    reveal_strlit("|");
    reveal_strlit("->");
    reveal_strlit("+");
    reveal_strlit("-");
    reveal_strlit("*");
    reveal_strlit("/");
    reveal_strlit("!");
    reveal_strlit("&");
}

/// No punctuation token begins with a blank, a letter or a numeral.
pub proof fn lemma_punct_token_chars()
    ensures
        forall|i: int|
            0 <= i < PUNCT_COUNT ==> !white_space((#[trigger] punct_tokens()[i])[0]) && !alphanumeric(
                punct_tokens()[i][0],
            ),
{
    reveal_strlit("==");
    reveal_strlit("=");
    reveal_strlit(":");
    reveal_strlit(";");
    reveal_strlit(".");
    reveal_strlit(",");
    reveal_strlit("(");
    reveal_strlit(")");
    reveal_strlit("[");
    reveal_strlit("]");
    reveal_strlit("{");
    reveal_strlit("}");
    reveal_strlit("<");
    reveal_strlit(">");
    reveal_strlit("|");
    reveal_strlit("->");
    reveal_strlit("+");
    reveal_strlit("-");
    reveal_strlit("*");
    reveal_strlit("/");
    reveal_strlit("!");
    reveal_strlit("&");
}

/// The place, at or after `from`, of the first token that `code` begins with.
pub open spec fn first_token_from(code: Seq<char>, from: nat) -> Option<nat>
    decreases punct_tokens().len() - from,
{
    if from >= punct_tokens().len() {
        None
    } else if punct_tokens()[from as int].is_prefix_of(code) {
        Some(from)
    } else {
        first_token_from(code, from + 1)
    }
}

/// Blanks are skipped. Then the first token of the order of trial that the
/// text begins with is read, and returned with its range.
pub open spec fn next_punct_spec(pre: StreamState) -> Outcome<(Seq<char>, Span)> {
    let at = pre.trimmed();
    match first_token_from(at.code, 0) {
        Some(i) => {
            let token = punct_tokens()[i as int];
            Outcome::Parsed {
                value: (token, Span::spanning(at.cursor, token.len())),
                rest: at.advance(token.len()),
            }
        },
        None => Outcome::Failed(
            Failure::new(Span::spanning(at.cursor, 1), at.depth, "a punctuation token"@),
        ),
    }
}

/// What a failed punctuation parse says it expected.
pub open spec fn punct_expected(punct: Seq<char>) -> Seq<char> {
    "`"@ + punct + "`"@
}

/// The next token must be `punct` itself: `=` is not found where `==`
/// stands. Another token fails over its own range, at the depth where the
/// attempt began.
pub open spec fn punct_spec(pre: StreamState, punct: Seq<char>) -> Outcome<()> {
    match next_punct_spec(pre) {
        Outcome::Parsed { value, rest } => if value.0 == punct {
            Outcome::Parsed { value: (), rest }
        } else {
            Outcome::Failed(Failure::new(value.1, pre.depth, punct_expected(punct)))
        },
        Outcome::Failed(failure) => Outcome::Failed(failure.expecting(punct_expected(punct))),
    }
}

/// A punctuation token that is found takes at least one character.
pub proof fn lemma_punct_consumes(pre: StreamState, punct: Seq<char>)
    requires
        pre.wf(),
    ensures
        punct_spec(pre, punct) matches Outcome::Parsed { rest, .. } ==> rest.wf() && pre.precedes(
            rest,
        ) && rest.code.len() < pre.code.len(),
{
    lemma_punct_tokens();
    pre.lemma_trimmed();
    let at = pre.trimmed();
    lemma_first_token(at.code, 0);
    if let Some(i) = first_token_from(at.code, 0) {
        at.lemma_advance(punct_tokens()[i as int].len());
    }
}

/// The token found is one of the order, `code` begins with it, and with
/// none of those tried before it.
pub proof fn lemma_first_token(code: Seq<char>, from: nat)
    ensures
        match first_token_from(code, from) {
            Some(i) => from <= i < punct_tokens().len() && punct_tokens()[i as int].is_prefix_of(
                code,
            ) && forall|j: int| from <= j < i ==> !(#[trigger] punct_tokens()[j]).is_prefix_of(code),
            None => forall|j: int|
                from <= j < punct_tokens().len() ==> !(#[trigger] punct_tokens()[j]).is_prefix_of(
                    code,
                ),
        },
    decreases punct_tokens().len() - from,
{
    if from < punct_tokens().len() && !punct_tokens()[from as int].is_prefix_of(code) {
        lemma_first_token(code, from + 1);
    }
}

/// Whether the character at place `i` of `body` is a delimiter that closes:
/// one that no escaping sign stands before.
pub open spec fn closes_at(body: Seq<char>, delimiter: char, i: int) -> bool {
    &&& 0 <= i < body.len()
    &&& body[i] == delimiter
    &&& delimiter != ESCAPING_SIGN
    &&& (i > 0 ==> body[i - 1] != ESCAPING_SIGN)
}

/// The place, at or after `from`, of the first delimiter in `body` that closes.
pub open spec fn closing_from(body: Seq<char>, delimiter: char, from: nat) -> Option<nat>
    decreases body.len() - from,
{
    if from >= body.len() {
        None
    } else if closes_at(body, delimiter, from as int) {
        Some(from)
    } else {
        closing_from(body, delimiter, from + 1)
    }
}

/// The delimiter found closes, stands in `body`, and none before it closes.
pub proof fn lemma_closing_from(body: Seq<char>, delimiter: char, from: nat)
    ensures
        match closing_from(body, delimiter, from) {
            Some(i) => from <= i < body.len() && closes_at(body, delimiter, i as int) && forall|
                j: int,
            |
                from <= j < i ==> !closes_at(body, delimiter, j),
            None => forall|j: int| from <= j < body.len() ==> !closes_at(body, delimiter, j),
        },
    decreases body.len() - from,
{
    if from < body.len() && !closes_at(body, delimiter, from as int) {
        lemma_closing_from(body, delimiter, from + 1);
    }
}

/// What is expected where an enclosed text should begin.
pub open spec fn enclosed_expected(delimiter: char) -> Seq<char> {
    "`"@ + seq![delimiter] + "`-enclosed string"@
}

/// What is expected where a closing delimiter is missing.
pub open spec fn closing_expected(delimiter: char) -> Seq<char> {
    "the second closing delimiter - `"@ + seq![delimiter] + "`"@
}

/// Blanks are skipped. Then `delimiter` must follow; the text runs up to the
/// first delimiter that closes, and is returned as it stands, with the
/// position just after the opening delimiter. Without a closing delimiter
/// the failure is one of the end of the input, at the depth of that end.
pub open spec fn enclosed_spec(pre: StreamState, delimiter: char) -> Outcome<
    (Seq<char>, CursorPosition),
> {
    let at = pre.trimmed();
    if at.code.len() > 0 && at.code[0] == delimiter {
        let body = at.code.skip(1);
        match closing_from(body, delimiter, 0) {
            Some(i) => Outcome::Parsed {
                value: (body.take(i as int), step(at.cursor, delimiter)),
                rest: at.advance(i + 2),
            },
            None => Outcome::Failed(
                Failure::new(
                    Span::eof(),
                    (at.depth + at.code.len()) as usize,
                    closing_expected(delimiter),
                ),
            ),
        }
    } else {
        Outcome::Failed(
            Failure::new(Span::spanning(at.cursor, 1), at.depth, enclosed_expected(delimiter)),
        )
    }
}

/// A `"`-enclosed text, with the position of its opening `"`.
pub open spec fn double_quoted_spec(pre: StreamState) -> Outcome<DoubleQuotedModel> {
    match enclosed_spec(pre, '"') {
        Outcome::Parsed { value, rest } => Outcome::Parsed {
            value: DoubleQuotedModel { value: value.0, start: pre.trimmed().cursor },
            rest,
        },
        Outcome::Failed(failure) => Outcome::Failed(failure),
    }
}

/// An enclosed text that is read takes its two delimiters at least.
pub proof fn lemma_enclosed_consumes(pre: StreamState, delimiter: char)
    requires
        pre.wf(),
    ensures
        enclosed_spec(pre, delimiter) matches Outcome::Parsed { value, rest } ==> rest.wf()
            && pre.precedes(rest) && rest.code.len() < pre.code.len()
            && pre.trimmed().cursor.column + value.0.len() + 2 <= usize::MAX,
        double_quoted_spec(pre) matches Outcome::Parsed { value, rest } ==> rest.wf()
            && pre.precedes(rest) && rest.code.len() < pre.code.len() && value.start.column
            + value.value.len() + 2 + rest.code.len() < usize::MAX,
{
    pre.lemma_trimmed();
    let at = pre.trimmed();
    if at.code.len() > 0 && at.code[0] == delimiter {
        lemma_closing_from(at.code.skip(1), delimiter, 0);
        if let Some(i) = closing_from(at.code.skip(1), delimiter, 0) {
            at.lemma_advance(i + 2);
        }
    }
    if at.code.len() > 0 && at.code[0] == '"' {
        lemma_closing_from(at.code.skip(1), '"', 0);
        if let Some(i) = closing_from(at.code.skip(1), '"', 0) {
            at.lemma_advance(i + 2);
        }
    }
}

/// The number that the decimal digit `c` stands for.
pub open spec fn digit_value(c: char) -> nat {
    (c as nat - '0' as nat) as nat
}

/// The number that a text of decimal digits stands for.
pub open spec fn decimal_value(digits: Seq<char>) -> nat
    decreases digits.len(),
{
    if digits.len() == 0 {
        0
    } else {
        decimal_value(digits.drop_last()) * 10 + digit_value(digits.last())
    }
}

/// Blanks are skipped. Then the longest run of decimal digits is read; it
/// must not be empty and must stand for a number that fits in eight bits.
pub open spec fn number_u8_spec(pre: StreamState) -> Outcome<u8> {
    let at = pre.trimmed();
    let n = run_len(at.code, CharClass::Digit);
    let value = decimal_value(at.code.take(n as int));
    if n > 0 && value <= u8::MAX {
        Outcome::Parsed { value: value as u8, rest: at.advance(n) }
    } else {
        Outcome::Failed(Failure::new(Span::spanning(at.cursor, 1), at.depth, "an `u8` number"@))
    }
}

/// A number that is read takes at least one digit.
pub proof fn lemma_number_u8_consumes(pre: StreamState)
    requires
        pre.wf(),
    ensures
        number_u8_spec(pre) matches Outcome::Parsed { rest, .. } ==> rest.wf() && pre.precedes(
            rest,
        ) && rest.code.len() < pre.code.len(),
{
    pre.lemma_trimmed();
    let at = pre.trimmed();
    lemma_run_len(at.code, CharClass::Digit);
    at.lemma_advance(run_len(at.code, CharClass::Digit));
}

/// The rest of the line must be blank. It is read up to the line separator,
/// which stays. A text without a line separator fails over all that is
/// left, a line with something on it at the first character that is not
/// blank.
pub open spec fn newline_spec(pre: StreamState) -> Outcome<()> {
    let line = run_len(pre.code, CharClass::Except(LINE_SEPARATOR));
    let blanks = run_len(pre.code.take(line as int), CharClass::Whitespace);
    if line == pre.code.len() {
        Outcome::Failed(
            Failure::new(Span::spanning(pre.cursor, pre.code.len()), pre.depth, "newline"@),
        )
    } else if blanks < line {
        Outcome::Failed(
            Failure::new(
                Span::spanning(
                    CursorPosition {
                        line: pre.cursor.line,
                        column: (pre.cursor.column + blanks) as usize,
                    },
                    1,
                ),
                pre.depth,
                "newline"@,
            ),
        )
    } else {
        Outcome::Parsed { value: (), rest: pre.advance(line) }
    }
}

/// Finds the first punctuation token, in the order of trial, that `code`
/// begins with.
pub fn find_token(code: &str) -> (r: Option<usize>)
    ensures
        match r {
            Some(index) => first_token_from(code@, 0) == Some(index as nat),
            None => first_token_from(code@, 0) is None,
        },
{
    let mut index: usize = 0;
    while index < PUNCT_COUNT
        invariant
            index <= PUNCT_COUNT,
            punct_tokens().len() == PUNCT_COUNT,
            first_token_from(code@, 0) == first_token_from(code@, index as nat),
        decreases PUNCT_COUNT - index,
    {
        if starts_with(code, punct_token(index)) {
            return Some(index);
        }
        index = index + 1;
    }
    None
}

/// Finds the first delimiter in `body` that closes.
pub fn find_closing(body: &str, delimiter: char) -> (r: Option<usize>)
    ensures
        match r {
            Some(offset) => closing_from(body@, delimiter, 0) == Some(offset as nat),
            None => closing_from(body@, delimiter, 0) is None,
        },
{
    let len = body.unicode_len();
    let mut previous_was_escaping_sign = false;
    let mut offset: usize = 0;
    while offset < len
        invariant
            offset <= len,
            len == body@.len(),
            previous_was_escaping_sign == (offset > 0 && body@[offset - 1] == ESCAPING_SIGN),
            closing_from(body@, delimiter, 0) == closing_from(body@, delimiter, offset as nat),
        decreases len - offset,
    {
        let c = body.get_char(offset);
        if c == ESCAPING_SIGN {
            previous_was_escaping_sign = true;
        } else {
            if c == delimiter && !previous_was_escaping_sign {
                return Some(offset);
            }
            previous_was_escaping_sign = false;
        }
        offset = offset + 1;
    }
    None
}

/// The number that the first `digits` characters of `code` stand for, or
/// 256 where that number does not fit in eight bits.
pub fn read_decimal(code: &str, digits: usize) -> (value: u32)
    requires
        digits <= code@.len(),
        forall|j: int| 0 <= j < digits ==> is_digit(#[trigger] code@[j]),
    ensures
        decimal_value(code@.take(digits as int)) <= u8::MAX ==> value == decimal_value(
            code@.take(digits as int),
        ),
        decimal_value(code@.take(digits as int)) > u8::MAX ==> value == 256,
{
    let mut value: u32 = 0;
    let mut i: usize = 0;
    while i < digits
        invariant
            i <= digits <= code@.len(),
            forall|j: int| 0 <= j < digits ==> is_digit(#[trigger] code@[j]),
            value <= 256,
            value <= u8::MAX ==> value == decimal_value(code@.take(i as int)),
            value == 256 ==> decimal_value(code@.take(i as int)) > u8::MAX,
        decreases digits - i,
    {
        let c = code.get_char(i);
        proof {
            let next = code@.take(i + 1);
            assert(next.drop_last() =~= code@.take(i as int));
        }
        if value <= 255 {
            value = value * 10 + (c as u32 - '0' as u32);
            if value > 255 {
                value = 256;
            }
        }
        i = i + 1;
    }
    value
}

/// Reading the blank rest of a line only moves forward.
pub proof fn lemma_newline_sound(pre: StreamState)
    requires
        pre.wf(),
    ensures
        newline_spec(pre).sound_from(pre),
{
    lemma_run_len(pre.code, CharClass::Except(LINE_SEPARATOR));
    pre.lemma_advance(run_len(pre.code, CharClass::Except(LINE_SEPARATOR)));
}

impl<'a> ParseStream<'a> {
    /// Reads the keyword `keyword`: a name that is exactly that word.
    pub fn keyword(&mut self, keyword: &str) -> (r: Result<(), ParseStreamError>)
        requires
            old(self).wf(),
        ensures
            fulfils(keyword_spec(old(self)@, keyword@), r, final(self)@),
            final(self).wf(),
            old(self)@.precedes(final(self)@),
            r is Err ==> *final(self) == *old(self),
    {
        let mut fork = *self;
        match Ident::parse(&mut fork) {
            Ok(ident) => {
                if same_text(ident.name.as_str(), keyword) {
                    *self = fork;
                    Ok(())
                } else {
                    Err(
                        ParseStreamError::new(
                            ident.span(),
                            self.depth,
                            join3("keyword `", keyword, "`"),
                        ),
                    )
                }
            },
            Err(error) => Err(error.with_custom_expected(join3("keyword `", keyword, "`"))),
        }
    }

    /// Reads the next punctuation token, whichever it is.
    pub fn next_punct(&mut self) -> (r: Result<(&'static str, Span), ParseStreamError>)
        requires
            old(self).wf(),
        ensures
            fulfils(next_punct_spec(old(self)@), r, final(self)@),
            final(self).wf(),
            old(self)@.precedes(final(self)@),
            r is Err ==> *final(self) == *old(self),
    {
        let mut fork = *self;
        fork.trim();
        match find_token(fork.code) {
            Some(index) => {
                proof {
                    lemma_punct_tokens();
                    lemma_first_token(fork@.code, 0);
                }
                let token = punct_token(index);
                let width = token.unicode_len();
                let span = Span::with_extra_column(fork.cursor, width);
                fork.offset_by(width);
                *self = fork;
                Ok((token, span))
            },
            None => Err(
                ParseStreamError::new(
                    Span::with_extra_column(fork.cursor, 1),
                    fork.depth,
                    String::from_str("a punctuation token"),
                ),
            ),
        }
    }

    /// Reads the punctuation token `punct`.
    pub fn punct(&mut self, punct: &str) -> (r: Result<(), ParseStreamError>)
        requires
            old(self).wf(),
        ensures
            fulfils(punct_spec(old(self)@, punct@), r, final(self)@),
            final(self).wf(),
            old(self)@.precedes(final(self)@),
            r is Err ==> *final(self) == *old(self),
    {
        let mut fork = *self;
        match fork.next_punct() {
            Ok((token, span)) => {
                if same_text(token, punct) {
                    *self = fork;
                    Ok(())
                } else {
                    Err(ParseStreamError::new(span, self.depth, join3("`", punct, "`")))
                }
            },
            Err(error) => Err(error.with_custom_expected(join3("`", punct, "`"))),
        }
    }

    /// Reads a text enclosed in two `delimiter`s.
    pub fn enclosed(&mut self, delimiter: char) -> (r: Result<
        (String, CursorPosition),
        ParseStreamError,
    >)
        requires
            old(self).wf(),
        ensures
            fulfils(enclosed_spec(old(self)@, delimiter), r, final(self)@),
            final(self).wf(),
            old(self)@.precedes(final(self)@),
            r is Err ==> *final(self) == *old(self),
    {
        let mut fork = *self;
        fork.trim();
        let len = fork.code.unicode_len();
        if len == 0 || fork.code.get_char(0) != delimiter {
            return Err(
                ParseStreamError::new(
                    Span::with_extra_column(fork.cursor, 1),
                    fork.depth,
                    join3("`", char_text(delimiter).as_str(), "`-enclosed string"),
                ),
            );
        }
        let body = fork.code.substring_char(1, len);
        let ghost at = fork@;
        match find_closing(body, delimiter) {
            Some(offset) => {
                proof {
                    lemma_closing_from(body@, delimiter, 0);
                }
                let text = String::from_str(body.substring_char(0, offset));
                proof {
                    at.lemma_advance_twice(1, (offset + 1) as nat);
                    assert(at.code.take(1) =~= seq![delimiter]);
                    assert(seq![delimiter].drop_last() =~= Seq::<char>::empty());
                    assert(walk(at.cursor, seq![delimiter]) == step(
                        walk(at.cursor, Seq::<char>::empty()),
                        delimiter,
                    ));
                }
                fork.offset_by(1);
                let start = fork.cursor;
                fork.offset_by(offset + 1);
                *self = fork;
                Ok((text, start))
            },
            None => Err(
                ParseStreamError::new(
                    Span::eof(),
                    ParsingDepth(fork.depth.0 + len),
                    join3("the second closing delimiter - `", char_text(delimiter).as_str(), "`"),
                ),
            ),
        }
    }

    /// Reads a `"`-enclosed text.
    pub fn double_quoted_string(&mut self) -> (r: Result<DoubleQuotedString, ParseStreamError>)
        requires
            old(self).wf(),
        ensures
            fulfils(double_quoted_spec(old(self)@), r, final(self)@),
            final(self).wf(),
            old(self)@.precedes(final(self)@),
            r is Err ==> *final(self) == *old(self),
            r matches Ok(text) ==> text.start.column + text.value@.len() + 2 + final(self)@.code.len()
                < usize::MAX,
    {
        proof {
            old(self)@.lemma_trimmed();
        }
        match self.enclosed('"') {
            Ok((value, after)) => {
                proof {
                    let at = old(self)@.trimmed();
                    lemma_closing_from(at.code.skip(1), '"', 0);
                    at.lemma_advance(closing_from(at.code.skip(1), '"', 0)->Some_0 + 2);
                }
                let start = CursorPosition { line: after.line, column: after.column - 1 };
                Ok(DoubleQuotedString::new(value, start))
            },
            Err(error) => Err(error),
        }
    }

    /// Reads a decimal number that fits in eight bits.
    pub fn number_u8(&mut self) -> (r: Result<u8, ParseStreamError>)
        requires
            old(self).wf(),
        ensures
            fulfils(number_u8_spec(old(self)@), r, final(self)@),
            final(self).wf(),
            old(self)@.precedes(final(self)@),
            r is Err ==> *final(self) == *old(self),
    {
        let mut fork = *self;
        fork.trim();
        let digits = scan_run(fork.code, CharClass::Digit);
        proof {
            lemma_run_len(fork@.code, CharClass::Digit);
        }
        let value = read_decimal(fork.code, digits);
        if digits > 0 && value <= 255 {
            fork.offset_by(digits);
            *self = fork;
            Ok(value as u8)
        } else {
            Err(
                ParseStreamError::new(
                    Span::with_extra_column(fork.cursor, 1),
                    fork.depth,
                    String::from_str("an `u8` number"),
                ),
            )
        }
    }

    /// Reads the blank rest of the line, up to its line separator.
    pub fn newline(&mut self) -> (r: Result<(), ParseStreamError>)
        requires
            old(self).wf(),
        ensures
            fulfils(newline_spec(old(self)@), r, final(self)@),
            final(self).wf(),
            old(self)@.precedes(final(self)@),
            r is Err ==> *final(self) == *old(self),
    {
        let len = self.code.unicode_len();
        let line = scan_run(self.code, CharClass::Except(LINE_SEPARATOR));
        if line == len {
            return Err(
                ParseStreamError::new(
                    Span::with_extra_column(self.cursor, len),
                    self.depth,
                    String::from_str("newline"),
                ),
            );
        }
        let head = self.code.substring_char(0, line);
        let blanks = scan_run(head, CharClass::Whitespace);
        if blanks < line {
            Err(
                ParseStreamError::new(
                    Span::with_extra_column(self.cursor.extend_column_by(blanks), 1),
                    self.depth,
                    String::from_str("newline"),
                ),
            )
        } else {
            self.offset_by(line);
            Ok(())
        }
    }
}

} // verus!
