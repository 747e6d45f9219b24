//! Pieces of text that remember where they stood.

use crate::parse::chars::{alphabetic, lemma_run_len, run_len, scan_run, CharClass};
use crate::parse::outcome::{Failure, Outcome, Parse, ParseStreamError};
use crate::parse::stream::{ParseStream, StreamState};
use crate::span::{CursorPosition, Span};
use vstd::prelude::*;
use vstd::string::*;

verus! {

broadcast use {
    crate::parse::stream::lemma_precedes_chain,
    crate::parse::stream::lemma_precedes_self,
};

/// A name, with the position of its first character.
#[derive(Clone, Debug)]
pub struct Ident {
    pub name: String,
    pub start: CursorPosition,
}

/// An [`Ident`] as a mathematical value.
pub ghost struct IdentModel {
    pub name: Seq<char>,
    pub start: CursorPosition,
}

impl DeepView for Ident {
    type V = IdentModel;

    open spec fn deep_view(&self) -> IdentModel {
        IdentModel { name: self.name@, start: self.start }
    }
}

impl IdentModel {
    /// The range of the name: as many columns as it has characters.
    pub open spec fn span(self) -> Span {
        Span::spanning(self.start, self.name.len())
    }
}

/// The length of the name at the head of `code`, given that `code` starts
/// with a letter: that letter and the letters and numerals that follow it.
pub open spec fn ident_len(code: Seq<char>) -> nat {
    1 + run_len(code.skip(1), CharClass::Alphanumeric)
}

/// A name that is read takes at least its first letter, and leaves a well
/// formed state behind.
pub proof fn lemma_ident_sound(pre: StreamState)
    requires
        pre.wf(),
    ensures
        Ident::parse_spec(pre) matches Outcome::Parsed { value, rest } ==> rest.wf()
            && pre.precedes(rest) && rest.code.len() < pre.code.len() && value.start.column
            + value.name.len() <= usize::MAX,
{
    pre.lemma_trimmed();
    let at = pre.trimmed();
    if at.code.len() > 0 {
        lemma_run_len(at.code.skip(1), CharClass::Alphanumeric);
        at.lemma_advance(ident_len(at.code));
    }
}

impl Ident {
    /// The name `name`, said to start at `start`.
    pub fn new(name: String, start: CursorPosition) -> (r: Self)
        ensures
            r.deep_view() == (IdentModel { name: name@, start }),
            r.name == name,
    {
        Self { name, start }
    }

    /// The range that the name covers.
    pub fn span(&self) -> (r: Span)
        requires
            self.start.column + self.name@.len() <= usize::MAX,
        ensures
            r == self.deep_view().span(),
    {
        let len = self.name.as_str().unicode_len();
        Span::with_extra_column(self.start, len)
    }
}

impl Parse for Ident {
    /// Blanks are skipped. Then a letter must follow; the name is that letter
    /// and every letter or numeral after it.
    open spec fn parse_spec(pre: StreamState) -> Outcome<IdentModel> {
        let at = pre.trimmed();
        if at.code.len() == 0 {
            Outcome::Failed(Failure::new(Span::eof(), at.depth, "ident"@))
        } else if !alphabetic(at.code[0]) {
            Outcome::Failed(Failure::new(Span::spanning(at.cursor, 1), at.depth, "ident"@))
        } else {
            Outcome::Parsed {
                value: IdentModel { name: at.code.take(ident_len(at.code) as int), start: at.cursor },
                rest: at.advance(ident_len(at.code)),
            }
        }
    }

    proof fn lemma_parse_spec(pre: StreamState) {
        lemma_ident_sound(pre);
    }

    fn parse(stream: &mut ParseStream<'_>) -> (r: Result<Self, ParseStreamError>)
        ensures
            r matches Ok(ident) ==> ident.start.column + ident.name@.len() <= usize::MAX,
    {
        let mut fork = *stream;
        fork.trim();
        if fork.is_empty() {
            return Err(ParseStreamError::new(Span::eof(), fork.depth, String::from_str("ident")));
        }
        let first = fork.code.get_char(0);
        if !first.is_alphabetic() {
            return Err(
                ParseStreamError::new(
                    Span::with_extra_column(fork.cursor, 1),
                    fork.depth,
                    String::from_str("ident"),
                ),
            );
        }
        let len = fork.code.unicode_len();
        let tail = fork.code.substring_char(1, len);
        let n = 1 + scan_run(tail, CharClass::Alphanumeric);
        let name = String::from_str(fork.code.substring_char(0, n));
        let start = fork.cursor;
        fork.offset_by(n);
        *stream = fork;
        Ok(Ident::new(name, start))
    }
}

/// The text between two `"`, with the position of the opening one.
#[derive(Clone, Debug)]
pub struct DoubleQuotedString {
    pub value: String,
    pub start: CursorPosition,
}

/// A [`DoubleQuotedString`] as a mathematical value.
pub ghost struct DoubleQuotedModel {
    pub value: Seq<char>,
    pub start: CursorPosition,
}

impl DeepView for DoubleQuotedString {
    type V = DoubleQuotedModel;

    open spec fn deep_view(&self) -> DoubleQuotedModel {
        DoubleQuotedModel { value: self.value@, start: self.start }
    }
}

impl DoubleQuotedModel {
    /// The range of the text and of the two `"` around it.
    pub open spec fn span(self) -> Span {
        Span::spanning(self.start, self.value.len() + 2)
    }
}

impl DoubleQuotedString {
    /// The text `value`, whose opening `"` is said to stand at `start`.
    pub fn new(value: String, start: CursorPosition) -> (r: Self)
        ensures
            r.deep_view() == (DoubleQuotedModel { value: value@, start }),
            r.value == value,
    {
        Self { value, start }
    }

    /// The range that the text and its two `"` cover.
    pub fn span(&self) -> (r: Span)
        requires
            self.start.column + self.value@.len() + 2 <= usize::MAX,
        ensures
            r == self.deep_view().span(),
    {
        let len = self.value.as_str().unicode_len();
        Span::with_extra_column(self.start, len + 2)
    }
}

} // verus!
