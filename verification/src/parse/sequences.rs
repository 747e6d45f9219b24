//! Repetition and delimited blocks.

use crate::parse::outcome::{fulfils, Failure, Outcome, Parse, ParseStreamError};
use crate::parse::punctuated::{punctuated_spec, Punctuated};
use crate::parse::stream::{ParseStream, StreamState};
use crate::parse::tokens::{closing_expected, lemma_punct_consumes, punct_spec};
use crate::span::Span;
use crate::text::{char_text, join3};
use vstd::prelude::*;
use vstd::string::*;

verus! {

broadcast use {
    crate::parse::stream::lemma_precedes_chain,
    crate::parse::stream::lemma_precedes_self,
};

/// Every value of `T` that can be read takes at least one character.
pub open spec fn always_consumes<T: Parse>() -> bool {
    forall|pre: StreamState|
        pre.wf() ==> (#[trigger] T::parse_spec(pre) matches Outcome::Parsed { rest, .. }
            ==> rest.code.len() < pre.code.len())
}

/// The values that can be read one after the other from `pre`, up to the
/// first that cannot, and the state where that one was tried. A value that
/// took nothing would come again without end: the sequence stops behind it.
pub open spec fn many_spec<T: Parse>(pre: StreamState) -> (Seq<T::V>, StreamState)
    decreases pre.code.len(),
{
    match T::parse_spec(pre) {
        Outcome::Failed(_) => (Seq::empty(), pre),
        Outcome::Parsed { value, rest } => if rest.code.len() < pre.code.len() {
            let more = many_spec::<T>(rest);
            (seq![value] + more.0, more.1)
        } else {
            (seq![value], rest)
        },
    }
}

/// Blanks are skipped; then as many values as can be read, which may be none.
pub open spec fn parse_until_error_spec<T: Parse>(pre: StreamState) -> Outcome<Seq<T::V>> {
    let more = many_spec::<T>(pre.trimmed());
    Outcome::Parsed { value: more.0, rest: more.1 }
}

/// Blanks are skipped; then one value, whose failure is the failure of the
/// whole, and as many more as can be read.
pub open spec fn one_or_more_spec<T: Parse>(pre: StreamState) -> Outcome<Seq<T::V>> {
    match T::parse_spec(pre.trimmed()) {
        Outcome::Failed(failure) => Outcome::Failed(failure),
        Outcome::Parsed { value, rest } => {
            let more = many_spec::<T>(rest);
            Outcome::Parsed { value: seq![value] + more.0, rest: more.1 }
        },
    }
}

/// What is expected where a delimited block should begin.
pub open spec fn block_expected(open_delim: char, close_delim: char) -> Seq<char> {
    "`"@ + seq![open_delim] + " ... "@ + seq![close_delim] + "` block"@
}

/// Blanks are skipped. Then `open_delim` must follow, a punctuated sequence,
/// blanks, and `close_delim`. A failure inside the sequence is the failure
/// of the whole. A missing `close_delim` fails at the depth of the opening
/// delimiter: as the end of the input where nothing is left, and else at
/// the character found in its place.
pub open spec fn embraced_spec<T: Parse>(
    pre: StreamState,
    open_delim: char,
    close_delim: char,
    separator: char,
    zero_allowed: bool,
) -> Outcome<Seq<T::V>> {
    let at = pre.trimmed();
    if at.code.len() > 0 && at.code[0] == open_delim {
        match punctuated_spec::<T>(at.advance(1), separator, zero_allowed) {
            Outcome::Failed(failure) => Outcome::Failed(failure),
            Outcome::Parsed { value, rest } => {
                let end = rest.trimmed();
                if end.code.len() == 0 {
                    Outcome::Failed(
                        Failure::new(Span::eof(), at.depth, closing_expected(close_delim)),
                    )
                } else if end.code[0] != close_delim {
                    Outcome::Failed(
                        Failure::new(
                            Span::spanning(end.cursor, 1),
                            at.depth,
                            closing_expected(close_delim),
                        ),
                    )
                } else {
                    Outcome::Parsed { value, rest: end.advance(1) }
                }
            },
        }
    } else {
        Outcome::Failed(
            Failure::new(
                Span::spanning(at.cursor, 1),
                at.depth,
                block_expected(open_delim, close_delim),
            ),
        )
    }
}

/// After `=` a single value; without `=` a punctuated sequence between `{`
/// and `}`.
pub open spec fn figures_or_single_spec<T: Parse>(
    pre: StreamState,
    separator: char,
    zero_allowed: bool,
) -> Outcome<Seq<T::V>> {
    match punct_spec(pre, "="@) {
        Outcome::Parsed { rest: single, .. } => match T::parse_spec(single) {
            Outcome::Failed(failure) => Outcome::Failed(failure),
            Outcome::Parsed { value, rest } => Outcome::Parsed { value: seq![value], rest },
        },
        Outcome::Failed(_) => embraced_spec::<T>(pre, '{', '}', separator, zero_allowed),
    }
}

/// A single value after `=`, or a block in `{` and `}`, takes at least one
/// character.
pub proof fn lemma_figures_or_single<T: Parse>(
    pre: StreamState,
    separator: char,
    zero_allowed: bool,
)
    requires
        pre.wf(),
    ensures
        figures_or_single_spec::<T>(pre, separator, zero_allowed).consumes_from(pre),
{
    lemma_punct_consumes(pre, "="@);
    if let Outcome::Parsed { rest: single, .. } = punct_spec(pre, "="@) {
        T::lemma_parse_spec(single);
    }
    lemma_embraced::<T>(pre, '{', '}', separator, zero_allowed);
}

/// Reading values one after the other only moves forward.
pub proof fn lemma_many<T: Parse>(pre: StreamState)
    requires
        pre.wf(),
    ensures
        many_spec::<T>(pre).1.wf(),
        pre.precedes(many_spec::<T>(pre).1),
    decreases pre.code.len(),
{
    T::lemma_parse_spec(pre);
    if let Outcome::Parsed { rest, .. } = T::parse_spec(pre) {
        if rest.code.len() < pre.code.len() {
            lemma_many::<T>(rest);
        }
    }
}

/// Reading one value or more, or as many as there are, only moves forward.
pub proof fn lemma_repeated<T: Parse>(pre: StreamState)
    requires
        pre.wf(),
    ensures
        one_or_more_spec::<T>(pre).sound_from(pre),
        parse_until_error_spec::<T>(pre).sound_from(pre),
{
    pre.lemma_trimmed();
    lemma_many::<T>(pre.trimmed());
    T::lemma_parse_spec(pre.trimmed());
    if let Outcome::Parsed { rest, .. } = T::parse_spec(pre.trimmed()) {
        lemma_many::<T>(rest);
    }
}

/// A delimited block that is read takes its two delimiters at least.
pub proof fn lemma_embraced<T: Parse>(
    pre: StreamState,
    open_delim: char,
    close_delim: char,
    separator: char,
    zero_allowed: bool,
)
    requires
        pre.wf(),
    ensures
        embraced_spec::<T>(pre, open_delim, close_delim, separator, zero_allowed) matches Outcome::Parsed {
            rest,
            ..
        } ==> rest.wf() && pre.precedes(rest) && rest.code.len() < pre.code.len(),
{
    pre.lemma_trimmed();
    let at = pre.trimmed();
    if at.code.len() > 0 {
        at.lemma_advance(1);
        crate::parse::punctuated::lemma_punctuated::<T>(at.advance(1), separator, zero_allowed);
        if let Outcome::Parsed { rest, .. } = punctuated_spec::<T>(
            at.advance(1),
            separator,
            zero_allowed,
        ) {
            rest.lemma_trimmed();
            if rest.trimmed().code.len() > 0 {
                rest.trimmed().lemma_advance(1);
            }
        }
    }
}

/// Reads values into `values` for as long as one can be read, each on a
/// copy of the stream that becomes the stream if the value could be read.
fn collect<T: Parse>(stream: &mut ParseStream<'_>, values: &mut Vec<T>)
    requires
        old(stream).wf(),
        always_consumes::<T>(),
    ensures
        final(stream).wf(),
        old(stream)@.precedes(final(stream)@),
        final(values).deep_view() == old(values).deep_view() + many_spec::<T>(old(stream)@).0,
        final(stream)@ == many_spec::<T>(old(stream)@).1,
{
    loop
        invariant_except_break
            old(values).deep_view() + many_spec::<T>(old(stream)@).0 == values.deep_view()
                + many_spec::<T>(stream@).0,
            many_spec::<T>(old(stream)@).1 == many_spec::<T>(stream@).1,
        invariant
            stream.wf(),
            always_consumes::<T>(),
            old(stream)@.precedes(stream@),
        ensures
            values.deep_view() == old(values).deep_view() + many_spec::<T>(old(stream)@).0,
            stream@ == many_spec::<T>(old(stream)@).1,
        decreases stream@.code.len(),
    {
        let mut fork = *stream;
        match T::parse(&mut fork) {
            Ok(value) => {
                *stream = fork;
                values.push(value);
            },
            Err(_) => {
                break ;
            },
        }
    }
}

impl<'a> ParseStream<'a> {
    /// Reads one value of `T`, and then as many more as can be read.
    pub fn one_or_more<T: Parse>(&mut self) -> (r: Result<Vec<T>, ParseStreamError>)
        requires
            old(self).wf(),
            always_consumes::<T>(),
        ensures
            fulfils(one_or_more_spec::<T>(old(self)@), r, final(self)@),
            final(self).wf(),
            old(self)@.precedes(final(self)@),
            r is Err ==> *final(self) == *old(self),
            r matches Ok(values) ==> values@.len() > 0,
    {
        let mut fork = *self;
        fork.trim();
        let mut values: Vec<T> = Vec::new();
        match T::parse(&mut fork) {
            Ok(value) => {
                values.push(value);
            },
            Err(error) => {
                return Err(error);
            },
        }
        assert(values.deep_view() =~= seq![values@[0].deep_view()]);
        collect(&mut fork, &mut values);
        assert(values.deep_view().len() == values@.len());
        *self = fork;
        Ok(values)
    }

    /// Reads as many values of `T` as can be read; there may be none.
    pub fn parse_until_error<T: Parse>(&mut self) -> (r: Result<Vec<T>, ParseStreamError>)
        requires
            old(self).wf(),
            always_consumes::<T>(),
        ensures
            fulfils(parse_until_error_spec::<T>(old(self)@), r, final(self)@),
            final(self).wf(),
            old(self)@.precedes(final(self)@),
            r is Ok,
    {
        self.trim();
        let mut values: Vec<T> = Vec::new();
        collect(self, &mut values);
        Ok(values)
    }

    /// Reads a punctuated sequence of `T` that stands between `open_delim`
    /// and `close_delim`.
    pub fn embraced<T: Parse>(
        &mut self,
        open_delim: char,
        close_delim: char,
        separator: char,
        zero_allowed: bool,
    ) -> (r: Result<Punctuated<T>, ParseStreamError>)
        requires
            old(self).wf(),
        ensures
            fulfils(
                embraced_spec::<T>(old(self)@, open_delim, close_delim, separator, zero_allowed), r, final(self)@),
            final(self).wf(),
            old(self)@.precedes(final(self)@),
            r is Err ==> *final(self) == *old(self),
    {
        let mut fork = *self;
        fork.trim();
        if fork.is_empty() || fork.code.get_char(0) != open_delim {
            assert("`"@ + (seq![open_delim] + " ... "@ + seq![close_delim]) + "` block"@
                =~= block_expected(open_delim, close_delim));
            return Err(
                ParseStreamError::new(
                    Span::with_extra_column(fork.cursor, 1),
                    fork.depth,
                    join3(
                        "`",
                        join3(
                            char_text(open_delim).as_str(),
                            " ... ",
                            char_text(close_delim).as_str(),
                        ).as_str(),
                        "` block",
                    ),
                ),
            );
        }
        let depth = fork.depth;
        fork.offset_by(1);
        let punctuated = match Punctuated::<T>::parse(&mut fork, separator, zero_allowed) {
            Ok(punctuated) => punctuated,
            Err(error) => {
                return Err(error);
            },
        };
        fork.trim();
        if fork.is_empty() {
            Err(
                ParseStreamError::new(
                    Span::eof(),
                    depth,
                    join3(
                        "the second closing delimiter - `",
                        char_text(close_delim).as_str(),
                        "`",
                    ),
                ),
            )
        } else if fork.code.get_char(0) != close_delim {
            Err(
                ParseStreamError::new(
                    Span::with_extra_column(fork.cursor, 1),
                    depth,
                    join3(
                        "the second closing delimiter - `",
                        char_text(close_delim).as_str(),
                        "`",
                    ),
                ),
            )
        } else {
            fork.offset_by(1);
            *self = fork;
            Ok(punctuated)
        }
    }

    /// Reads a punctuated sequence of `T` that stands between `{` and `}`.
    pub fn embraced_in_figures<T: Parse>(&mut self, separator: char, zero_allowed: bool) -> (r: Result<
        Punctuated<T>,
        ParseStreamError,
    >)
        requires
            old(self).wf(),
        ensures
            fulfils(
                embraced_spec::<T>(old(self)@, '{', '}', separator, zero_allowed), r, final(self)@),
            final(self).wf(),
            old(self)@.precedes(final(self)@),
            r is Err ==> *final(self) == *old(self),
    {
        self.embraced::<T>('{', '}', separator, zero_allowed)
    }

    /// Reads a single `T` after `=`, or else a punctuated sequence of `T`
    /// that stands between `{` and `}`.
    pub fn embraced_in_figures_or_single<T: Parse>(
        &mut self,
        separator: char,
        zero_allowed: bool,
    ) -> (r: Result<Punctuated<T>, ParseStreamError>)
        requires
            old(self).wf(),
        ensures
            fulfils(
                figures_or_single_spec::<T>(old(self)@, separator, zero_allowed), r, final(self)@),
            final(self).wf(),
            old(self)@.precedes(final(self)@),
            r is Err ==> *final(self) == *old(self),
    {
        let mut fork = *self;
        if fork.punct("=").is_ok() {
            let value = T::parse(&mut fork)?;
            let mut values: Vec<T> = Vec::new();
            values.push(value);
            assert(values.deep_view() =~= seq![values@[0].deep_view()]);
            *self = fork;
            return Ok(Punctuated(values));
        }
        self.embraced_in_figures::<T>(separator, zero_allowed)
    }
}

} // verus!
