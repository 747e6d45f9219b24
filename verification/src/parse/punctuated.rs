//! Sequences of values with a separator between them.

use crate::parse::outcome::{fulfils, Outcome, Parse, ParseStreamError};
use crate::parse::stream::{ParseStream, StreamState};
use crate::parse::tokens::{lemma_punct_consumes, punct_spec};
use crate::text::char_text;
use vstd::prelude::*;
use vstd::string::*;

verus! {

broadcast use {
    crate::parse::stream::lemma_precedes_chain,
    crate::parse::stream::lemma_precedes_self,
};

/// Values that stood in the text with a separator between each two of them,
/// as in `"John", "Keit", "Arkady"`.
#[derive(Clone, Debug)]
pub struct Punctuated<T>(pub Vec<T>);

impl<T: DeepView> DeepView for Punctuated<T> {
    type V = Seq<T::V>;

    open spec fn deep_view(&self) -> Seq<T::V> {
        self.0.deep_view()
    }
}

/// What an empty sequence says it expected where one value at least is owed.
pub open spec fn at_least_one(expected: Seq<char>) -> Seq<char> {
    "at least one "@ + expected
}

/// What follows a value of a sequence: as long as the separator and another
/// value can be read, they are. A separator that no value follows is read
/// too, and ends the sequence.
pub open spec fn punctuated_more<T: Parse>(after: StreamState, separator: char) -> (
    Seq<T::V>,
    StreamState,
)
    decreases after.code.len(),
    when after.wf()
{
    match punct_spec(after, seq![separator]) {
        Outcome::Failed(_) => (Seq::empty(), after),
        Outcome::Parsed { rest: at, .. } => match T::parse_spec(at) {
            Outcome::Failed(_) => (Seq::empty(), at),
            Outcome::Parsed { value, rest } => {
                proof {
                    lemma_punct_consumes(after, seq![separator]);
                    T::lemma_parse_spec(at);
                }
                let more = punctuated_more::<T>(rest, separator);
                (seq![value] + more.0, more.1)
            },
        },
    }
}

/// What follows a value of a sequence only moves forward.
pub proof fn lemma_punctuated_more<T: Parse>(after: StreamState, separator: char)
    requires
        after.wf(),
    ensures
        punctuated_more::<T>(after, separator).1.wf(),
        after.precedes(punctuated_more::<T>(after, separator).1),
    decreases after.code.len(),
{
    lemma_punct_consumes(after, seq![separator]);
    if let Outcome::Parsed { rest: at, .. } = punct_spec(after, seq![separator]) {
        T::lemma_parse_spec(at);
        if let Outcome::Parsed { rest, .. } = T::parse_spec(at) {
            lemma_punctuated_more::<T>(rest, separator);
        }
    }
}

/// Reading a punctuated sequence only moves forward.
pub proof fn lemma_punctuated<T: Parse>(pre: StreamState, separator: char, zero_allowed: bool)
    requires
        pre.wf(),
    ensures
        punctuated_spec::<T>(pre, separator, zero_allowed).sound_from(pre),
{
    T::lemma_parse_spec(pre);
    if let Outcome::Parsed { rest, .. } = T::parse_spec(pre) {
        lemma_punctuated_more::<T>(rest, separator);
    }
}

/// A sequence of values with `separator` between them. Where not even one
/// value can be read, the sequence is empty if `zero_allowed`, and else the
/// failure of that value, said to have expected at least one of it.
pub open spec fn punctuated_spec<T: Parse>(
    pre: StreamState,
    separator: char,
    zero_allowed: bool,
) -> Outcome<Seq<T::V>> {
    match T::parse_spec(pre) {
        Outcome::Failed(failure) => if zero_allowed {
            Outcome::Parsed { value: Seq::empty(), rest: pre }
        } else {
            Outcome::Failed(failure.expecting(at_least_one(failure.expected)))
        },
        Outcome::Parsed { value, rest } => {
            let more = punctuated_more::<T>(rest, separator);
            Outcome::Parsed { value: seq![value] + more.0, rest: more.1 }
        },
    }
}

impl<T: Parse> Punctuated<T> {
    /// Reads values of `T` with `separator` between them; see
    /// [`punctuated_spec`]. Every value is tried on a copy of the stream,
    /// which becomes the stream only if the value could be read.
    pub fn parse(stream: &mut ParseStream<'_>, separator: char, zero_allowed: bool) -> (r: Result<
        Self,
        ParseStreamError,
    >)
        requires
            old(stream).wf(),
        ensures
            fulfils(
                punctuated_spec::<T>(old(stream)@, separator, zero_allowed), r, final(stream)@),
            final(stream).wf(),
            old(stream)@.precedes(final(stream)@),
            r is Err ==> *final(stream) == *old(stream),
            r matches Ok(values) ==> (values.0@.len() == 0 ==> zero_allowed),
    {
        let mut values: Vec<T> = Vec::new();
        let mut fork = *stream;
        match T::parse(&mut fork) {
            Ok(value) => {
                *stream = fork;
                values.push(value);
            },
            Err(error) => {
                if zero_allowed {
                    assert(values.deep_view() =~= Seq::<T::V>::empty());
                    return Ok(Punctuated(values));
                }
                let expected = String::from_str("at least one ").concat(error.expected.as_str());
                return Err(error.with_custom_expected(expected));
            },
        }
        let text = char_text(separator);
        let ghost first = values.deep_view();
        let ghost after = stream@;
        assert(first =~= seq![values@[0].deep_view()]);
        loop
            invariant_except_break
                first + punctuated_more::<T>(after, separator).0 == values.deep_view()
                    + punctuated_more::<T>(stream@, separator).0,
                punctuated_more::<T>(after, separator).1 == punctuated_more::<T>(
                    stream@,
                    separator,
                ).1,
            invariant
                stream.wf(),
                old(stream)@.precedes(stream@),
                values@.len() > 0,
                text@ == seq![separator],
            ensures
                stream.wf(),
                old(stream)@.precedes(stream@),
                values@.len() > 0,
                first + punctuated_more::<T>(after, separator).0 == values.deep_view(),
                punctuated_more::<T>(after, separator).1 == stream@,
            decreases stream@.code.len(),
        {
            let ghost before = stream@;
            proof {
                lemma_punct_consumes(before, seq![separator]);
            }
            if stream.punct(text.as_str()).is_err() {
                break ;
            }
            let mut fork = *stream;
            match T::parse(&mut fork) {
                Ok(value) => {
                    *stream = fork;
                    values.push(value);
                },
                Err(_) => {
                    break ;
                },
            }
        }
        Ok(Punctuated(values))
    }
}

} // verus!
