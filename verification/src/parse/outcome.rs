//! What a parser reports when it fails, and the mathematical outcome that
//! a parser's contract is stated against.

use crate::parse::stream::{ParseStream, ParsingDepth, StreamState};
use crate::span::Span;
use vstd::prelude::*;
use vstd::string::*;

verus! {

broadcast use {
    crate::parse::stream::lemma_precedes_chain,
    crate::parse::stream::lemma_precedes_self,
};

/// A failure as a mathematical value.
pub ghost struct Failure {
    /// Where the text did not fit.
    pub span: Span,
    /// The depth that the failing parser had reached.
    pub depth: usize,
    /// What should have stood there.
    pub expected: Seq<char>,
    /// Hints for the reader, in order.
    pub help: Seq<Seq<char>>,
}

impl Failure {
    /// A failure without hints.
    pub open spec fn new(span: Span, depth: usize, expected: Seq<char>) -> Failure {
        Failure { span, depth, expected, help: Seq::empty() }
    }

    /// The same failure, said to have expected something else.
    pub open spec fn expecting(self, expected: Seq<char>) -> Failure {
        Failure { span: self.span, depth: self.depth, expected, help: self.help }
    }
}

/// Why a parser gave up.
#[derive(Clone, Debug)]
pub struct ParseStreamError {
    /// The place in the text that did not fit.
    pub span: Span,
    /// How many characters had been read when the parser gave up.
    pub parsing_depth: ParsingDepth,
    /// What was expected at that place.
    pub expected: String,
    /// Hints that may be of use to the reader.
    pub help: Vec<String>,
}

impl View for ParseStreamError {
    type V = Failure;

    open spec fn view(&self) -> Failure {
        Failure {
            span: self.span,
            depth: self.parsing_depth.0,
            expected: self.expected@,
            help: self.help.deep_view(),
        }
    }
}

impl ParseStreamError {
    /// A failure at `span` and `depth` that expected `expected`, without hints.
    pub fn new(span: Span, depth: ParsingDepth, expected: String) -> (r: Self)
        ensures
            r@ == Failure::new(span, depth.0, expected@),
    {
        let help: Vec<String> = Vec::new();
        assert(help.deep_view() =~= Seq::<Seq<char>>::empty());
        Self { span, parsing_depth: depth, expected, help }
    }

    /// The same failure, said to have expected `expected`.
    pub fn with_custom_expected(self, expected: String) -> (r: Self)
        ensures
            r@ == self@.expecting(expected@),
    {
        let mut this = self;
        this.expected = expected;
        this
    }
}

/// What parsing from a given state comes to: a value and the state after
/// it, or a failure.
pub ghost enum Outcome<M> {
    Parsed { value: M, rest: StreamState },
    Failed(Failure),
}

impl<M> Outcome<M> {
    /// The same outcome with the value, if there is one, taken through `f`.
    pub open spec fn map<N>(self, f: spec_fn(M) -> N) -> Outcome<N> {
        match self {
            Outcome::Parsed { value, rest } => Outcome::Parsed { value: f(value), rest },
            Outcome::Failed(failure) => Outcome::Failed(failure),
        }
    }

    /// Whether the parse went through and took at least one character of
    /// `from`, or failed.
    pub open spec fn consumes_from(self, from: StreamState) -> bool {
        self matches Outcome::Parsed { rest, .. } ==> rest.wf() && from.precedes(rest)
            && rest.code.len() < from.code.len()
    }

    /// `from` was well formed, and if the parse went through, the state that
    /// is left is well formed and comes after `from`.
    pub open spec fn sound_from(self, from: StreamState) -> bool {
        self matches Outcome::Parsed { rest, .. } ==> rest.wf() && from.precedes(rest)
    }
}

/// What a parser run has returned and left behind is what `outcome` says:
/// the value's model and the state after it, or the failure.
pub open spec fn fulfils<T: DeepView>(
    outcome: Outcome<T::V>,
    result: Result<T, ParseStreamError>,
    after: StreamState,
) -> bool {
    match result {
        Ok(value) => outcome == (Outcome::Parsed { value: value.deep_view(), rest: after }),
        Err(error) => outcome == Outcome::<T::V>::Failed(error@),
    }
}

/// A type whose values can be read from a stream.
///
/// `parse_spec` says, for every state of a stream, what reading a value
/// yields; `parse` does it. A parse that succeeds only moves the stream
/// forward, and one that fails leaves it as it was: a parser that has to
/// read before it knows reads on a copy of the stream.
pub trait Parse: Sized + DeepView {
    /// The value and the state after it, or the failure, that reading from
    /// `pre` comes to.
    spec fn parse_spec(pre: StreamState) -> Outcome<Self::V>;

    /// Reading only moves forward: the state that a parse leaves behind is
    /// well formed and comes after the state it began with.
    proof fn lemma_parse_spec(pre: StreamState)
        requires
            pre.wf(),
        ensures
            Self::parse_spec(pre).sound_from(pre),
    ;

    /// Reads one value from the head of the stream.
    fn parse(stream: &mut ParseStream<'_>) -> (r: Result<Self, ParseStreamError>)
        requires
            old(stream).wf(),
        ensures
            fulfils(Self::parse_spec(old(stream)@), r, final(stream)@),
            final(stream).wf(),
            old(stream)@.precedes(final(stream)@),
            r is Err ==> *final(stream) == *old(stream),
    ;
}

} // verus!
