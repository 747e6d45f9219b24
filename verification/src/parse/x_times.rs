//! A value with a count of repetitions behind it, as in `int x 3`.

use crate::parse::outcome::{Failure, Outcome, Parse, ParseStreamError};
use crate::parse::stream::{ParseStream, StreamState};
use crate::parse::tokens::{
    keyword_spec, lemma_keyword_consumes, lemma_number_u8_consumes, number_u8_spec,
};
use crate::span::Span;
use vstd::prelude::*;
use vstd::string::*;

verus! {

broadcast use {
    crate::parse::stream::lemma_precedes_chain,
    crate::parse::stream::lemma_precedes_self,
};

/// A value and the number of times it is meant. With `IS_NO_X_ALLOWED` the
/// count may be left out, and is then 1.
#[derive(Clone, Debug)]
pub struct XTimes<T, const IS_NO_X_ALLOWED: bool> {
    pub it: T,
    pub times: u8,
}

/// An [`XTimes`] as a mathematical value.
pub ghost struct XTimesModel<M> {
    pub it: M,
    pub times: u8,
}

impl<T: DeepView, const IS_NO_X_ALLOWED: bool> DeepView for XTimes<T, IS_NO_X_ALLOWED> {
    type V = XTimesModel<T::V>;

    open spec fn deep_view(&self) -> XTimesModel<T::V> {
        XTimesModel { it: self.it.deep_view(), times: self.times }
    }
}

impl<T: Parse, const IS_NO_X_ALLOWED: bool> Parse for XTimes<T, IS_NO_X_ALLOWED> {
    /// A value of `T`; then the keyword `x` and a number, which is the
    /// count. After `x` the number is owed, and zero fails over the number's
    /// range as not being a `non-zero amount`. Without `x` the count is 1
    /// where that is allowed, and else the keyword's failure is the whole's.
    open spec fn parse_spec(pre: StreamState) -> Outcome<XTimesModel<T::V>> {
        match T::parse_spec(pre) {
            Outcome::Failed(failure) => Outcome::Failed(failure),
            Outcome::Parsed { value: it, rest: after } => match keyword_spec(after, "x"@) {
                Outcome::Failed(failure) => if IS_NO_X_ALLOWED {
                    Outcome::Parsed { value: XTimesModel { it, times: 1 }, rest: after }
                } else {
                    Outcome::Failed(failure)
                },
                Outcome::Parsed { rest: counted, .. } => match number_u8_spec(counted) {
                    Outcome::Failed(failure) => Outcome::Failed(failure),
                    Outcome::Parsed { value: times, rest } => if times == 0 {
                        Outcome::Failed(
                            Failure::new(
                                Span { start: counted.cursor, end: rest.cursor },
                                rest.depth,
                                "non-zero amount"@,
                            ),
                        )
                    } else {
                        Outcome::Parsed { value: XTimesModel { it, times }, rest }
                    },
                },
            },
        }
    }

    proof fn lemma_parse_spec(pre: StreamState) {
        T::lemma_parse_spec(pre);
        if let Outcome::Parsed { rest: after, .. } = T::parse_spec(pre) {
            lemma_keyword_consumes(after, "x"@);
            if let Outcome::Parsed { rest: counted, .. } = keyword_spec(after, "x"@) {
                lemma_number_u8_consumes(counted);
            }
        }
    }

    fn parse(stream: &mut ParseStream<'_>) -> (r: Result<Self, ParseStreamError>) {
        let mut fork = *stream;
        let it = match T::parse(&mut fork) {
            Ok(it) => it,
            Err(error) => {
                return Err(error);
            },
        };
        let times = match fork.keyword("x") {
            Ok(_) => {
                let start = fork.cursor;
                let result = match fork.number_u8() {
                    Ok(result) => result,
                    Err(error) => {
                        return Err(error);
                    },
                };
                if result == 0 {
                    return Err(
                        ParseStreamError::new(
                            Span { start, end: fork.cursor },
                            fork.depth,
                            String::from_str("non-zero amount"),
                        ),
                    );
                }
                result
            },
            Err(error) => if IS_NO_X_ALLOWED {
                1
            } else {
                return Err(error);
            },
        };
        *stream = fork;
        Ok(Self { it, times })
    }
}

} // verus!
