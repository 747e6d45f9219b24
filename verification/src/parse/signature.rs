//! What a function takes and gives: `(x: int, y: int) -> int`.

use crate::parse::outcome::{Failure, Outcome, Parse, ParseStreamError};
use crate::parse::punctuated::Punctuated;
use crate::parse::sequences::embraced_spec;
use crate::parse::stream::{ParseStream, StreamState};
use crate::parse::tokens::punct_spec;
use crate::parse::ty::{Type, TypeModel};
use crate::parse::typed_variable::{TypedVariables, TypedVariablesModel};
use crate::parse::x_times::{XTimes, XTimesModel};
use crate::span::Span;
use vstd::prelude::*;
use vstd::string::*;

verus! {

broadcast use {
    crate::parse::stream::lemma_precedes_chain,
    crate::parse::stream::lemma_precedes_self,
};

/// One entry of a parameter list.
#[derive(Clone, Debug)]
pub enum Arg {
    /// Names with their type: `x: T`, or `x y: T`.
    Named(TypedVariables),
    /// A type alone, perhaps counted: `T`, or `T x 3`.
    Unnamed(XTimes<Type, true>),
}

/// An [`Arg`] as a mathematical value.
pub ghost enum ArgModel {
    Named(TypedVariablesModel),
    Unnamed(XTimesModel<TypeModel>),
}

impl DeepView for Arg {
    type V = ArgModel;

    open spec fn deep_view(&self) -> ArgModel {
        match self {
            Arg::Named(named) => ArgModel::Named(named.deep_view()),
            Arg::Unnamed(unnamed) => ArgModel::Unnamed(unnamed.deep_view()),
        }
    }
}

/// What is expected where neither form of a parameter can be read.
pub open spec fn arg_expected() -> Seq<char> {
    "either named(x: T or x y <...>: T) or unnamed(T or T x N) parameters"@
}

impl Parse for Arg {
    /// Named parameters if they can be read, else an unnamed one. Where
    /// neither can, the failure points at the first character that is not
    /// blank.
    open spec fn parse_spec(pre: StreamState) -> Outcome<ArgModel> {
        match TypedVariables::parse_spec(pre) {
            Outcome::Parsed { value, rest } => Outcome::Parsed {
                value: ArgModel::Named(value),
                rest,
            },
            Outcome::Failed(_) => match XTimes::<Type, true>::parse_spec(pre) {
                Outcome::Parsed { value, rest } => Outcome::Parsed {
                    value: ArgModel::Unnamed(value),
                    rest,
                },
                Outcome::Failed(_) => Outcome::Failed(
                    Failure::new(
                        Span::spanning(pre.trimmed().cursor, 1),
                        pre.trimmed().depth,
                        arg_expected(),
                    ),
                ),
            },
        }
    }

    proof fn lemma_parse_spec(pre: StreamState) {
        TypedVariables::lemma_parse_spec(pre);
        XTimes::<Type, true>::lemma_parse_spec(pre);
    }

    fn parse(stream: &mut ParseStream<'_>) -> (r: Result<Self, ParseStreamError>) {
        if let Ok(named) = TypedVariables::parse(stream) {
            return Ok(Self::Named(named));
        }
        if let Ok(unnamed) = XTimes::<Type, true>::parse(stream) {
            return Ok(Self::Unnamed(unnamed));
        }
        let mut fork = *stream;
        fork.trim();
        Err(
            ParseStreamError::new(
                Span::with_extra_column(fork.cursor, 1),
                fork.depth,
                String::from_str(
                    "either named(x: T or x y <...>: T) or unnamed(T or T x N) parameters",
                ),
            ),
        )
    }
}

/// A parameter list, and the type of the result if one is named.
#[derive(Clone, Debug)]
pub struct Signature {
    pub args: Punctuated<Arg>,
    pub return_ty: Option<Type>,
}

/// A [`Signature`] as a mathematical value.
pub ghost struct SignatureModel {
    pub args: Seq<ArgModel>,
    pub return_ty: Option<TypeModel>,
}

impl DeepView for Signature {
    type V = SignatureModel;

    open spec fn deep_view(&self) -> SignatureModel {
        SignatureModel { args: self.args.deep_view(), return_ty: self.return_ty.deep_view() }
    }
}

/// A signature that is read takes at least its two brackets.
pub proof fn lemma_signature_consumes(pre: StreamState)
    requires
        pre.wf(),
    ensures
        Signature::parse_spec(pre) matches Outcome::Parsed { rest, .. } ==> rest.wf()
            && pre.precedes(rest) && rest.code.len() < pre.code.len(),
{
    crate::parse::sequences::lemma_embraced::<Arg>(pre, '(', ')', ',', true);
    if let Outcome::Parsed { rest: closed, .. } = embraced_spec::<Arg>(pre, '(', ')', ',', true) {
        crate::parse::tokens::lemma_punct_consumes(closed, "->"@);
        if let Outcome::Parsed { rest: arrow, .. } = punct_spec(closed, "->"@) {
            crate::parse::ty::lemma_type_consumes(arrow);
        }
    }
}

impl Parse for Signature {
    /// Parameters between `(` and `)`, with `,` between them; there may be
    /// none. Then, after `->`, the type of the result, which is owed once
    /// `->` has been read.
    open spec fn parse_spec(pre: StreamState) -> Outcome<SignatureModel> {
        match embraced_spec::<Arg>(pre, '(', ')', ',', true) {
            Outcome::Failed(failure) => Outcome::Failed(failure),
            Outcome::Parsed { value: args, rest: closed } => match punct_spec(closed, "->"@) {
                Outcome::Failed(_) => Outcome::Parsed {
                    value: SignatureModel { args, return_ty: None },
                    rest: closed,
                },
                Outcome::Parsed { rest: arrow, .. } => match Type::parse_spec(arrow) {
                    Outcome::Failed(failure) => Outcome::Failed(failure),
                    Outcome::Parsed { value: ty, rest } => Outcome::Parsed {
                        value: SignatureModel { args, return_ty: Some(ty) },
                        rest,
                    },
                },
            },
        }
    }

    proof fn lemma_parse_spec(pre: StreamState) {
        lemma_signature_consumes(pre);
    }

    fn parse(stream: &mut ParseStream<'_>) -> (r: Result<Self, ParseStreamError>) {
        let mut fork = *stream;
        let args = fork.embraced::<Arg>('(', ')', ',', true)?;
        let return_ty = if fork.punct("->").is_ok() {
            Some(Type::parse(&mut fork)?)
        } else {
            None
        };
        *stream = fork;
        Ok(Self { args, return_ty })
    }
}

} // verus!
