//! Names with the type that they share, as in `x y: T`.

use crate::parse::outcome::{Outcome, Parse, ParseStreamError};
use crate::parse::sequences::{always_consumes, one_or_more_spec};
use crate::parse::span::{Ident, IdentModel};
use crate::parse::stream::{ParseStream, StreamState};
use crate::parse::tokens::punct_spec;
use crate::parse::ty::{Type, TypeModel};
use crate::span::Span;
use vstd::prelude::*;
use vstd::string::*;

verus! {

broadcast use {
    crate::parse::stream::lemma_precedes_chain,
    crate::parse::stream::lemma_precedes_self,
};

/// One name or several, and their type: `variable: SomeType`, or `x y: T`
/// where both `x` and `y` have the type `T`.
#[derive(Clone, Debug)]
pub struct TypedVariables {
    pub names: Vec<Ident>,
    pub ty: Type,
}

/// [`TypedVariables`] as a mathematical value.
pub ghost struct TypedVariablesModel {
    pub names: Seq<IdentModel>,
    pub ty: TypeModel,
}

impl DeepView for TypedVariables {
    type V = TypedVariablesModel;

    open spec fn deep_view(&self) -> TypedVariablesModel {
        TypedVariablesModel { names: self.names.deep_view(), ty: self.ty.deep_view() }
    }
}

impl TypedVariablesModel {
    /// The range from the first name to the end of the type; without a
    /// name, the range of the type.
    pub open spec fn span(self) -> Span {
        if self.names.len() > 0 {
            Span { start: self.names[0].start, end: self.ty.span.end }
        } else {
            self.ty.span
        }
    }
}

/// A name that is read takes at least its first letter.
pub proof fn lemma_ident_consumes()
    ensures
        always_consumes::<Ident>(),
{
    assert forall|pre: StreamState| pre.wf() implies (#[trigger] Ident::parse_spec(
        pre,
    ) matches Outcome::Parsed { rest, .. } ==> rest.code.len() < pre.code.len()) by {
        crate::parse::span::lemma_ident_sound(pre);
    }
}

impl TypedVariables {
    /// The range from the first name to the end of the type; without a
    /// name, the range of the type.
    pub fn span(&self) -> (r: Span)
        ensures
            r == self.deep_view().span(),
    {
        if self.names.len() > 0 {
            Span { start: self.names[0].start, end: self.ty.span.end }
        } else {
            self.ty.span
        }
    }
}

/// Typed names that are read take at least one character.
pub proof fn lemma_typed_variables_consume(pre: StreamState)
    requires
        pre.wf(),
    ensures
        TypedVariables::parse_spec(pre) matches Outcome::Parsed { value, rest } ==> rest.wf()
            && pre.precedes(rest) && rest.code.len() < pre.code.len() && value.names.len() > 0,
{
    crate::parse::sequences::lemma_repeated::<Ident>(pre);
    if let Outcome::Parsed { rest: named, .. } = one_or_more_spec::<Ident>(pre) {
        crate::parse::tokens::lemma_punct_consumes(named, ":"@);
        if let Outcome::Parsed { rest: typed, .. } = punct_spec(named, ":"@) {
            crate::parse::ty::lemma_type_consumes(typed);
        }
    }
}

impl Parse for TypedVariables {
    /// One name or more, then `:`, then the type.
    open spec fn parse_spec(pre: StreamState) -> Outcome<TypedVariablesModel> {
        match one_or_more_spec::<Ident>(pre) {
            Outcome::Failed(failure) => Outcome::Failed(failure),
            Outcome::Parsed { value: names, rest: named } => match punct_spec(named, ":"@) {
                Outcome::Failed(failure) => Outcome::Failed(failure),
                Outcome::Parsed { rest: typed, .. } => match Type::parse_spec(typed) {
                    Outcome::Failed(failure) => Outcome::Failed(failure),
                    Outcome::Parsed { value: ty, rest } => Outcome::Parsed {
                        value: TypedVariablesModel { names, ty },
                        rest,
                    },
                },
            },
        }
    }

    proof fn lemma_parse_spec(pre: StreamState) {
        lemma_typed_variables_consume(pre);
    }

    fn parse(stream: &mut ParseStream<'_>) -> (r: Result<Self, ParseStreamError>)
        ensures
            r matches Ok(variables) ==> variables.names@.len() > 0,
    {
        let mut fork = *stream;
        proof {
            lemma_ident_consumes();
        }
        let names = fork.one_or_more::<Ident>()?;
        fork.punct(":")?;
        let ty = Type::parse(&mut fork)?;
        *stream = fork;
        Ok(Self { names, ty })
    }
}

} // verus!
