//! The struct statement: `struct Vec2 { x y: float }`, or with a single
//! field `struct Meters = value: float`.

use crate::parse::outcome::{Outcome, Parse, ParseStreamError};
use crate::parse::punctuated::Punctuated;
use crate::parse::sequences::{figures_or_single_spec, lemma_figures_or_single};
use crate::parse::span::{lemma_ident_sound, Ident, IdentModel};
use crate::parse::stream::{ParseStream, StreamState};
use crate::parse::tokens::{keyword_spec, lemma_keyword_consumes};
use crate::parse::typed_variable::{TypedVariables, TypedVariablesModel};
use vstd::prelude::*;

verus! {

broadcast use {
    crate::parse::stream::lemma_precedes_chain,
    crate::parse::stream::lemma_precedes_self,
};

/// A struct: its name and its fields.
#[derive(Clone, Debug)]
pub struct StructStmt {
    pub name: Ident,
    pub fields: Punctuated<TypedVariables>,
}

/// A [`StructStmt`] as a mathematical value.
pub ghost struct StructModel {
    pub name: IdentModel,
    pub fields: Seq<TypedVariablesModel>,
}

impl DeepView for StructStmt {
    type V = StructModel;

    open spec fn deep_view(&self) -> StructModel {
        StructModel { name: self.name.deep_view(), fields: self.fields.deep_view() }
    }
}

/// A struct statement that is read takes at least its keyword.
pub proof fn lemma_struct_consumes(pre: StreamState)
    requires
        pre.wf(),
    ensures
        StructStmt::parse_spec(pre).consumes_from(pre),
{
    lemma_keyword_consumes(pre, "struct"@);
    if let Outcome::Parsed { rest: keyed, .. } = keyword_spec(pre, "struct"@) {
        lemma_ident_sound(keyed);
        if let Outcome::Parsed { rest: named, .. } = Ident::parse_spec(keyed) {
            lemma_figures_or_single::<TypedVariables>(named, ',', false);
        }
    }
}

impl Parse for StructStmt {
    /// The keyword `struct`, the name, and the fields: one after `=`, or one
    /// or more between `{` and `}` with `,` between them.
    open spec fn parse_spec(pre: StreamState) -> Outcome<StructModel> {
        match keyword_spec(pre, "struct"@) {
            Outcome::Failed(failure) => Outcome::Failed(failure),
            Outcome::Parsed { rest: keyed, .. } => match Ident::parse_spec(keyed) {
                Outcome::Failed(failure) => Outcome::Failed(failure),
                Outcome::Parsed { value: name, rest: named } => match figures_or_single_spec::<
                    TypedVariables,
                >(named, ',', false) {
                    Outcome::Failed(failure) => Outcome::Failed(failure),
                    Outcome::Parsed { value: fields, rest } => Outcome::Parsed {
                        value: StructModel { name, fields },
                        rest,
                    },
                },
            },
        }
    }

    proof fn lemma_parse_spec(pre: StreamState) {
        lemma_struct_consumes(pre);
    }

    fn parse(stream: &mut ParseStream<'_>) -> (r: Result<Self, ParseStreamError>) {
        let mut fork = *stream;
        fork.keyword("struct")?;
        let name = Ident::parse(&mut fork)?;
        let fields = fork.embraced_in_figures_or_single::<TypedVariables>(',', false)?;
        *stream = fork;
        Ok(Self { name, fields })
    }
}

} // verus!
