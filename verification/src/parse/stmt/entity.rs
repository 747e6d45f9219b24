//! The entity statement: `entity Player = Health + Position;`.

use crate::parse::outcome::{Outcome, Parse, ParseStreamError};
use crate::parse::punctuated::{lemma_punctuated, punctuated_spec, Punctuated};
use crate::parse::span::{lemma_ident_sound, Ident, IdentModel};
use crate::parse::stream::{ParseStream, StreamState};
use crate::parse::tokens::{keyword_spec, lemma_keyword_consumes, lemma_punct_consumes, punct_spec};
use vstd::prelude::*;

verus! {

broadcast use {
    crate::parse::stream::lemma_precedes_chain,
    crate::parse::stream::lemma_precedes_self,
};

/// An entity and the components that it is made of.
#[derive(Clone, Debug)]
pub struct EntityStmt {
    pub name: Ident,
    pub components: Punctuated<Ident>,
}

/// An [`EntityStmt`] as a mathematical value.
pub ghost struct EntityModel {
    pub name: IdentModel,
    pub components: Seq<IdentModel>,
}

impl DeepView for EntityStmt {
    type V = EntityModel;

    open spec fn deep_view(&self) -> EntityModel {
        EntityModel { name: self.name.deep_view(), components: self.components.deep_view() }
    }
}

/// An entity statement that is read takes at least its keyword.
pub proof fn lemma_entity_consumes(pre: StreamState)
    requires
        pre.wf(),
    ensures
        EntityStmt::parse_spec(pre).consumes_from(pre),
{
    lemma_keyword_consumes(pre, "entity"@);
    if let Outcome::Parsed { rest: keyed, .. } = keyword_spec(pre, "entity"@) {
        lemma_ident_sound(keyed);
        if let Outcome::Parsed { rest: named, .. } = Ident::parse_spec(keyed) {
            lemma_punct_consumes(named, "="@);
            if let Outcome::Parsed { rest: equated, .. } = punct_spec(named, "="@) {
                lemma_punctuated::<Ident>(equated, '+', false);
                if let Outcome::Parsed { rest: listed, .. } = punctuated_spec::<Ident>(
                    equated,
                    '+',
                    false,
                ) {
                    lemma_punct_consumes(listed, ";"@);
                }
            }
        }
    }
}

impl Parse for EntityStmt {
    /// The keyword `entity`, the name, `=`, one component or more with `+`
    /// between them, and `;`.
    open spec fn parse_spec(pre: StreamState) -> Outcome<EntityModel> {
        match keyword_spec(pre, "entity"@) {
            Outcome::Failed(failure) => Outcome::Failed(failure),
            Outcome::Parsed { rest: keyed, .. } => match Ident::parse_spec(keyed) {
                Outcome::Failed(failure) => Outcome::Failed(failure),
                Outcome::Parsed { value: name, rest: named } => match punct_spec(named, "="@) {
                    Outcome::Failed(failure) => Outcome::Failed(failure),
                    Outcome::Parsed { rest: equated, .. } => match punctuated_spec::<Ident>(
                        equated,
                        '+',
                        false,
                    ) {
                        Outcome::Failed(failure) => Outcome::Failed(failure),
                        Outcome::Parsed { value: components, rest: listed } => match punct_spec(
                            listed,
                            ";"@,
                        ) {
                            Outcome::Failed(failure) => Outcome::Failed(failure),
                            Outcome::Parsed { rest, .. } => Outcome::Parsed {
                                value: EntityModel { name, components },
                                rest,
                            },
                        },
                    },
                },
            },
        }
    }

    proof fn lemma_parse_spec(pre: StreamState) {
        lemma_entity_consumes(pre);
    }

    fn parse(stream: &mut ParseStream<'_>) -> (r: Result<Self, ParseStreamError>) {
        let mut fork = *stream;
        fork.keyword("entity")?;
        let name = Ident::parse(&mut fork)?;
        fork.punct("=")?;
        let components = Punctuated::<Ident>::parse(&mut fork, '+', false)?;
        fork.punct(";")?;
        *stream = fork;
        Ok(Self { name, components })
    }
}

} // verus!
