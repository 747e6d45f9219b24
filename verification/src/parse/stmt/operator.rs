//! The operator statement: `operator prefix "-" (int) -> int { }`.

use crate::parse::alternation::{alternation_spec, first_match, lemma_alternation, Alternatives};
use crate::parse::outcome::{Outcome, Parse, ParseStreamError};
use crate::parse::stmt::macros::{
    lemma_literal_macro_consumes, LiteralMacroModel, LiteralMacroStmtBody,
};
use crate::parse::stream::{ParseStream, StreamState};
use crate::parse::tokens::{keyword_spec, lemma_keyword_consumes};
use vstd::prelude::*;

verus! {

broadcast use {
    crate::parse::stream::lemma_precedes_chain,
    crate::parse::stream::lemma_precedes_self,
};

/// The body of an operator statement. An operator on literals is written as
/// the body of a macro for literals is.
#[derive(Debug)]
pub enum OperatorStmtBody {
    Literal(Box<LiteralMacroStmtBody>),
}

/// An [`OperatorStmtBody`] as a mathematical value.
pub ghost enum OperatorBodyModel {
    Literal(LiteralMacroModel),
}

impl DeepView for OperatorStmtBody {
    type V = OperatorBodyModel;

    open spec fn deep_view(&self) -> OperatorBodyModel {
        match self {
            OperatorStmtBody::Literal(body) => OperatorBodyModel::Literal(body.deep_view()),
        }
    }
}

impl Alternatives for OperatorStmtBody {
    open spec fn count() -> nat {
        1
    }

    open spec fn variant_spec(index: nat, pre: StreamState) -> Outcome<OperatorBodyModel> {
        LiteralMacroStmtBody::parse_spec(pre).map(
            |body: LiteralMacroModel| OperatorBodyModel::Literal(body),
        )
    }

    proof fn lemma_variant_spec(index: nat, pre: StreamState) {
        lemma_literal_macro_consumes(pre);
    }

    fn variants() -> (n: usize) {
        1
    }

    fn variant(index: usize, stream: &mut ParseStream<'_>) -> (r: Result<Self, ParseStreamError>) {
        Ok(OperatorStmtBody::Literal(Box::new(LiteralMacroStmtBody::parse(stream)?)))
    }
}

impl Parse for OperatorStmtBody {
    open spec fn parse_spec(pre: StreamState) -> Outcome<OperatorBodyModel> {
        alternation_spec::<OperatorStmtBody>(pre)
    }

    proof fn lemma_parse_spec(pre: StreamState) {
        lemma_alternation::<OperatorStmtBody>(pre);
    }

    fn parse(stream: &mut ParseStream<'_>) -> (r: Result<Self, ParseStreamError>) {
        first_match::<OperatorStmtBody>(stream)
    }
}

/// An operator statement.
#[derive(Debug)]
pub struct OperatorStmt {
    pub body: OperatorStmtBody,
}

/// An [`OperatorStmt`] as a mathematical value.
pub ghost struct OperatorModel {
    pub body: OperatorBodyModel,
}

impl DeepView for OperatorStmt {
    type V = OperatorModel;

    open spec fn deep_view(&self) -> OperatorModel {
        OperatorModel { body: self.body.deep_view() }
    }
}

/// An operator statement that is read takes at least its keyword.
pub proof fn lemma_operator_consumes(pre: StreamState)
    requires
        pre.wf(),
    ensures
        OperatorStmt::parse_spec(pre).consumes_from(pre),
{
    lemma_keyword_consumes(pre, "operator"@);
    if let Outcome::Parsed { rest: keyed, .. } = keyword_spec(pre, "operator"@) {
        lemma_alternation::<OperatorStmtBody>(keyed);
    }
}

impl Parse for OperatorStmt {
    /// The keyword `operator` and the body.
    open spec fn parse_spec(pre: StreamState) -> Outcome<OperatorModel> {
        match keyword_spec(pre, "operator"@) {
            Outcome::Failed(failure) => Outcome::Failed(failure),
            Outcome::Parsed { rest: keyed, .. } => OperatorStmtBody::parse_spec(keyed).map(
                |body: OperatorBodyModel| OperatorModel { body },
            ),
        }
    }

    proof fn lemma_parse_spec(pre: StreamState) {
        lemma_operator_consumes(pre);
    }

    fn parse(stream: &mut ParseStream<'_>) -> (r: Result<Self, ParseStreamError>) {
        let mut fork = *stream;
        fork.keyword("operator")?;
        let body = OperatorStmtBody::parse(&mut fork)?;
        *stream = fork;
        Ok(Self { body })
    }
}

} // verus!
