//! The function statement. A function is defined with a signature and a
//! body, `fn add(x: int, y: int) -> int { }`, or named by a literal,
//! `fn add = "add_impl"`.

use crate::parse::alternation::{
    alternation_spec, deepest, failures_upto, first_match, lemma_alternation,
    lemma_first_match_from, Alternatives,
};
use crate::parse::expr::{lemma_single_or_block, single_or_block_spec, Expr, ExprModel};
use crate::parse::outcome::{fulfils, Outcome, Parse, ParseStreamError};
use crate::parse::signature::{lemma_signature_consumes, Signature, SignatureModel};
use crate::parse::span::{lemma_ident_sound, DoubleQuotedModel, DoubleQuotedString, Ident, IdentModel};
use crate::parse::stream::{ParseStream, StreamState};
use crate::parse::tokens::{
    double_quoted_spec, first_token_from, keyword_spec, lemma_enclosed_consumes,
    lemma_first_token, lemma_keyword_consumes, lemma_punct_consumes, lemma_punct_tokens,
    punct_spec, punct_tokens,
};
use crate::span::Span;
use vstd::prelude::*;

verus! {

broadcast use {
    crate::parse::stream::lemma_precedes_chain,
    crate::parse::stream::lemma_precedes_self,
};

/// What stands behind the name of a function. The forms are tried in the
/// order in which they stand here.
#[derive(Debug)]
pub enum FnBody {
    /// What the function takes and gives, and the expression that it is:
    /// `(x: int) -> int { }`.
    Defined { sig: Signature, body: Expr },
    /// A literal that names the function: `= "add_impl"`.
    Literal(DoubleQuotedString),
}

/// A [`FnBody`] as a mathematical value.
pub ghost enum FnBodyModel {
    Defined { sig: SignatureModel, body: ExprModel },
    Literal(DoubleQuotedModel),
}

impl DeepView for FnBody {
    type V = FnBodyModel;

    open spec fn deep_view(&self) -> FnBodyModel {
        match self {
            FnBody::Defined { sig, body } => FnBodyModel::Defined {
                sig: sig.deep_view(),
                body: body.deep_view(),
            },
            FnBody::Literal(literal) => FnBodyModel::Literal(literal.deep_view()),
        }
    }
}

/// The signature, and the body: an expression after `=`, or a block.
pub open spec fn defined_spec(pre: StreamState) -> Outcome<FnBodyModel> {
    match Signature::parse_spec(pre) {
        Outcome::Failed(failure) => Outcome::Failed(failure),
        Outcome::Parsed { value: sig, rest: signed } => match single_or_block_spec(signed) {
            Outcome::Failed(failure) => Outcome::Failed(failure),
            Outcome::Parsed { value: body, rest } => Outcome::Parsed {
                value: FnBodyModel::Defined { sig, body },
                rest,
            },
        },
    }
}

/// `=` and a `"`-enclosed text.
pub open spec fn literal_spec(pre: StreamState) -> Outcome<FnBodyModel> {
    match punct_spec(pre, "="@) {
        Outcome::Failed(failure) => Outcome::Failed(failure),
        Outcome::Parsed { rest: equated, .. } => match double_quoted_spec(equated) {
            Outcome::Failed(failure) => Outcome::Failed(failure),
            Outcome::Parsed { value, rest } => Outcome::Parsed {
                value: FnBodyModel::Literal(value),
                rest,
            },
        },
    }
}

/// What stands behind the name of a function, where it can be read, takes
/// at least one character.
pub proof fn lemma_fn_body_consumes(pre: StreamState)
    requires
        pre.wf(),
    ensures
        defined_spec(pre).consumes_from(pre),
        literal_spec(pre).consumes_from(pre),
        FnBody::parse_spec(pre).consumes_from(pre),
{
    lemma_signature_consumes(pre);
    if let Outcome::Parsed { rest: signed, .. } = Signature::parse_spec(pre) {
        lemma_single_or_block(signed);
    }
    lemma_punct_consumes(pre, "="@);
    if let Outcome::Parsed { rest: equated, .. } = punct_spec(pre, "="@) {
        lemma_enclosed_consumes(equated, '"');
    }
    lemma_alternation::<FnBody>(pre);
}

/// Reads a signature and a body.
fn defined_form(stream: &mut ParseStream<'_>) -> (r: Result<FnBody, ParseStreamError>)
    requires
        old(stream).wf(),
    ensures
        fulfils(defined_spec(old(stream)@), r, final(stream)@),
        final(stream).wf(),
        old(stream)@.precedes(final(stream)@),
        r is Err ==> *final(stream) == *old(stream),
{
    let mut fork = *stream;
    let sig = Signature::parse(&mut fork)?;
    let body = Expr::single_or_block(&mut fork)?;
    *stream = fork;
    Ok(FnBody::Defined { sig, body })
}

/// Reads `=` and a literal.
fn literal_form(stream: &mut ParseStream<'_>) -> (r: Result<FnBody, ParseStreamError>)
    requires
        old(stream).wf(),
    ensures
        fulfils(literal_spec(old(stream)@), r, final(stream)@),
        final(stream).wf(),
        old(stream)@.precedes(final(stream)@),
        r is Err ==> *final(stream) == *old(stream),
{
    let mut fork = *stream;
    fork.punct("=")?;
    let literal = fork.double_quoted_string()?;
    *stream = fork;
    Ok(FnBody::Literal(literal))
}

impl Alternatives for FnBody {
    open spec fn count() -> nat {
        2
    }

    open spec fn variant_spec(index: nat, pre: StreamState) -> Outcome<FnBodyModel> {
        if index == 0 {
            defined_spec(pre)
        } else {
            literal_spec(pre)
        }
    }

    proof fn lemma_variant_spec(index: nat, pre: StreamState) {
        lemma_signature_consumes(pre);
        if let Outcome::Parsed { rest: signed, .. } = Signature::parse_spec(pre) {
            lemma_single_or_block(signed);
        }
        lemma_punct_consumes(pre, "="@);
        if let Outcome::Parsed { rest: equated, .. } = punct_spec(pre, "="@) {
            lemma_enclosed_consumes(equated, '"');
        }
    }

    fn variants() -> (n: usize) {
        2
    }

    fn variant(index: usize, stream: &mut ParseStream<'_>) -> (r: Result<Self, ParseStreamError>) {
        if index == 0 {
            defined_form(stream)
        } else {
            literal_form(stream)
        }
    }
}

impl Parse for FnBody {
    /// A signature with a body if that can be read, and else `=` with a
    /// literal. Where neither can, the failure that got further is
    /// reported, and of two that got equally far that of the literal.
    open spec fn parse_spec(pre: StreamState) -> Outcome<FnBodyModel> {
        alternation_spec::<FnBody>(pre)
    }

    proof fn lemma_parse_spec(pre: StreamState) {
        lemma_alternation::<FnBody>(pre);
    }

    fn parse(stream: &mut ParseStream<'_>) -> (r: Result<Self, ParseStreamError>) {
        first_match::<FnBody>(stream)
    }
}

/// A function: its name, and what stands behind it.
#[derive(Debug)]
pub struct FnStmt {
    pub name: Ident,
    pub body: FnBody,
}

/// A [`FnStmt`] as a mathematical value.
pub ghost struct FnModel {
    pub name: IdentModel,
    pub body: FnBodyModel,
}

impl DeepView for FnStmt {
    type V = FnModel;

    open spec fn deep_view(&self) -> FnModel {
        FnModel { name: self.name.deep_view(), body: self.body.deep_view() }
    }
}

/// A function statement that is read takes at least its keyword.
pub proof fn lemma_fn_consumes(pre: StreamState)
    requires
        pre.wf(),
    ensures
        FnStmt::parse_spec(pre).consumes_from(pre),
{
    lemma_keyword_consumes(pre, "fn"@);
    if let Outcome::Parsed { rest: keyed, .. } = keyword_spec(pre, "fn"@) {
        lemma_ident_sound(keyed);
        if let Outcome::Parsed { rest: named, .. } = Ident::parse_spec(keyed) {
            lemma_alternation::<FnBody>(named);
        }
    }
}

/// Where `=` stands behind the name and no literal can be read behind it,
/// the statement fails as the literal does. A literal that is not closed
/// fails at the end of the input, at the depth of that end.
pub proof fn lemma_fn_literal_failure(pre: StreamState)
    requires
        pre.wf(),
        keyword_spec(pre, "fn"@) is Parsed,
        Ident::parse_spec(keyword_spec(pre, "fn"@)->Parsed_rest) is Parsed,
        punct_spec(Ident::parse_spec(keyword_spec(pre, "fn"@)->Parsed_rest)->Parsed_rest, "="@) is Parsed,
        double_quoted_spec(
            punct_spec(
                Ident::parse_spec(keyword_spec(pre, "fn"@)->Parsed_rest)->Parsed_rest,
                "="@,
            )->Parsed_rest,
        ) is Failed,
    ensures
        FnStmt::parse_spec(pre) == Outcome::<FnModel>::Failed(
            double_quoted_spec(
                punct_spec(
                    Ident::parse_spec(keyword_spec(pre, "fn"@)->Parsed_rest)->Parsed_rest,
                    "="@,
                )->Parsed_rest,
            )->Failed_0,
        ),
        FnStmt::parse_spec(pre)->Failed_0.span == Span::eof() ==> FnStmt::parse_spec(
            pre,
        )->Failed_0.depth == pre.depth + pre.code.len(),
{
    let keyed = keyword_spec(pre, "fn"@)->Parsed_rest;
    let named = Ident::parse_spec(keyed)->Parsed_rest;
    let equated = punct_spec(named, "="@)->Parsed_rest;
    lemma_keyword_consumes(pre, "fn"@);
    lemma_ident_sound(keyed);
    lemma_punct_consumes(named, "="@);
    reveal_strlit("=");
    lemma_punct_tokens();
    named.lemma_trimmed();
    equated.lemma_trimmed();
    let at = named.trimmed();
    lemma_first_token(at.code, 0);
    let found = first_token_from(at.code, 0)->Some_0 as int;
    let token = punct_tokens()[found];
    assert(token == "="@);
    assert(token[0] == at.code.subrange(0, token.len() as int)[0]);
    assert(at.code[0] == '=');
    at.lemma_advance(1);
    let signature = Signature::parse_spec(named)->Failed_0;
    let literal = double_quoted_spec(equated)->Failed_0;
    assert(signature.depth == at.depth);
    assert(literal.depth >= equated.depth);
    lemma_first_match_from::<FnBody>(named, 0);
    let failures = failures_upto::<FnBody>(named, 2);
    assert(failures[0] == signature);
    assert(failures[1] == literal);
    assert(failures.drop_last() =~= seq![signature]);
    assert(deepest(failures.drop_last()) == signature);
    assert(deepest(failures) == literal);
}

impl Parse for FnStmt {
    /// The keyword `fn`, the name, and what stands behind it: a signature
    /// with a body, or `=` with a literal.
    open spec fn parse_spec(pre: StreamState) -> Outcome<FnModel> {
        match keyword_spec(pre, "fn"@) {
            Outcome::Failed(failure) => Outcome::Failed(failure),
            Outcome::Parsed { rest: keyed, .. } => match Ident::parse_spec(keyed) {
                Outcome::Failed(failure) => Outcome::Failed(failure),
                Outcome::Parsed { value: name, rest: named } => match FnBody::parse_spec(named) {
                    Outcome::Failed(failure) => Outcome::Failed(failure),
                    Outcome::Parsed { value: body, rest } => Outcome::Parsed {
                        value: FnModel { name, body },
                        rest,
                    },
                },
            },
        }
    }

    proof fn lemma_parse_spec(pre: StreamState) {
        lemma_fn_consumes(pre);
    }

    fn parse(stream: &mut ParseStream<'_>) -> (r: Result<Self, ParseStreamError>) {
        let mut fork = *stream;
        fork.keyword("fn")?;
        let name = Ident::parse(&mut fork)?;
        let body = FnBody::parse(&mut fork)?;
        *stream = fork;
        Ok(Self { name, body })
    }
}

} // verus!
