//! The statement that declares a function of another language:
//! `extern clang (int, int) -> int`.

use crate::parse::outcome::{Failure, Outcome, Parse, ParseStreamError};
use crate::parse::signature::{lemma_signature_consumes, Signature, SignatureModel};
use crate::parse::stream::{ParseStream, StreamState};
use crate::parse::tokens::{keyword_spec, lemma_keyword_consumes};
use crate::span::Span;
use vstd::prelude::*;
use vstd::string::*;

verus! {

broadcast use {
    crate::parse::stream::lemma_precedes_chain,
    crate::parse::stream::lemma_precedes_self,
};

/// The languages that a function may be taken from.
#[derive(Copy, Clone, Debug, PartialEq, Eq, Structural)]
pub enum FFILanguage {
    C,
}

impl DeepView for FFILanguage {
    type V = FFILanguage;

    open spec fn deep_view(&self) -> FFILanguage {
        *self
    }
}

impl FFILanguage {
    /// The word that names the language in source text.
    pub fn name(&self) -> (r: &'static str)
        ensures
            r@ == "clang"@,
    {
        match self {
            FFILanguage::C => "clang",
        }
    }
}

impl Parse for FFILanguage {
    /// The keyword `clang`; anything else fails at the first character that
    /// is not blank.
    open spec fn parse_spec(pre: StreamState) -> Outcome<FFILanguage> {
        match keyword_spec(pre, "clang"@) {
            Outcome::Parsed { rest, .. } => Outcome::Parsed { value: FFILanguage::C, rest },
            Outcome::Failed(_) => Outcome::Failed(
                Failure::new(
                    Span::spanning(pre.trimmed().cursor, 1),
                    pre.trimmed().depth,
                    "`clang`"@,
                ),
            ),
        }
    }

    proof fn lemma_parse_spec(pre: StreamState) {
        lemma_keyword_consumes(pre, "clang"@);
    }

    fn parse(stream: &mut ParseStream<'_>) -> (r: Result<Self, ParseStreamError>) {
        if stream.keyword("clang").is_ok() {
            return Ok(Self::C);
        }
        let mut fork = *stream;
        fork.trim();
        Err(
            ParseStreamError::new(
                Span::with_extra_column(fork.cursor, 1),
                fork.depth,
                String::from_str("`clang`"),
            ),
        )
    }
}

/// A function of another language: the language and the signature.
#[derive(Clone, Debug)]
pub struct ExternFnStmt {
    pub lang: FFILanguage,
    pub sig: Signature,
}

/// An [`ExternFnStmt`] as a mathematical value.
pub ghost struct ExternFnModel {
    pub lang: FFILanguage,
    pub sig: SignatureModel,
}

impl DeepView for ExternFnStmt {
    type V = ExternFnModel;

    open spec fn deep_view(&self) -> ExternFnModel {
        ExternFnModel { lang: self.lang, sig: self.sig.deep_view() }
    }
}

/// An extern statement that is read takes at least its keyword.
pub proof fn lemma_extern_fn_consumes(pre: StreamState)
    requires
        pre.wf(),
    ensures
        ExternFnStmt::parse_spec(pre).consumes_from(pre),
{
    lemma_keyword_consumes(pre, "extern"@);
    if let Outcome::Parsed { rest: keyed, .. } = keyword_spec(pre, "extern"@) {
        lemma_keyword_consumes(keyed, "clang"@);
        if let Outcome::Parsed { rest: spoken, .. } = FFILanguage::parse_spec(keyed) {
            lemma_signature_consumes(spoken);
        }
    }
}

impl Parse for ExternFnStmt {
    /// The keyword `extern`, the language, and the signature.
    open spec fn parse_spec(pre: StreamState) -> Outcome<ExternFnModel> {
        match keyword_spec(pre, "extern"@) {
            Outcome::Failed(failure) => Outcome::Failed(failure),
            Outcome::Parsed { rest: keyed, .. } => match FFILanguage::parse_spec(keyed) {
                Outcome::Failed(failure) => Outcome::Failed(failure),
                Outcome::Parsed { value: lang, rest: spoken } => match Signature::parse_spec(
                    spoken,
                ) {
                    Outcome::Failed(failure) => Outcome::Failed(failure),
                    Outcome::Parsed { value: sig, rest } => Outcome::Parsed {
                        value: ExternFnModel { lang, sig },
                        rest,
                    },
                },
            },
        }
    }

    proof fn lemma_parse_spec(pre: StreamState) {
        lemma_extern_fn_consumes(pre);
    }

    fn parse(stream: &mut ParseStream<'_>) -> (r: Result<Self, ParseStreamError>) {
        let mut fork = *stream;
        fork.keyword("extern")?;
        let lang = FFILanguage::parse(&mut fork)?;
        let sig = Signature::parse(&mut fork)?;
        *stream = fork;
        Ok(Self { lang, sig })
    }
}

} // verus!
