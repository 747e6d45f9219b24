//! Types as they are written: a name, with reference and pointer signs
//! before it.

use crate::parse::outcome::{fulfils, Failure, Outcome, Parse, ParseStreamError};
use crate::parse::span::{Ident, IdentModel};
use crate::parse::stream::{ParseStream, StreamState};
use crate::parse::tokens::{keyword_spec, lemma_keyword_consumes, lemma_punct_consumes, punct_spec};
use crate::span::Span;
use crate::text::{char_text, join3};
use vstd::prelude::*;
use vstd::string::*;

verus! {

broadcast use {
    crate::parse::stream::lemma_precedes_chain,
    crate::parse::stream::lemma_precedes_self,
};

/// A run of reference or pointer signs. `len` is their number, at most
/// eight; bit `i` of `muts` is set where `mut` follows sign `i`.
#[derive(Copy, Clone, Debug, PartialEq, Eq, Structural)]
pub struct Muts {
    pub len: u8,
    pub muts: u8,
}

impl DeepView for Muts {
    type V = Muts;

    open spec fn deep_view(&self) -> Muts {
        *self
    }
}

/// The signs `*` before a type's name.
pub type Ptrs = Muts;

/// The signs `&` before a type's name.
pub type Refs = Muts;

/// The most signs that a run can hold.
pub const MAX_SIGNS: u8 = 8;

/// What the sign read in excess says it expected.
pub open spec fn extra_sign_expected(symbol: char) -> Seq<char> {
    "not an extra `"@ + seq![symbol] + "` token"@
}

/// The run of signs `symbol` that goes on at `at`, after `len` signs whose
/// `mut`s are in `muts`. A ninth sign fails over its own range. `mut` after
/// a sign is read and noted.
pub open spec fn muts_from(at: StreamState, symbol: char, len: u8, muts: u8) -> Outcome<Muts>
    decreases at.code.len(),
    when at.wf()
{
    match punct_spec(at, seq![symbol]) {
        Outcome::Failed(_) => Outcome::Parsed { value: Muts { len, muts }, rest: at },
        Outcome::Parsed { rest: signed, .. } => if len >= MAX_SIGNS {
            Outcome::Failed(
                Failure::new(
                    Span::ending(signed.cursor, 1),
                    signed.depth,
                    extra_sign_expected(symbol),
                ),
            )
        } else {
            proof {
                lemma_punct_consumes(at, seq![symbol]);
                lemma_keyword_consumes(signed, "mut"@);
            }
            match keyword_spec(signed, "mut"@) {
                Outcome::Parsed { rest, .. } => muts_from(
                    rest,
                    symbol,
                    (len + 1) as u8,
                    muts | (1u8 << len),
                ),
                Outcome::Failed(_) => muts_from(signed, symbol, (len + 1) as u8, muts),
            }
        },
    }
}

/// Reading a run of signs only moves forward.
pub proof fn lemma_muts_from(at: StreamState, symbol: char, len: u8, muts: u8)
    requires
        at.wf(),
    ensures
        muts_from(at, symbol, len, muts).sound_from(at),
    decreases at.code.len(),
{
    lemma_punct_consumes(at, seq![symbol]);
    if let Outcome::Parsed { rest: signed, .. } = punct_spec(at, seq![symbol]) {
        if len < MAX_SIGNS {
            lemma_keyword_consumes(signed, "mut"@);
            match keyword_spec(signed, "mut"@) {
                Outcome::Parsed { rest, .. } => lemma_muts_from(
                    rest,
                    symbol,
                    (len + 1) as u8,
                    muts | (1u8 << len),
                ),
                Outcome::Failed(_) => lemma_muts_from(signed, symbol, (len + 1) as u8, muts),
            }
        }
    }
}

/// A run of signs `symbol`, which may be empty.
pub open spec fn muts_spec(pre: StreamState, symbol: char) -> Outcome<Muts> {
    muts_from(pre, symbol, 0, 0)
}

impl Muts {
    /// No sign.
    pub fn zero() -> (r: Self)
        ensures
            r == (Muts { len: 0, muts: 0 }),
    {
        Muts { len: 0, muts: 0 }
    }

    /// One sign, without `mut`.
    pub fn single() -> (r: Self)
        ensures
            r == (Muts { len: 1, muts: 0 }),
    {
        Muts { len: 1, muts: 0 }
    }

    /// Reads a run of signs `symbol`; see [`muts_from`].
    pub fn parse(stream: &mut ParseStream<'_>, symbol: char) -> (r: Result<Self, ParseStreamError>)
        requires
            old(stream).wf(),
        ensures
            fulfils(muts_spec(old(stream)@, symbol), r, final(stream)@),
            final(stream).wf(),
            old(stream)@.precedes(final(stream)@),
            r is Err ==> *final(stream) == *old(stream),
    {
        let mut fork = *stream;
        let mut len: u8 = 0;
        let mut muts: u8 = 0;
        let text = char_text(symbol);
        loop
            invariant_except_break
                muts_spec(old(stream)@, symbol) == muts_from(fork@, symbol, len, muts),
            invariant
                fork.wf(),
                old(stream)@.precedes(fork@),
                *stream == *old(stream),
                stream.wf(),
                text@ == seq![symbol],
                len <= MAX_SIGNS,
            ensures
                muts_spec(old(stream)@, symbol) == (Outcome::Parsed {
                    value: Muts { len, muts },
                    rest: fork@,
                }),
            decreases fork@.code.len(),
        {
            let ghost at = fork@;
            proof {
                lemma_punct_consumes(at, seq![symbol]);
            }
            if fork.punct(text.as_str()).is_err() {
                break ;
            }
            if len >= MAX_SIGNS {
                proof {
                    at.lemma_trimmed();
                    crate::parse::tokens::lemma_punct_tokens();
                    crate::parse::tokens::lemma_first_token(at.trimmed().code, 0);
                }
                return Err(
                    ParseStreamError::new(
                        Span::with_shrunk_column(fork.cursor, 1),
                        fork.depth,
                        join3("not an extra `", text.as_str(), "` token"),
                    ),
                );
            }
            if fork.keyword("mut").is_ok() {
                muts = muts | (1u8 << len);
            }
            len = len + 1;
        }
        *stream = fork;
        Ok(Muts { len, muts })
    }
}

/// A type as written: `&mut *int`, say.
#[derive(Clone, Debug)]
pub struct Type {
    pub refs: Refs,
    pub ptrs: Ptrs,
    pub name: Ident,
    pub span: Span,
}

/// A [`Type`] as a mathematical value.
pub ghost struct TypeModel {
    pub refs: Muts,
    pub ptrs: Muts,
    pub name: IdentModel,
    pub span: Span,
}

impl DeepView for Type {
    type V = TypeModel;

    open spec fn deep_view(&self) -> TypeModel {
        TypeModel {
            refs: self.refs,
            ptrs: self.ptrs,
            name: self.name.deep_view(),
            span: self.span,
        }
    }
}

impl TypeModel {
    /// Whether the type is a bare name.
    pub open spec fn is_pure(self) -> bool {
        self.refs == (Muts { len: 0, muts: 0 }) && self.ptrs == (Muts { len: 0, muts: 0 })
    }
}

impl Type {
    /// Whether the type is a bare name, with no sign before it.
    pub fn is_pure(&self) -> (r: bool)
        ensures
            r == self.deep_view().is_pure(),
    {
        self.refs == Muts::zero() && self.ptrs == Muts::zero()
    }
}

/// A type that is read takes at least the first letter of its name.
pub proof fn lemma_type_consumes(pre: StreamState)
    requires
        pre.wf(),
    ensures
        Type::parse_spec(pre) matches Outcome::Parsed { rest, .. } ==> rest.wf() && pre.precedes(
            rest,
        ) && rest.code.len() < pre.code.len(),
{
    lemma_muts_from(pre, '&', 0, 0);
    if let Outcome::Parsed { rest: after_refs, .. } = muts_spec(pre, '&') {
        lemma_muts_from(after_refs, '*', 0, 0);
        if let Outcome::Parsed { rest: after_ptrs, .. } = muts_spec(after_refs, '*') {
            crate::parse::span::lemma_ident_sound(after_ptrs);
        }
    }
}

impl Parse for Type {
    /// The signs `&`, the signs `*`, and the name. The range starts where
    /// the stream stood and ends after the name.
    open spec fn parse_spec(pre: StreamState) -> Outcome<TypeModel> {
        match muts_spec(pre, '&') {
            Outcome::Failed(failure) => Outcome::Failed(failure),
            Outcome::Parsed { value: refs, rest: after_refs } => match muts_spec(after_refs, '*') {
                Outcome::Failed(failure) => Outcome::Failed(failure),
                Outcome::Parsed { value: ptrs, rest: after_ptrs } => match Ident::parse_spec(
                    after_ptrs,
                ) {
                    Outcome::Failed(failure) => Outcome::Failed(failure),
                    Outcome::Parsed { value: name, rest } => Outcome::Parsed {
                        value: TypeModel {
                            refs,
                            ptrs,
                            name,
                            span: Span { start: pre.cursor, end: rest.cursor },
                        },
                        rest,
                    },
                },
            },
        }
    }

    proof fn lemma_parse_spec(pre: StreamState) {
        lemma_type_consumes(pre);
    }

    fn parse(stream: &mut ParseStream<'_>) -> (r: Result<Self, ParseStreamError>) {
        let mut fork = *stream;
        let start = fork.cursor;
        let refs = Muts::parse(&mut fork, '&')?;
        let ptrs = Muts::parse(&mut fork, '*')?;
        let name = Ident::parse(&mut fork)?;
        let span = Span { start, end: fork.cursor };
        *stream = fork;
        Ok(Self { refs, ptrs, name, span })
    }
}

} // verus!
