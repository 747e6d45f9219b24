//! The macro statement, which gives literals with an affix a meaning:
//! `macro suffix "km" (int) -> Distance { }`.

use crate::parse::alternation::{alternation_spec, first_match, lemma_alternation, Alternatives};
use crate::parse::expr::{lemma_single_or_block, single_or_block_spec, Expr, ExprModel};
use crate::parse::outcome::{Failure, Outcome, Parse, ParseStreamError};
use crate::parse::signature::{lemma_signature_consumes, Arg, ArgModel, Signature, SignatureModel};
use crate::parse::span::{DoubleQuotedModel, DoubleQuotedString};
use crate::parse::stream::{ParseStream, StreamState};
use crate::parse::tokens::{
    double_quoted_spec, keyword_spec, lemma_enclosed_consumes, lemma_keyword_consumes, same_text,
};
use crate::parse::ty::{Muts, Type, TypeModel};
use crate::span::Span;
use vstd::prelude::*;
use vstd::string::*;

verus! {

broadcast use {
    crate::parse::stream::lemma_precedes_chain,
    crate::parse::stream::lemma_precedes_self,
};

/// The side of a literal on which its affix stands.
#[derive(Copy, Clone, Debug, PartialEq, Eq, Structural)]
pub enum Affix {
    Prefix,
    Suffix,
}

impl DeepView for Affix {
    type V = Affix;

    open spec fn deep_view(&self) -> Affix {
        *self
    }
}

impl Parse for Affix {
    /// The keyword `prefix`, or else the keyword `suffix`, whose failure is
    /// the failure of the whole.
    open spec fn parse_spec(pre: StreamState) -> Outcome<Affix> {
        match keyword_spec(pre, "prefix"@) {
            Outcome::Parsed { rest, .. } => Outcome::Parsed { value: Affix::Prefix, rest },
            Outcome::Failed(_) => match keyword_spec(pre, "suffix"@) {
                Outcome::Parsed { rest, .. } => Outcome::Parsed { value: Affix::Suffix, rest },
                Outcome::Failed(failure) => Outcome::Failed(failure),
            },
        }
    }

    proof fn lemma_parse_spec(pre: StreamState) {
        lemma_keyword_consumes(pre, "prefix"@);
        lemma_keyword_consumes(pre, "suffix"@);
    }

    fn parse(stream: &mut ParseStream<'_>) -> (r: Result<Self, ParseStreamError>) {
        if stream.keyword("prefix").is_ok() {
            return Ok(Self::Prefix);
        }
        stream.keyword("suffix")?;
        Ok(Self::Suffix)
    }
}

/// The kinds of literal that an affix can be given to.
#[derive(Copy, Clone, Debug, PartialEq, Eq, Structural)]
pub enum LiteralType {
    /// "hi there"
    String,
    /// 'k'
    Char,
    /// 1.0 -4.864 0.865 -0.314
    Float,
    /// 27 2 5 -3 1 -115 0
    Int,
}

/// What a macro's parameter list must come to: exactly one parameter.
pub open spec fn one_argument_expected() -> Seq<char> {
    "only one argument for an affix operator"@
}

/// What the type of a macro's parameter must be.
pub open spec fn literal_type_expected() -> Seq<char> {
    "one of &str, char, float, int"@
}

/// The type of the one parameter of `sig`, or the range to complain about:
/// the column after the literal where there is no parameter, the second
/// parameter where there are several, and the parameter itself where it
/// names several variables or is counted.
pub open spec fn operand_of(sig: SignatureModel, lit: DoubleQuotedModel) -> Result<
    TypeModel,
    Span,
> {
    if sig.args.len() == 0 {
        Err(Span::spanning(lit.span().end, 1))
    } else if sig.args.len() > 1 {
        Err(
            match sig.args[1] {
                ArgModel::Named(named) => named.span(),
                ArgModel::Unnamed(unnamed) => unnamed.it.span,
            },
        )
    } else {
        match sig.args[0] {
            ArgModel::Named(typed) => if typed.names.len() != 1 {
                Err(typed.span())
            } else {
                Ok(typed.ty)
            },
            ArgModel::Unnamed(unnamed) => if unnamed.times != 1 {
                Err(unnamed.it.span)
            } else {
                Ok(unnamed.it)
            },
        }
    }
}

/// The kind of literal that a parameter of type `ty` stands for: `&str` is
/// a string, and the bare names `char`, `float` and `int` are themselves.
pub open spec fn literal_type_of(ty: TypeModel) -> Option<LiteralType> {
    if ty.refs == (Muts { len: 1, muts: 0 }) && ty.ptrs == (Muts { len: 0, muts: 0 })
        && ty.name.name == "str"@ {
        Some(LiteralType::String)
    } else if ty.is_pure() && ty.name.name == "char"@ {
        Some(LiteralType::Char)
    } else if ty.is_pure() && ty.name.name == "float"@ {
        Some(LiteralType::Float)
    } else if ty.is_pure() && ty.name.name == "int"@ {
        Some(LiteralType::Int)
    } else {
        None
    }
}

/// Decides the kind of literal that a parameter of type `ty` stands for.
pub fn literal_type(ty: &Type) -> (r: Option<LiteralType>)
    ensures
        r == literal_type_of(ty.deep_view()),
{
    let name = ty.name.name.as_str();
    if ty.refs == Muts::single() && ty.ptrs == Muts::zero() && same_text(name, "str") {
        Some(LiteralType::String)
    } else if ty.is_pure() && same_text(name, "char") {
        Some(LiteralType::Char)
    } else if ty.is_pure() && same_text(name, "float") {
        Some(LiteralType::Float)
    } else if ty.is_pure() && same_text(name, "int") {
        Some(LiteralType::Int)
    } else {
        None
    }
}

/// Finds the one parameter of `sig` and decides the kind of literal that
/// it stands for; the error is the range to complain about and what was
/// expected there.
pub fn operand_kind(sig: &Signature, lit: &DoubleQuotedString) -> (r: Result<
    LiteralType,
    (Span, String),
>)
    requires
        lit.start.column + lit.value@.len() + 3 <= usize::MAX,
    ensures
        match r {
            Ok(kind) => operand_of(sig.deep_view(), lit.deep_view()) matches Ok(ty)
                && literal_type_of(ty) == Some(kind),
            Err(complaint) => match operand_of(sig.deep_view(), lit.deep_view()) {
                Ok(ty) => literal_type_of(ty) is None && complaint.0 == ty.span && complaint.1@
                    == literal_type_expected(),
                Err(span) => complaint.0 == span && complaint.1@ == one_argument_expected(),
            },
        },
{
    let count = sig.args.0.len();
    if count == 0 {
        return Err(
            (
                Span::with_extra_column(lit.span().end, 1),
                String::from_str("only one argument for an affix operator"),
            ),
        );
    }
    if count > 1 {
        let span = match &sig.args.0[1] {
            Arg::Named(named) => named.span(),
            Arg::Unnamed(unnamed) => unnamed.it.span,
        };
        return Err((span, String::from_str("only one argument for an affix operator")));
    }
    let ty = match &sig.args.0[0] {
        Arg::Named(typed) => {
            if typed.names.len() != 1 {
                return Err(
                    (typed.span(), String::from_str("only one argument for an affix operator")),
                );
            }
            &typed.ty
        },
        Arg::Unnamed(unnamed) => {
            if unnamed.times != 1 {
                return Err(
                    (unnamed.it.span, String::from_str("only one argument for an affix operator")),
                );
            }
            &unnamed.it
        },
    };
    match literal_type(ty) {
        Some(kind) => Ok(kind),
        None => Err((ty.span, String::from_str("one of &str, char, float, int"))),
    }
}

/// The body of a macro for literals.
#[derive(Debug)]
pub struct LiteralMacroStmtBody {
    pub affix: Affix,
    pub lit: DoubleQuotedString,
    pub ty: LiteralType,
    pub return_ty: Option<Type>,
    pub body: Expr,
}

/// A [`LiteralMacroStmtBody`] as a mathematical value.
pub ghost struct LiteralMacroModel {
    pub affix: Affix,
    pub lit: DoubleQuotedModel,
    pub ty: LiteralType,
    pub return_ty: Option<TypeModel>,
    pub body: ExprModel,
}

impl DeepView for LiteralMacroStmtBody {
    type V = LiteralMacroModel;

    open spec fn deep_view(&self) -> LiteralMacroModel {
        LiteralMacroModel {
            affix: self.affix,
            lit: self.lit.deep_view(),
            ty: self.ty,
            return_ty: self.return_ty.deep_view(),
            body: self.body.deep_view(),
        }
    }
}

/// A macro body that is read takes at least its affix.
pub proof fn lemma_literal_macro_consumes(pre: StreamState)
    requires
        pre.wf(),
    ensures
        LiteralMacroStmtBody::parse_spec(pre).consumes_from(pre),
{
    Affix::lemma_parse_spec(pre);
    if let Outcome::Parsed { rest: fixed, .. } = Affix::parse_spec(pre) {
        lemma_enclosed_consumes(fixed, '"');
        if let Outcome::Parsed { rest: quoted, .. } = double_quoted_spec(fixed) {
            lemma_signature_consumes(quoted);
            if let Outcome::Parsed { rest: signed, .. } = Signature::parse_spec(quoted) {
                lemma_single_or_block(signed);
            }
        }
    }
}

impl Parse for LiteralMacroStmtBody {
    /// The affix, the literal, the signature, and the body. The signature
    /// must have exactly one parameter, which names one variable or is an
    /// uncounted type, and whose type is `&str`, `char`, `float` or `int`.
    /// A signature that is not so fails at the depth reached behind it.
    open spec fn parse_spec(pre: StreamState) -> Outcome<LiteralMacroModel> {
        match Affix::parse_spec(pre) {
            Outcome::Failed(failure) => Outcome::Failed(failure),
            Outcome::Parsed { value: affix, rest: fixed } => match double_quoted_spec(fixed) {
                Outcome::Failed(failure) => Outcome::Failed(failure),
                Outcome::Parsed { value: lit, rest: quoted } => match Signature::parse_spec(
                    quoted,
                ) {
                    Outcome::Failed(failure) => Outcome::Failed(failure),
                    Outcome::Parsed { value: sig, rest: signed } => match operand_of(sig, lit) {
                        Err(span) => Outcome::Failed(
                            Failure::new(span, signed.depth, one_argument_expected()),
                        ),
                        Ok(operand) => match literal_type_of(operand) {
                            None => Outcome::Failed(
                                Failure::new(operand.span, signed.depth, literal_type_expected()),
                            ),
                            Some(ty) => match single_or_block_spec(signed) {
                                Outcome::Failed(failure) => Outcome::Failed(failure),
                                Outcome::Parsed { value: body, rest } => Outcome::Parsed {
                                    value: LiteralMacroModel {
                                        affix,
                                        lit,
                                        ty,
                                        return_ty: sig.return_ty,
                                        body,
                                    },
                                    rest,
                                },
                            },
                        },
                    },
                },
            },
        }
    }

    proof fn lemma_parse_spec(pre: StreamState) {
        lemma_literal_macro_consumes(pre);
    }

    fn parse(stream: &mut ParseStream<'_>) -> (r: Result<Self, ParseStreamError>) {
        let mut fork = *stream;
        let affix = Affix::parse(&mut fork)?;
        let lit = fork.double_quoted_string()?;
        let ghost quoted = fork@;
        let sig = Signature::parse(&mut fork)?;
        proof {
            lemma_signature_consumes(quoted);
        }
        let ty = match operand_kind(&sig, &lit) {
            Ok(ty) => ty,
            Err(complaint) => {
                return Err(ParseStreamError::new(complaint.0, fork.depth, complaint.1));
            },
        };
        let body = Expr::single_or_block(&mut fork)?;
        *stream = fork;
        Ok(Self { affix, lit, ty, return_ty: sig.return_ty, body })
    }
}

/// The body of a macro statement.
#[derive(Debug)]
pub enum MacroStmtBody {
    Literal(Box<LiteralMacroStmtBody>),
}

/// A [`MacroStmtBody`] as a mathematical value.
pub ghost enum MacroBodyModel {
    Literal(LiteralMacroModel),
}

impl DeepView for MacroStmtBody {
    type V = MacroBodyModel;

    open spec fn deep_view(&self) -> MacroBodyModel {
        match self {
            MacroStmtBody::Literal(body) => MacroBodyModel::Literal(body.deep_view()),
        }
    }
}

impl Alternatives for MacroStmtBody {
    open spec fn count() -> nat {
        1
    }

    open spec fn variant_spec(index: nat, pre: StreamState) -> Outcome<MacroBodyModel> {
        LiteralMacroStmtBody::parse_spec(pre).map(
            |body: LiteralMacroModel| MacroBodyModel::Literal(body),
        )
    }

    proof fn lemma_variant_spec(index: nat, pre: StreamState) {
        lemma_literal_macro_consumes(pre);
    }

    fn variants() -> (n: usize) {
        1
    }

    fn variant(index: usize, stream: &mut ParseStream<'_>) -> (r: Result<Self, ParseStreamError>) {
        Ok(MacroStmtBody::Literal(Box::new(LiteralMacroStmtBody::parse(stream)?)))
    }
}

impl Parse for MacroStmtBody {
    open spec fn parse_spec(pre: StreamState) -> Outcome<MacroBodyModel> {
        alternation_spec::<MacroStmtBody>(pre)
    }

    proof fn lemma_parse_spec(pre: StreamState) {
        lemma_alternation::<MacroStmtBody>(pre);
    }

    fn parse(stream: &mut ParseStream<'_>) -> (r: Result<Self, ParseStreamError>) {
        first_match::<MacroStmtBody>(stream)
    }
}

/// A macro statement.
#[derive(Debug)]
pub struct MacroStmt {
    pub body: MacroStmtBody,
}

/// A [`MacroStmt`] as a mathematical value.
pub ghost struct MacroModel {
    pub body: MacroBodyModel,
}

impl DeepView for MacroStmt {
    type V = MacroModel;

    open spec fn deep_view(&self) -> MacroModel {
        MacroModel { body: self.body.deep_view() }
    }
}

/// A macro statement that is read takes at least its keyword.
pub proof fn lemma_macro_consumes(pre: StreamState)
    requires
        pre.wf(),
    ensures
        MacroStmt::parse_spec(pre).consumes_from(pre),
{
    lemma_keyword_consumes(pre, "macro"@);
    if let Outcome::Parsed { rest: keyed, .. } = keyword_spec(pre, "macro"@) {
        lemma_alternation::<MacroStmtBody>(keyed);
    }
}

impl Parse for MacroStmt {
    /// The keyword `macro` and the body.
    open spec fn parse_spec(pre: StreamState) -> Outcome<MacroModel> {
        match keyword_spec(pre, "macro"@) {
            Outcome::Failed(failure) => Outcome::Failed(failure),
            Outcome::Parsed { rest: keyed, .. } => MacroStmtBody::parse_spec(keyed).map(
                |body: MacroBodyModel| MacroModel { body },
            ),
        }
    }

    proof fn lemma_parse_spec(pre: StreamState) {
        lemma_macro_consumes(pre);
    }

    fn parse(stream: &mut ParseStream<'_>) -> (r: Result<Self, ParseStreamError>) {
        let mut fork = *stream;
        fork.keyword("macro")?;
        let body = MacroStmtBody::parse(&mut fork)?;
        *stream = fork;
        Ok(Self { body })
    }
}

} // verus!
