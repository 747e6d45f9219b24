//! The type statement: `ty Vec2 = x: T + y: T`, or
//! `ty Option = None | Some i32`.

use crate::parse::alternation::{alternation_spec, first_match, lemma_alternation, Alternatives};
use crate::parse::outcome::{Outcome, Parse, ParseStreamError};
use crate::parse::punctuated::{lemma_punctuated, punctuated_spec, Punctuated};
use crate::parse::span::{lemma_ident_sound, Ident, IdentModel};
use crate::parse::stream::{ParseStream, StreamState};
use crate::parse::tokens::{
    keyword_spec, lemma_keyword_consumes, lemma_newline_sound, lemma_punct_consumes, newline_spec, punct_spec,
};
use crate::parse::ty::{lemma_type_consumes, Type, TypeModel};
use crate::parse::typed_variable::{TypedVariables, TypedVariablesModel};
use vstd::prelude::*;

verus! {

broadcast use {
    crate::parse::stream::lemma_precedes_chain,
    crate::parse::stream::lemma_precedes_self,
};

/// The body of a type that is a record: `x: T + y: T`, or `x y: T`.
#[derive(Clone, Debug)]
pub struct StructTyStmtBody {
    pub fields: Punctuated<TypedVariables>,
}

/// A [`StructTyStmtBody`] as a mathematical value.
pub ghost struct StructTyModel {
    pub fields: Seq<TypedVariablesModel>,
}

impl DeepView for StructTyStmtBody {
    type V = StructTyModel;

    open spec fn deep_view(&self) -> StructTyModel {
        StructTyModel { fields: self.fields.deep_view() }
    }
}

impl Parse for StructTyStmtBody {
    /// One field or more, with `+` between them.
    open spec fn parse_spec(pre: StreamState) -> Outcome<StructTyModel> {
        punctuated_spec::<TypedVariables>(pre, '+', false).map(
            |fields: Seq<TypedVariablesModel>| StructTyModel { fields },
        )
    }

    proof fn lemma_parse_spec(pre: StreamState) {
        lemma_punctuated::<TypedVariables>(pre, '+', false);
    }

    fn parse(stream: &mut ParseStream<'_>) -> (r: Result<Self, ParseStreamError>) {
        let fields = Punctuated::<TypedVariables>::parse(stream, '+', false)?;
        Ok(Self { fields })
    }
}

/// One variant of a type that is a choice: its name, and the type that
/// comes with it, if any.
#[derive(Clone, Debug)]
pub struct Field {
    pub name: Ident,
    pub attached_type: Option<Type>,
}

/// A [`Field`] as a mathematical value.
pub ghost struct FieldModel {
    pub name: IdentModel,
    pub attached_type: Option<TypeModel>,
}

impl DeepView for Field {
    type V = FieldModel;

    open spec fn deep_view(&self) -> FieldModel {
        FieldModel { name: self.name.deep_view(), attached_type: self.attached_type.deep_view() }
    }
}

impl Parse for Field {
    /// The name, and a type if one can be read after it.
    open spec fn parse_spec(pre: StreamState) -> Outcome<FieldModel> {
        match Ident::parse_spec(pre) {
            Outcome::Failed(failure) => Outcome::Failed(failure),
            Outcome::Parsed { value: name, rest: named } => match Type::parse_spec(named) {
                Outcome::Failed(_) => Outcome::Parsed {
                    value: FieldModel { name, attached_type: None },
                    rest: named,
                },
                Outcome::Parsed { value: ty, rest } => Outcome::Parsed {
                    value: FieldModel { name, attached_type: Some(ty) },
                    rest,
                },
            },
        }
    }

    proof fn lemma_parse_spec(pre: StreamState) {
        lemma_ident_sound(pre);
        if let Outcome::Parsed { rest: named, .. } = Ident::parse_spec(pre) {
            lemma_type_consumes(named);
        }
    }

    fn parse(stream: &mut ParseStream<'_>) -> (r: Result<Self, ParseStreamError>) {
        let mut fork = *stream;
        let name = Ident::parse(&mut fork)?;
        let attached_type = match Type::parse(&mut fork) {
            Ok(ty) => Some(ty),
            Err(_) => None,
        };
        *stream = fork;
        Ok(Self { name, attached_type })
    }
}

/// The body of a type that is a choice: `None | Some i32`.
#[derive(Clone, Debug)]
pub struct EnumTyStmtBody {
    pub fields: Punctuated<Field>,
}

/// An [`EnumTyStmtBody`] as a mathematical value.
pub ghost struct EnumTyModel {
    pub fields: Seq<FieldModel>,
}

impl DeepView for EnumTyStmtBody {
    type V = EnumTyModel;

    open spec fn deep_view(&self) -> EnumTyModel {
        EnumTyModel { fields: self.fields.deep_view() }
    }
}

impl Parse for EnumTyStmtBody {
    /// One variant or more, with `|` between them; the rest of the line
    /// must be blank.
    open spec fn parse_spec(pre: StreamState) -> Outcome<EnumTyModel> {
        match punctuated_spec::<Field>(pre, '|', false) {
            Outcome::Failed(failure) => Outcome::Failed(failure),
            Outcome::Parsed { value: fields, rest: listed } => match newline_spec(listed) {
                Outcome::Failed(failure) => Outcome::Failed(failure),
                Outcome::Parsed { rest, .. } => Outcome::Parsed {
                    value: EnumTyModel { fields },
                    rest,
                },
            },
        }
    }

    proof fn lemma_parse_spec(pre: StreamState) {
        lemma_punctuated::<Field>(pre, '|', false);
        if let Outcome::Parsed { rest: listed, .. } = punctuated_spec::<Field>(pre, '|', false) {
            lemma_newline_sound(listed);
        }
    }

    fn parse(stream: &mut ParseStream<'_>) -> (r: Result<Self, ParseStreamError>) {
        let mut fork = *stream;
        let fields = Punctuated::<Field>::parse(&mut fork, '|', false)?;
        fork.newline()?;
        *stream = fork;
        Ok(Self { fields })
    }
}

/// The body of a type statement: a record, or else a choice.
#[derive(Clone, Debug)]
pub enum TyStmtBody {
    Struct(Box<StructTyStmtBody>),
    Enum(Box<EnumTyStmtBody>),
}

/// A [`TyStmtBody`] as a mathematical value.
pub ghost enum TyBodyModel {
    Struct(StructTyModel),
    Enum(EnumTyModel),
}

impl DeepView for TyStmtBody {
    type V = TyBodyModel;

    open spec fn deep_view(&self) -> TyBodyModel {
        match self {
            TyStmtBody::Struct(body) => TyBodyModel::Struct(body.deep_view()),
            TyStmtBody::Enum(body) => TyBodyModel::Enum(body.deep_view()),
        }
    }
}

impl Alternatives for TyStmtBody {
    open spec fn count() -> nat {
        2
    }

    open spec fn variant_spec(index: nat, pre: StreamState) -> Outcome<TyBodyModel> {
        if index == 0 {
            StructTyStmtBody::parse_spec(pre).map(|body: StructTyModel| TyBodyModel::Struct(body))
        } else {
            EnumTyStmtBody::parse_spec(pre).map(|body: EnumTyModel| TyBodyModel::Enum(body))
        }
    }

    proof fn lemma_variant_spec(index: nat, pre: StreamState) {
        StructTyStmtBody::lemma_parse_spec(pre);
        EnumTyStmtBody::lemma_parse_spec(pre);
    }

    fn variants() -> (n: usize) {
        2
    }

    fn variant(index: usize, stream: &mut ParseStream<'_>) -> (r: Result<Self, ParseStreamError>) {
        if index == 0 {
            Ok(TyStmtBody::Struct(Box::new(StructTyStmtBody::parse(stream)?)))
        } else {
            Ok(TyStmtBody::Enum(Box::new(EnumTyStmtBody::parse(stream)?)))
        }
    }
}

impl Parse for TyStmtBody {
    open spec fn parse_spec(pre: StreamState) -> Outcome<TyBodyModel> {
        alternation_spec::<TyStmtBody>(pre)
    }

    proof fn lemma_parse_spec(pre: StreamState) {
        lemma_alternation::<TyStmtBody>(pre);
    }

    fn parse(stream: &mut ParseStream<'_>) -> (r: Result<Self, ParseStreamError>) {
        first_match::<TyStmtBody>(stream)
    }
}

/// A type statement: the name and the body.
#[derive(Clone, Debug)]
pub struct TyStmt {
    pub name: Ident,
    pub body: TyStmtBody,
}

/// A [`TyStmt`] as a mathematical value.
pub ghost struct TyModel {
    pub name: IdentModel,
    pub body: TyBodyModel,
}

impl DeepView for TyStmt {
    type V = TyModel;

    open spec fn deep_view(&self) -> TyModel {
        TyModel { name: self.name.deep_view(), body: self.body.deep_view() }
    }
}

/// A type statement that is read takes at least its keyword.
pub proof fn lemma_ty_consumes(pre: StreamState)
    requires
        pre.wf(),
    ensures
        TyStmt::parse_spec(pre).consumes_from(pre),
{
    lemma_keyword_consumes(pre, "ty"@);
    if let Outcome::Parsed { rest: keyed, .. } = keyword_spec(pre, "ty"@) {
        lemma_ident_sound(keyed);
        if let Outcome::Parsed { rest: named, .. } = Ident::parse_spec(keyed) {
            lemma_punct_consumes(named, "="@);
            if let Outcome::Parsed { rest: equated, .. } = punct_spec(named, "="@) {
                lemma_alternation::<TyStmtBody>(equated);
            }
        }
    }
}

impl Parse for TyStmt {
    /// The keyword `ty`, the name, `=`, and the body.
    open spec fn parse_spec(pre: StreamState) -> Outcome<TyModel> {
        match keyword_spec(pre, "ty"@) {
            Outcome::Failed(failure) => Outcome::Failed(failure),
            Outcome::Parsed { rest: keyed, .. } => match Ident::parse_spec(keyed) {
                Outcome::Failed(failure) => Outcome::Failed(failure),
                Outcome::Parsed { value: name, rest: named } => match punct_spec(named, "="@) {
                    Outcome::Failed(failure) => Outcome::Failed(failure),
                    Outcome::Parsed { rest: equated, .. } => match TyStmtBody::parse_spec(equated) {
                        Outcome::Failed(failure) => Outcome::Failed(failure),
                        Outcome::Parsed { value: body, rest } => Outcome::Parsed {
                            value: TyModel { name, body },
                            rest,
                        },
                    },
                },
            },
        }
    }

    proof fn lemma_parse_spec(pre: StreamState) {
        lemma_ty_consumes(pre);
    }

    fn parse(stream: &mut ParseStream<'_>) -> (r: Result<Self, ParseStreamError>) {
        let mut fork = *stream;
        fork.keyword("ty")?;
        let name = Ident::parse(&mut fork)?;
        fork.punct("=")?;
        let body = TyStmtBody::parse(&mut fork)?;
        *stream = fork;
        Ok(Self { name, body })
    }
}

} // verus!
