//! The statements of the language, and a whole program of them.

pub mod entity;
pub mod extern_function;
pub mod function;
pub mod macros;
pub mod operator;
pub mod structure;
pub mod ty;

use crate::parse::alternation::{alternation_spec, first_match, lemma_alternation, Alternatives};
use crate::parse::outcome::{fulfils, Outcome, Parse, ParseStreamError};
use crate::parse::stmt::entity::{lemma_entity_consumes, EntityModel, EntityStmt};
use crate::parse::stmt::extern_function::{lemma_extern_fn_consumes, ExternFnModel, ExternFnStmt};
use crate::parse::stmt::function::{lemma_fn_consumes, FnModel, FnStmt};
use crate::parse::stmt::macros::{lemma_macro_consumes, MacroModel, MacroStmt};
use crate::parse::stmt::operator::{lemma_operator_consumes, OperatorModel, OperatorStmt};
use crate::parse::stmt::structure::{lemma_struct_consumes, StructModel, StructStmt};
use crate::parse::stmt::ty::{lemma_ty_consumes, TyModel, TyStmt};
use crate::parse::stream::{ParseStream, StreamState};
use vstd::prelude::*;

verus! {

broadcast use {
    crate::parse::stream::lemma_precedes_chain,
    crate::parse::stream::lemma_precedes_self,
};

/// A statement. The forms are tried in the order in which they stand here.
#[derive(Debug)]
pub enum Stmt {
    Entity(Box<EntityStmt>),
    Fn(Box<FnStmt>),
    ExternFn(Box<ExternFnStmt>),
    Struct(Box<StructStmt>),
    Ty(Box<TyStmt>),
    Macro(Box<MacroStmt>),
    Operator(Box<OperatorStmt>),
}

/// A [`Stmt`] as a mathematical value.
pub ghost enum StmtModel {
    Entity(EntityModel),
    Fn(FnModel),
    ExternFn(ExternFnModel),
    Struct(StructModel),
    Ty(TyModel),
    Macro(MacroModel),
    Operator(OperatorModel),
}

impl DeepView for Stmt {
    type V = StmtModel;

    open spec fn deep_view(&self) -> StmtModel {
        match self {
            Stmt::Entity(stmt) => StmtModel::Entity(stmt.deep_view()),
            Stmt::Fn(stmt) => StmtModel::Fn(stmt.deep_view()),
            Stmt::ExternFn(stmt) => StmtModel::ExternFn(stmt.deep_view()),
            Stmt::Struct(stmt) => StmtModel::Struct(stmt.deep_view()),
            Stmt::Ty(stmt) => StmtModel::Ty(stmt.deep_view()),
            Stmt::Macro(stmt) => StmtModel::Macro(stmt.deep_view()),
            Stmt::Operator(stmt) => StmtModel::Operator(stmt.deep_view()),
        }
    }
}

/// The number of forms of a statement.
pub const STMT_FORMS: usize = 7;

impl Alternatives for Stmt {
    open spec fn count() -> nat {
        STMT_FORMS as nat
    }

    open spec fn variant_spec(index: nat, pre: StreamState) -> Outcome<StmtModel> {
        if index == 0 {
            EntityStmt::parse_spec(pre).map(|stmt: EntityModel| StmtModel::Entity(stmt))
        } else if index == 1 {
            FnStmt::parse_spec(pre).map(|stmt: FnModel| StmtModel::Fn(stmt))
        } else if index == 2 {
            ExternFnStmt::parse_spec(pre).map(|stmt: ExternFnModel| StmtModel::ExternFn(stmt))
        } else if index == 3 {
            StructStmt::parse_spec(pre).map(|stmt: StructModel| StmtModel::Struct(stmt))
        } else if index == 4 {
            TyStmt::parse_spec(pre).map(|stmt: TyModel| StmtModel::Ty(stmt))
        } else if index == 5 {
            MacroStmt::parse_spec(pre).map(|stmt: MacroModel| StmtModel::Macro(stmt))
        } else {
            OperatorStmt::parse_spec(pre).map(|stmt: OperatorModel| StmtModel::Operator(stmt))
        }
    }

    proof fn lemma_variant_spec(index: nat, pre: StreamState) {
        lemma_stmt_forms_consume(pre);
    }

    fn variants() -> (n: usize) {
        STMT_FORMS
    }

    fn variant(index: usize, stream: &mut ParseStream<'_>) -> (r: Result<Self, ParseStreamError>) {
        if index == 0 {
            entity_form(stream)
        } else if index == 1 {
            fn_form(stream)
        } else if index == 2 {
            extern_fn_form(stream)
        } else if index == 3 {
            struct_form(stream)
        } else if index == 4 {
            ty_form(stream)
        } else if index == 5 {
            macro_form(stream)
        } else {
            operator_form(stream)
        }
    }
}

/// Reads a statement of the form `Entity`.
fn entity_form(stream: &mut ParseStream<'_>) -> (r: Result<Stmt, ParseStreamError>)
    requires
        old(stream).wf(),
    ensures
        fulfils(Stmt::variant_spec(0, old(stream)@), r, final(stream)@),
        final(stream).wf(),
        old(stream)@.precedes(final(stream)@),
        r is Err ==> *final(stream) == *old(stream),
{
    match EntityStmt::parse(stream) {
        Ok(stmt) => Ok(Stmt::Entity(Box::new(stmt))),
        Err(error) => Err(error),
    }
}

/// Reads a statement of the form `Fn`.
fn fn_form(stream: &mut ParseStream<'_>) -> (r: Result<Stmt, ParseStreamError>)
    requires
        old(stream).wf(),
    ensures
        fulfils(Stmt::variant_spec(1, old(stream)@), r, final(stream)@),
        final(stream).wf(),
        old(stream)@.precedes(final(stream)@),
        r is Err ==> *final(stream) == *old(stream),
{
    match FnStmt::parse(stream) {
        Ok(stmt) => Ok(Stmt::Fn(Box::new(stmt))),
        Err(error) => Err(error),
    }
}

/// Reads a statement of the form `ExternFn`.
fn extern_fn_form(stream: &mut ParseStream<'_>) -> (r: Result<Stmt, ParseStreamError>)
    requires
        old(stream).wf(),
    ensures
        fulfils(Stmt::variant_spec(2, old(stream)@), r, final(stream)@),
        final(stream).wf(),
        old(stream)@.precedes(final(stream)@),
        r is Err ==> *final(stream) == *old(stream),
{
    match ExternFnStmt::parse(stream) {
        Ok(stmt) => Ok(Stmt::ExternFn(Box::new(stmt))),
        Err(error) => Err(error),
    }
}

/// Reads a statement of the form `Struct`.
fn struct_form(stream: &mut ParseStream<'_>) -> (r: Result<Stmt, ParseStreamError>)
    requires
        old(stream).wf(),
    ensures
        fulfils(Stmt::variant_spec(3, old(stream)@), r, final(stream)@),
        final(stream).wf(),
        old(stream)@.precedes(final(stream)@),
        r is Err ==> *final(stream) == *old(stream),
{
    match StructStmt::parse(stream) {
        Ok(stmt) => Ok(Stmt::Struct(Box::new(stmt))),
        Err(error) => Err(error),
    }
}

/// Reads a statement of the form `Ty`.
fn ty_form(stream: &mut ParseStream<'_>) -> (r: Result<Stmt, ParseStreamError>)
    requires
        old(stream).wf(),
    ensures
        fulfils(Stmt::variant_spec(4, old(stream)@), r, final(stream)@),
        final(stream).wf(),
        old(stream)@.precedes(final(stream)@),
        r is Err ==> *final(stream) == *old(stream),
{
    match TyStmt::parse(stream) {
        Ok(stmt) => Ok(Stmt::Ty(Box::new(stmt))),
        Err(error) => Err(error),
    }
}

/// Reads a statement of the form `Macro`.
fn macro_form(stream: &mut ParseStream<'_>) -> (r: Result<Stmt, ParseStreamError>)
    requires
        old(stream).wf(),
    ensures
        fulfils(Stmt::variant_spec(5, old(stream)@), r, final(stream)@),
        final(stream).wf(),
        old(stream)@.precedes(final(stream)@),
        r is Err ==> *final(stream) == *old(stream),
{
    match MacroStmt::parse(stream) {
        Ok(stmt) => Ok(Stmt::Macro(Box::new(stmt))),
        Err(error) => Err(error),
    }
}

/// Reads a statement of the form `Operator`.
fn operator_form(stream: &mut ParseStream<'_>) -> (r: Result<Stmt, ParseStreamError>)
    requires
        old(stream).wf(),
    ensures
        fulfils(Stmt::variant_spec(6, old(stream)@), r, final(stream)@),
        final(stream).wf(),
        old(stream)@.precedes(final(stream)@),
        r is Err ==> *final(stream) == *old(stream),
{
    match OperatorStmt::parse(stream) {
        Ok(stmt) => Ok(Stmt::Operator(Box::new(stmt))),
        Err(error) => Err(error),
    }
}

/// Every form of a statement, where it can be read, takes at least one
/// character.
pub proof fn lemma_stmt_forms_consume(pre: StreamState)
    requires
        pre.wf(),
    ensures
        forall|index: nat| index < STMT_FORMS ==> (#[trigger] Stmt::variant_spec(index, pre)).consumes_from(pre),
{
    lemma_entity_consumes(pre);
    lemma_fn_consumes(pre);
    lemma_extern_fn_consumes(pre);
    lemma_struct_consumes(pre);
    lemma_ty_consumes(pre);
    lemma_macro_consumes(pre);
    lemma_operator_consumes(pre);
}

/// A statement that is read takes at least one character.
pub proof fn lemma_stmt_consumes(pre: StreamState)
    requires
        pre.wf(),
    ensures
        Stmt::parse_spec(pre).consumes_from(pre),
{
    lemma_alternation::<Stmt>(pre);
    lemma_stmt_forms_consume(pre);
}

impl Parse for Stmt {
    open spec fn parse_spec(pre: StreamState) -> Outcome<StmtModel> {
        alternation_spec::<Stmt>(pre)
    }

    proof fn lemma_parse_spec(pre: StreamState) {
        lemma_alternation::<Stmt>(pre);
    }

    fn parse(stream: &mut ParseStream<'_>) -> (r: Result<Self, ParseStreamError>) {
        first_match::<Stmt>(stream)
    }
}

/// A program: statements up to the end of the text, with blanks between
/// them. The first statement that cannot be read is the failure of the
/// whole.
#[verifier::opaque]
pub open spec fn program_spec(pre: StreamState) -> Outcome<Seq<StmtModel>>
    decreases pre.code.len(),
    when pre.wf()
{
    if pre.code.len() == 0 {
        Outcome::Parsed { value: Seq::empty(), rest: pre }
    } else {
        match Stmt::parse_spec(pre) {
            Outcome::Failed(failure) => Outcome::Failed(failure),
            Outcome::Parsed { value, rest } => {
                proof {
                    lemma_stmt_consumes(pre);
                    rest.lemma_trimmed();
                }
                match program_spec(rest.trimmed()) {
                    Outcome::Failed(failure) => Outcome::Failed(failure),
                    Outcome::Parsed { value: more, rest: end } => Outcome::Parsed {
                        value: seq![value] + more,
                        rest: end,
                    },
                }
            },
        }
    }
}

/// The outcome `outcome` of the rest of a program, with the statements
/// `done` that were read before it put in front.
pub open spec fn after_statements(done: Seq<StmtModel>, outcome: Outcome<Seq<StmtModel>>) -> Outcome<
    Seq<StmtModel>,
> {
    match outcome {
        Outcome::Parsed { value, rest } => Outcome::Parsed { value: done + value, rest },
        Outcome::Failed(failure) => Outcome::Failed(failure),
    }
}

/// A program that begins with a statement is that statement and the
/// program that follows the blanks after it; and that program is shorter.
pub proof fn lemma_program_step(pre: StreamState)
    requires
        pre.wf(),
        pre.code.len() > 0,
    ensures
        match Stmt::parse_spec(pre) {
            Outcome::Failed(failure) => program_spec(pre) == Outcome::<Seq<StmtModel>>::Failed(
                failure,
            ),
            Outcome::Parsed { value, rest } => rest.wf() && rest.trimmed().wf()
                && rest.trimmed().code.len() < pre.code.len() && program_spec(pre)
                == after_statements(seq![value], program_spec(rest.trimmed())),
        },
{
    reveal(program_spec);
    lemma_stmt_consumes(pre);
    if let Outcome::Parsed { rest, .. } = Stmt::parse_spec(pre) {
        rest.lemma_trimmed();
    }
}

/// The program in an empty text is empty.
pub proof fn lemma_program_end(pre: StreamState)
    requires
        pre.wf(),
        pre.code.len() == 0,
    ensures
        program_spec(pre) == (Outcome::Parsed { value: Seq::<StmtModel>::empty(), rest: pre }),
{
    reveal(program_spec);
}

/// Reads one statement of a program and the blanks after it.
fn parse_statement(stream: &mut ParseStream<'_>) -> (r: Result<Stmt, ParseStreamError>)
    requires
        old(stream).wf(),
        old(stream)@.code.len() > 0,
    ensures
        final(stream).wf(),
        match r {
            Ok(stmt) => final(stream)@.code.len() < old(stream)@.code.len() && program_spec(
                old(stream)@,
            ) == after_statements(seq![stmt.deep_view()], program_spec(final(stream)@)),
            Err(error) => program_spec(old(stream)@) == Outcome::<Seq<StmtModel>>::Failed(error@),
        },
{
    proof {
        lemma_program_step(stream@);
    }
    let stmt = Stmt::parse(stream)?;
    stream.trim();
    Ok(stmt)
}

/// Putting statements in front in two steps is putting them in front at
/// once.
pub proof fn lemma_after_statements(
    done: Seq<StmtModel>,
    next: StmtModel,
    outcome: Outcome<Seq<StmtModel>>,
)
    ensures
        after_statements(done, after_statements(seq![next], outcome)) == after_statements(
            done.push(next),
            outcome,
        ),
{
    if let Outcome::Parsed { value, .. } = outcome {
        assert(done + (seq![next] + value) =~= done.push(next) + value);
    }
}

/// Reads a whole program from `code`.
pub fn parse_program(code: &str) -> (r: Result<Vec<Stmt>, ParseStreamError>)
    requires
        code@.len() + 2 <= usize::MAX,
    ensures
        match r {
            Ok(stmts) => program_spec(StreamState::start(code@)) matches Outcome::Parsed {
                value,
                ..
            } && value == stmts.deep_view(),
            Err(error) => program_spec(StreamState::start(code@)) == Outcome::<
                Seq<StmtModel>,
            >::Failed(error@),
        },
{
    let mut stream = ParseStream::new(code);
    let mut stmts: Vec<Stmt> = Vec::new();
    let ghost start = stream@;
    proof {
        if let Outcome::Parsed { value, .. } = program_spec(start) {
        }
    }
    while !stream.is_empty()
        invariant
            stream.wf(),
            start == StreamState::start(code@),
            start.wf(),
            program_spec(start) == after_statements(stmts.deep_view(), program_spec(stream@)),
        decreases stream@.code.len(),
    {
        let stmt = match parse_statement(&mut stream) {
            Ok(stmt) => stmt,
            Err(error) => {
                return Err(error);
            },
        };
        let ghost sofar = stmts.deep_view();
        stmts.push(stmt);
        proof {
            assert(stmts.deep_view() =~= sofar.push(stmt.deep_view()));
            lemma_after_statements(sofar, stmt.deep_view(), program_spec(stream@));
        }
    }
    proof {
        lemma_program_end(stream@);
    }
    Ok(stmts)
}

} // verus!
