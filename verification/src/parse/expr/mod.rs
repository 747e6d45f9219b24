//! Expressions: calls and blocks. An expression may hold expressions, so
//! its parsers call one another; each call works on a text that is shorter
//! than the one its caller was given.

use crate::parse::alternation::{
    alternation_spec, deeper_of, deepest, failures_upto, first_match_from, lemma_first_match_from,
    Alternatives,
};
use crate::parse::outcome::{fulfils, Outcome, Parse, ParseStreamError};
use crate::parse::punctuated::{at_least_one, punctuated_more, punctuated_spec, Punctuated};
use crate::parse::sequences::many_spec;
use crate::parse::span::{lemma_ident_sound, Ident, IdentModel};
use crate::parse::stream::{ParseStream, StreamState};
use crate::parse::tokens::{lemma_punct_consumes, punct_spec};
use vstd::prelude::*;
use vstd::string::*;

verus! {

broadcast use {
    crate::parse::stream::lemma_precedes_chain,
    crate::parse::stream::lemma_precedes_self,
};

/// An expression.
#[derive(Debug)]
pub enum Expr {
    Call(Box<CallExpr>),
    Block(Box<BlockExpr>),
}

/// A call: `f(a, b)`.
#[derive(Debug)]
pub struct CallExpr {
    pub fun: Ident,
    pub args: Punctuated<Expr>,
}

/// A block: `{ a b }`.
#[derive(Debug)]
pub struct BlockExpr {
    pub expressions: Vec<Expr>,
}

/// An [`Expr`] as a mathematical value.
pub ghost enum ExprModel {
    Call(CallModel),
    Block(BlockModel),
}

/// A [`CallExpr`] as a mathematical value.
pub ghost struct CallModel {
    pub fun: IdentModel,
    pub args: Seq<ExprModel>,
}

/// A [`BlockExpr`] as a mathematical value.
pub ghost struct BlockModel {
    pub expressions: Seq<ExprModel>,
}

/// The mathematical value of an expression.
pub open spec fn expr_model(expr: Expr) -> ExprModel
    decreases expr,
{
    match expr {
        Expr::Call(call) => ExprModel::Call(
            CallModel { fun: call.fun.deep_view(), args: exprs_model(call.args.0@) },
        ),
        Expr::Block(block) => ExprModel::Block(
            BlockModel { expressions: exprs_model(block.expressions@) },
        ),
    }
}

/// The mathematical values of a sequence of expressions.
pub open spec fn exprs_model(exprs: Seq<Expr>) -> Seq<ExprModel>
    decreases exprs,
{
    Seq::new(
        exprs.len(),
        |i: int|
            if 0 <= i < exprs.len() {
                expr_model(exprs[i])
            } else {
                arbitrary()
            },
    )
}

impl DeepView for Expr {
    type V = ExprModel;

    open spec fn deep_view(&self) -> ExprModel {
        expr_model(*self)
    }
}

impl DeepView for CallExpr {
    type V = CallModel;

    open spec fn deep_view(&self) -> CallModel {
        CallModel { fun: self.fun.deep_view(), args: exprs_model(self.args.0@) }
    }
}

impl DeepView for BlockExpr {
    type V = BlockModel;

    open spec fn deep_view(&self) -> BlockModel {
        BlockModel { expressions: exprs_model(self.expressions@) }
    }
}

/// An expression is a call if a call can be read, and else a block. Where
/// neither can, the failure that got further is reported, and of two that
/// got equally far that of the block.
pub open spec fn expr_spec(pre: StreamState) -> Outcome<ExprModel>
    decreases pre.code.len(), 2int,
{
    match call_spec(pre) {
        Outcome::Parsed { value, rest } => Outcome::Parsed { value: ExprModel::Call(value), rest },
        Outcome::Failed(call_failure) => match block_spec(pre) {
            Outcome::Parsed { value, rest } => Outcome::Parsed {
                value: ExprModel::Block(value),
                rest,
            },
            Outcome::Failed(block_failure) => Outcome::Failed(
                deeper_of(call_failure, block_failure),
            ),
        },
    }
}

/// A call is a name, `(`, arguments with `,` between them, of which there
/// is one at least, and `)`.
pub open spec fn call_spec(pre: StreamState) -> Outcome<CallModel>
    decreases pre.code.len(), 1int,
    when pre.wf()
{
    match Ident::parse_spec(pre) {
        Outcome::Failed(failure) => Outcome::Failed(failure),
        Outcome::Parsed { value: fun, rest: named } => match punct_spec(named, "("@) {
            Outcome::Failed(failure) => Outcome::Failed(failure),
            Outcome::Parsed { rest: opened, .. } => {
                proof {
                    lemma_ident_sound(pre);
                    lemma_punct_consumes(named, "("@);
                }
                match call_args_spec(opened) {
                    Outcome::Failed(failure) => Outcome::Failed(failure),
                    Outcome::Parsed { value: args, rest: listed } => match punct_spec(
                        listed,
                        ")"@,
                    ) {
                        Outcome::Failed(failure) => Outcome::Failed(failure),
                        Outcome::Parsed { rest, .. } => Outcome::Parsed {
                            value: CallModel { fun, args },
                            rest,
                        },
                    },
                }
            },
        },
    }
}

/// The arguments of a call: expressions with `,` between them as in a
/// punctuated sequence that must not be empty. (The comparison of lengths
/// is always true, by [`lemma_expr_consumes`]; it is there to show that the
/// definition is well founded.)
pub open spec fn call_args_spec(pre: StreamState) -> Outcome<Seq<ExprModel>>
    decreases pre.code.len(), 4int,
{
    match expr_spec(pre) {
        Outcome::Failed(failure) => Outcome::Failed(
            failure.expecting(at_least_one(failure.expected)),
        ),
        Outcome::Parsed { value, rest } => if rest.code.len() <= pre.code.len() {
            let more = call_args_more(rest);
            Outcome::Parsed { value: seq![value] + more.0, rest: more.1 }
        } else {
            Outcome::Parsed { value: seq![value], rest }
        },
    }
}

/// What follows an argument: as long as `,` and another expression can be
/// read, they are; a `,` that no expression follows is read too. (The
/// comparison of lengths is always true, as in [`call_args_spec`].)
pub open spec fn call_args_more(after: StreamState) -> (Seq<ExprModel>, StreamState)
    decreases after.code.len(), 3int,
    when after.wf()
{
    match punct_spec(after, ","@) {
        Outcome::Failed(_) => (Seq::empty(), after),
        Outcome::Parsed { rest: at, .. } => {
            proof {
                lemma_punct_consumes(after, ","@);
            }
            match expr_spec(at) {
                Outcome::Failed(_) => (Seq::empty(), at),
                Outcome::Parsed { value, rest } => if rest.code.len() < after.code.len() {
                    let more = call_args_more(rest);
                    (seq![value] + more.0, more.1)
                } else {
                    (seq![value], rest)
                },
            }
        },
    }
}

/// A block is `{`, as many expressions as can be read, and `}`.
pub open spec fn block_spec(pre: StreamState) -> Outcome<BlockModel>
    decreases pre.code.len(), 1int,
    when pre.wf()
{
    match punct_spec(pre, "{"@) {
        Outcome::Failed(failure) => Outcome::Failed(failure),
        Outcome::Parsed { rest: opened, .. } => {
            proof {
                lemma_punct_consumes(pre, "{"@);
                opened.lemma_trimmed();
            }
            let body = block_body_spec(opened.trimmed());
            match punct_spec(body.1, "}"@) {
                Outcome::Failed(failure) => Outcome::Failed(failure),
                Outcome::Parsed { rest, .. } => Outcome::Parsed {
                    value: BlockModel { expressions: body.0 },
                    rest,
                },
            }
        },
    }
}

/// The expressions that can be read one after the other from `pre`, and the
/// state where the first that cannot was tried. (The comparison of lengths
/// is always true, as in [`call_args_spec`].)
pub open spec fn block_body_spec(pre: StreamState) -> (Seq<ExprModel>, StreamState)
    decreases pre.code.len(), 3int,
{
    match expr_spec(pre) {
        Outcome::Failed(_) => (Seq::empty(), pre),
        Outcome::Parsed { value, rest } => if rest.code.len() < pre.code.len() {
            let more = block_body_spec(rest);
            (seq![value] + more.0, more.1)
        } else {
            (seq![value], rest)
        },
    }
}

/// After `=` an expression of either form; without `=` a block.
pub open spec fn single_or_block_spec(pre: StreamState) -> Outcome<ExprModel> {
    match punct_spec(pre, "="@) {
        Outcome::Parsed { rest, .. } => expr_spec(rest),
        Outcome::Failed(_) => match block_spec(pre) {
            Outcome::Parsed { value, rest } => Outcome::Parsed {
                value: ExprModel::Block(value),
                rest,
            },
            Outcome::Failed(failure) => Outcome::Failed(failure),
        },
    }
}

/// An expression that is read takes at least one character.
pub proof fn lemma_expr_consumes(pre: StreamState)
    requires
        pre.wf(),
    ensures
        expr_spec(pre) matches Outcome::Parsed { rest, .. } ==> rest.wf() && pre.precedes(rest)
            && rest.code.len() < pre.code.len(),
    decreases pre.code.len(), 2int,
{
    lemma_call_consumes(pre);
    lemma_block_consumes(pre);
}

/// A call that is read takes at least one character.
pub proof fn lemma_call_consumes(pre: StreamState)
    requires
        pre.wf(),
    ensures
        call_spec(pre) matches Outcome::Parsed { rest, .. } ==> rest.wf() && pre.precedes(rest)
            && rest.code.len() < pre.code.len(),
    decreases pre.code.len(), 1int,
{
    lemma_ident_sound(pre);
    if let Outcome::Parsed { rest: named, .. } = Ident::parse_spec(pre) {
        lemma_punct_consumes(named, "("@);
        if let Outcome::Parsed { rest: opened, .. } = punct_spec(named, "("@) {
            lemma_call_args_sound(opened);
            if let Outcome::Parsed { rest: listed, .. } = call_args_spec(opened) {
                lemma_punct_consumes(listed, ")"@);
            }
        }
    }
}

/// Reading the arguments of a call only moves forward.
pub proof fn lemma_call_args_sound(pre: StreamState)
    requires
        pre.wf(),
    ensures
        call_args_spec(pre).sound_from(pre),
    decreases pre.code.len(), 4int,
{
    lemma_expr_consumes(pre);
    if let Outcome::Parsed { rest, .. } = expr_spec(pre) {
        lemma_call_args_more_sound(rest);
    }
}

/// Reading what follows an argument only moves forward.
pub proof fn lemma_call_args_more_sound(after: StreamState)
    requires
        after.wf(),
    ensures
        call_args_more(after).1.wf(),
        after.precedes(call_args_more(after).1),
    decreases after.code.len(), 3int,
{
    lemma_punct_consumes(after, ","@);
    if let Outcome::Parsed { rest: at, .. } = punct_spec(after, ","@) {
        lemma_expr_consumes(at);
        if let Outcome::Parsed { rest, .. } = expr_spec(at) {
            lemma_call_args_more_sound(rest);
        }
    }
}

/// A block that is read takes its two brackets at least.
pub proof fn lemma_block_consumes(pre: StreamState)
    requires
        pre.wf(),
    ensures
        block_spec(pre) matches Outcome::Parsed { rest, .. } ==> rest.wf() && pre.precedes(rest)
            && rest.code.len() < pre.code.len(),
    decreases pre.code.len(), 1int,
{
    lemma_punct_consumes(pre, "{"@);
    if let Outcome::Parsed { rest: opened, .. } = punct_spec(pre, "{"@) {
        opened.lemma_trimmed();
        lemma_block_body_sound(opened.trimmed());
        lemma_punct_consumes(block_body_spec(opened.trimmed()).1, "}"@);
    }
}

/// Reading the expressions of a block only moves forward.
pub proof fn lemma_block_body_sound(pre: StreamState)
    requires
        pre.wf(),
    ensures
        block_body_spec(pre).1.wf(),
        pre.precedes(block_body_spec(pre).1),
    decreases pre.code.len(), 3int,
{
    lemma_expr_consumes(pre);
    if let Outcome::Parsed { rest, .. } = expr_spec(pre) {
        lemma_block_body_sound(rest);
    }
}

/// Reading the body of a definition only moves forward.
pub proof fn lemma_single_or_block(pre: StreamState)
    requires
        pre.wf(),
    ensures
        single_or_block_spec(pre) matches Outcome::Parsed { rest, .. } ==> rest.wf()
            && pre.precedes(rest) && rest.code.len() < pre.code.len(),
{
    lemma_punct_consumes(pre, "="@);
    if let Outcome::Parsed { rest, .. } = punct_spec(pre, "="@) {
        lemma_expr_consumes(rest);
    }
    lemma_block_consumes(pre);
}

impl Alternatives for Expr {
    open spec fn count() -> nat {
        2
    }

    open spec fn variant_spec(index: nat, pre: StreamState) -> Outcome<ExprModel> {
        if index == 0 {
            call_spec(pre).map(|call: CallModel| ExprModel::Call(call))
        } else {
            block_spec(pre).map(|block: BlockModel| ExprModel::Block(block))
        }
    }

    proof fn lemma_variant_spec(index: nat, pre: StreamState) {
        lemma_call_consumes(pre);
        lemma_block_consumes(pre);
    }

    fn variants() -> (n: usize) {
        2
    }

    fn variant(index: usize, stream: &mut ParseStream<'_>) -> (r: Result<Self, ParseStreamError>) {
        if index == 0 {
            match parse_call(stream) {
                Ok(call) => Ok(Expr::Call(Box::new(call))),
                Err(error) => Err(error),
            }
        } else {
            match parse_block(stream) {
                Ok(block) => Ok(Expr::Block(Box::new(block))),
                Err(error) => Err(error),
            }
        }
    }
}

/// An expression is one of two forms, tried in order: a call, and a block.
pub proof fn lemma_expr_is_alternation(pre: StreamState)
    requires
        pre.wf(),
    ensures
        expr_spec(pre) == alternation_spec::<Expr>(pre),
{
    lemma_first_match_from::<Expr>(pre, 0);
    if call_spec(pre) is Failed && block_spec(pre) is Failed {
        let failures = failures_upto::<Expr>(pre, 2);
        assert(failures.len() == 2);
        assert(failures.drop_last() =~= seq![failures[0]]);
        assert(deepest(failures.drop_last()) == failures[0]);
        assert(deepest(failures) == deeper_of(failures[0], failures[1]));
    } else if call_spec(pre) is Parsed {
        assert(first_match_from::<Expr>(pre, 0) == Some(0nat));
    } else {
        assert(Expr::variant_spec(0, pre) is Failed);
        assert(first_match_from::<Expr>(pre, 1) == Some(1nat));
        assert(first_match_from::<Expr>(pre, 0) == Some(1nat));
    }
}

/// What follows an argument of a call is what follows a value of a
/// sequence of expressions punctuated by `,`.
pub proof fn lemma_call_args_more_is_punctuated(after: StreamState)
    requires
        after.wf(),
    ensures
        call_args_more(after) == punctuated_more::<Expr>(after, ','),
    decreases after.code.len(),
{
    reveal_strlit(",");
    assert(","@ =~= seq![',']);
    lemma_punct_consumes(after, ","@);
    if let Outcome::Parsed { rest: at, .. } = punct_spec(after, ","@) {
        lemma_expr_consumes(at);
        if let Outcome::Parsed { rest, .. } = expr_spec(at) {
            lemma_call_args_more_is_punctuated(rest);
        }
    }
}

/// The arguments of a call are a sequence of expressions punctuated by
/// `,`, of which there must be one at least.
pub proof fn lemma_call_args_is_punctuated(pre: StreamState)
    requires
        pre.wf(),
    ensures
        call_args_spec(pre) == punctuated_spec::<Expr>(pre, ',', false),
{
    lemma_expr_consumes(pre);
    if let Outcome::Parsed { rest, .. } = expr_spec(pre) {
        lemma_call_args_more_is_punctuated(rest);
    }
}

/// The expressions of a block are as many expressions as can be read one
/// after the other.
pub proof fn lemma_block_body_is_many(pre: StreamState)
    requires
        pre.wf(),
    ensures
        block_body_spec(pre) == many_spec::<Expr>(pre),
    decreases pre.code.len(),
{
    lemma_expr_consumes(pre);
    if let Outcome::Parsed { rest, .. } = expr_spec(pre) {
        lemma_block_body_is_many(rest);
    }
}

/// Reads an expression; see [`expr_spec`].
pub fn parse_expr(stream: &mut ParseStream<'_>) -> (r: Result<Expr, ParseStreamError>)
    requires
        old(stream).wf(),
    ensures
        fulfils(expr_spec(old(stream)@), r, final(stream)@),
        final(stream).wf(),
        old(stream)@.precedes(final(stream)@),
        r is Err ==> *final(stream) == *old(stream),
        r is Ok ==> final(stream)@.code.len() < old(stream)@.code.len(),
    decreases old(stream)@.code.len(), 2int,
{
    let call_failure = match parse_call(stream) {
        Ok(call) => {
            return Ok(Expr::Call(Box::new(call)));
        },
        Err(failure) => failure,
    };
    let block_failure = match parse_block(stream) {
        Ok(block) => {
            return Ok(Expr::Block(Box::new(block)));
        },
        Err(failure) => failure,
    };
    if block_failure.parsing_depth.0 >= call_failure.parsing_depth.0 {
        Err(block_failure)
    } else {
        Err(call_failure)
    }
}

/// Reads a call; see [`call_spec`].
pub fn parse_call(stream: &mut ParseStream<'_>) -> (r: Result<CallExpr, ParseStreamError>)
    requires
        old(stream).wf(),
    ensures
        fulfils(call_spec(old(stream)@), r, final(stream)@),
        final(stream).wf(),
        old(stream)@.precedes(final(stream)@),
        r is Err ==> *final(stream) == *old(stream),
        r is Ok ==> final(stream)@.code.len() < old(stream)@.code.len(),
    decreases old(stream)@.code.len(), 1int,
{
    let mut fork = *stream;
    let fun = Ident::parse(&mut fork)?;
    proof {
        lemma_punct_consumes(fork@, "("@);
    }
    fork.punct("(")?;
    let args = parse_call_args(&mut fork)?;
    fork.punct(")")?;
    *stream = fork;
    assert(args.deep_view() =~= exprs_model(args.0@));
    Ok(CallExpr { fun, args })
}

/// Reads the arguments of a call; see [`call_args_spec`].
pub fn parse_call_args(stream: &mut ParseStream<'_>) -> (r: Result<
    Punctuated<Expr>,
    ParseStreamError,
>)
    requires
        old(stream).wf(),
    ensures
        fulfils(call_args_spec(old(stream)@), r, final(stream)@),
        final(stream).wf(),
        old(stream)@.precedes(final(stream)@),
        r is Err ==> *final(stream) == *old(stream),
    decreases old(stream)@.code.len(), 4int,
{
    let mut values: Vec<Expr> = Vec::new();
    match parse_expr(stream) {
        Ok(value) => {
            values.push(value);
        },
        Err(error) => {
            let expected = String::from_str("at least one ").concat(error.expected.as_str());
            return Err(error.with_custom_expected(expected));
        },
    }
    let ghost first = exprs_model(values@);
    let ghost after = stream@;
    assert(first =~= seq![expr_model(values@[0])]);
    loop
        invariant_except_break
            first + call_args_more(after).0 == exprs_model(values@) + call_args_more(stream@).0,
            call_args_more(after).1 == call_args_more(stream@).1,
        invariant
            stream.wf(),
            old(stream)@.precedes(stream@),
            stream@.code.len() < old(stream)@.code.len(),
        ensures
            stream.wf(),
            old(stream)@.precedes(stream@),
            first + call_args_more(after).0 == exprs_model(values@),
            call_args_more(after).1 == stream@,
        decreases stream@.code.len(),
    {
        let ghost before = stream@;
        proof {
            lemma_punct_consumes(before, ","@);
        }
        if stream.punct(",").is_err() {
            break ;
        }
        match parse_expr(stream) {
            Ok(value) => {
                values.push(value);
            },
            Err(_) => {
                break ;
            },
        }
    }
    let args = Punctuated(values);
    assert(args.deep_view() =~= exprs_model(values@));
    Ok(args)
}

/// Reads a block; see [`block_spec`].
pub fn parse_block(stream: &mut ParseStream<'_>) -> (r: Result<BlockExpr, ParseStreamError>)
    requires
        old(stream).wf(),
    ensures
        fulfils(block_spec(old(stream)@), r, final(stream)@),
        final(stream).wf(),
        old(stream)@.precedes(final(stream)@),
        r is Err ==> *final(stream) == *old(stream),
        r is Ok ==> final(stream)@.code.len() < old(stream)@.code.len(),
    decreases old(stream)@.code.len(), 1int,
{
    let mut fork = *stream;
    proof {
        lemma_punct_consumes(fork@, "{"@);
    }
    fork.punct("{")?;
    fork.trim();
    let mut expressions: Vec<Expr> = Vec::new();
    let ghost opened = fork@;
    loop
        invariant_except_break
            block_body_spec(opened).0 == exprs_model(expressions@) + block_body_spec(fork@).0,
            block_body_spec(opened).1 == block_body_spec(fork@).1,
        invariant
            fork.wf(),
            old(stream)@.precedes(fork@),
            fork@.code.len() < old(stream)@.code.len(),
            *stream == *old(stream),
        ensures
            fork.wf(),
            old(stream)@.precedes(fork@),
            fork@.code.len() < old(stream)@.code.len(),
            *stream == *old(stream),
            block_body_spec(opened).0 == exprs_model(expressions@),
            block_body_spec(opened).1 == fork@,
        decreases fork@.code.len(),
    {
        match parse_expr(&mut fork) {
            Ok(value) => {
                expressions.push(value);
            },
            Err(_) => {
                break ;
            },
        }
    }
    fork.punct("}")?;
    *stream = fork;
    Ok(BlockExpr { expressions })
}

impl Parse for Expr {
    open spec fn parse_spec(pre: StreamState) -> Outcome<ExprModel> {
        expr_spec(pre)
    }

    proof fn lemma_parse_spec(pre: StreamState) {
        lemma_expr_consumes(pre);
    }

    fn parse(stream: &mut ParseStream<'_>) -> (r: Result<Self, ParseStreamError>) {
        parse_expr(stream)
    }
}

impl Parse for CallExpr {
    open spec fn parse_spec(pre: StreamState) -> Outcome<CallModel> {
        call_spec(pre)
    }

    proof fn lemma_parse_spec(pre: StreamState) {
        lemma_call_consumes(pre);
    }

    fn parse(stream: &mut ParseStream<'_>) -> (r: Result<Self, ParseStreamError>) {
        parse_call(stream)
    }
}

impl Parse for BlockExpr {
    open spec fn parse_spec(pre: StreamState) -> Outcome<BlockModel> {
        block_spec(pre)
    }

    proof fn lemma_parse_spec(pre: StreamState) {
        lemma_block_consumes(pre);
    }

    fn parse(stream: &mut ParseStream<'_>) -> (r: Result<Self, ParseStreamError>) {
        parse_block(stream)
    }
}

impl Expr {
    /// Reads the body of a definition: after `=` an expression of either
    /// form, without `=` a block.
    pub fn single_or_block(stream: &mut ParseStream<'_>) -> (r: Result<Self, ParseStreamError>)
        requires
            old(stream).wf(),
        ensures
            fulfils(single_or_block_spec(old(stream)@), r, final(stream)@),
            final(stream).wf(),
            old(stream)@.precedes(final(stream)@),
            r is Err ==> *final(stream) == *old(stream),
    {
        let mut fork = *stream;
        let expr = if fork.punct("=").is_ok() {
            parse_expr(&mut fork)?
        } else {
            Expr::Block(Box::new(parse_block(&mut fork)?))
        };
        *stream = fork;
        Ok(expr)
    }
}

} // verus!
