//! Values written back as source text.

use crate::parse::expr::{exprs_model, Expr, ExprModel};
use crate::parse::punctuated::Punctuated;
use crate::parse::signature::{Arg, ArgModel, Signature, SignatureModel};
use crate::parse::span::{DoubleQuotedModel, DoubleQuotedString, Ident, IdentModel};
use crate::parse::stmt::extern_function::{ExternFnModel, ExternFnStmt, FFILanguage};
use crate::parse::stmt::function::{FnBody, FnBodyModel, FnModel, FnStmt};
use crate::parse::ty::{MAX_SIGNS, Muts, Type, TypeModel};
use crate::parse::typed_variable::{TypedVariables, TypedVariablesModel};
use crate::parse::x_times::{XTimes, XTimesModel};
use crate::span::{CursorPosition, Span};
use crate::text::{decimal, push_decimal};
use vstd::prelude::*;
use vstd::string::*;

verus! {

/// A type whose values can be written as text.
pub trait Render: DeepView {
    /// The text that stands for a value.
    spec fn rendered(model: Self::V) -> Seq<char>;

    /// Writes the value as text.
    fn render(&self) -> (r: String)
        ensures
            r@ == Self::rendered(self.deep_view()),
    ;
}

impl CursorPosition {
    /// Line and column with a colon between them.
    pub open spec fn debug_spec(self) -> Seq<char> {
        decimal(self.line as nat) + ":"@ + decimal(self.column as nat)
    }

    /// Writes the position as `line:column`.
    pub fn debug(&self) -> (r: String)
        ensures
            r@ == self.debug_spec(),
    {
        let mut out = String::new();
        push_decimal(&mut out, self.line as u128);
        out.append(":");
        push_decimal(&mut out, self.column as u128);
        out
    }
}

impl Span {
    /// The two ends with `..` between them, in `Span(` and `)`.
    pub open spec fn debug_spec(self) -> Seq<char> {
        "Span("@ + self.start.debug_spec() + ".."@ + self.end.debug_spec() + ")"@
    }

    /// Writes the range as `Span(start..end)`.
    pub fn debug(&self) -> (r: String)
        ensures
            r@ == self.debug_spec(),
    {
        let mut out = String::from_str("Span(");
        out.append(self.start.debug().as_str());
        out.append("..");
        out.append(self.end.debug().as_str());
        out.append(")");
        out
    }
}

/// A text as the standard library writes it for inspection: between double
/// quotes, with escapes for the characters that need them.
pub uninterp spec fn debug_quoted(text: Seq<char>) -> Seq<char>;

/// `<str as Debug>::fmt` of the standard library writes a text between
/// double quotes and escapes what cannot stand there as it is. What it
/// writes depends on the text alone, and is given the name
/// [`debug_quoted`] here.
#[verifier::external_body]
fn quote(text: &str) -> (r: String)
    ensures
        r@ == debug_quoted(text@),
{
    format!("{:?}", text)
}

impl IdentModel {
    /// The name in quotes and the range, in `Ident { ` and ` }`.
    pub open spec fn debug_spec(self) -> Seq<char> {
        "Ident { name: "@ + debug_quoted(self.name) + ", span: "@ + self.span().debug_spec()
            + " }"@
    }
}

impl Ident {
    /// Writes the name for inspection, with its range.
    pub fn debug(&self) -> (r: String)
        requires
            self.start.column + self.name@.len() <= usize::MAX,
        ensures
            r@ == self.deep_view().debug_spec(),
    {
        let mut out = String::from_str("Ident { name: ");
        out.append(quote(self.name.as_str()).as_str());
        out.append(", span: ");
        out.append(self.span().debug().as_str());
        out.append(" }");
        out
    }
}

impl DoubleQuotedModel {
    /// The text in quotes and the range, in `DoubleQuotedString { ` and ` }`.
    pub open spec fn debug_spec(self) -> Seq<char> {
        "DoubleQuotedString { value: "@ + debug_quoted(self.value) + ", span: "@
            + self.span().debug_spec() + " }"@
    }
}

impl DoubleQuotedString {
    /// Writes the text for inspection, with its range.
    pub fn debug(&self) -> (r: String)
        requires
            self.start.column + self.value@.len() + 2 <= usize::MAX,
        ensures
            r@ == self.deep_view().debug_spec(),
    {
        let mut out = String::from_str("DoubleQuotedString { value: ");
        out.append(quote(self.value.as_str()).as_str());
        out.append(", span: ");
        out.append(self.span().debug().as_str());
        out.append(" }");
        out
    }
}

impl Render for Ident {
    /// A name is written as it reads.
    open spec fn rendered(model: IdentModel) -> Seq<char> {
        model.name
    }

    fn render(&self) -> (r: String) {
        self.name.clone()
    }
}

/// The texts of `models`, with `separator` and a blank between each two.
pub open spec fn list_text<T: Render>(models: Seq<T::V>, separator: char) -> Seq<char>
    decreases models.len(),
{
    if models.len() == 0 {
        Seq::empty()
    } else if models.len() == 1 {
        T::rendered(models[0])
    } else {
        list_text::<T>(models.drop_last(), separator) + seq![separator] + " "@ + T::rendered(
            models.last(),
        )
    }
}

impl<T: Render> Punctuated<T> {
    /// Writes the values with `separator` and a blank between each two.
    pub fn debug(&self, separator: char) -> (r: String)
        ensures
            r@ == list_text::<T>(self.deep_view(), separator),
    {
        let mut out = String::new();
        let mut i: usize = 0;
        let ghost all = self.deep_view();
        while i < self.0.len()
            invariant
                i <= self.0@.len(),
                all == self.deep_view(),
                all.len() == self.0@.len(),
                out@ == list_text::<T>(all.take(i as int), separator),
            decreases self.0@.len() - i,
        {
            if i > 0 {
                out.push(separator);
                out.append(" ");
            }
            out.append(self.0[i].render().as_str());
            i = i + 1;
            proof {
                let now = all.take(i as int);
                assert(now.drop_last() =~= all.take(i - 1));
            }
        }
        assert(all.take(i as int) =~= all);
        out
    }
}

impl Muts {
    /// Whether `mut` follows sign `index`; no sign beyond the eighth has one.
    pub open spec fn is_mutable(self, index: u8) -> bool {
        index < MAX_SIGNS && (self.muts >> index) & 1 != 0
    }

    /// The first `upto` signs of the run, written with `symbol`; `mut` and a
    /// blank follow a sign that has it.
    pub open spec fn debug_upto(self, symbol: char, upto: nat) -> Seq<char>
        decreases upto,
    {
        if upto == 0 {
            Seq::empty()
        } else {
            self.debug_upto(symbol, (upto - 1) as nat) + seq![symbol] + (if self.is_mutable(
                (upto - 1) as u8,
            ) {
                "mut "@
            } else {
                Seq::empty()
            })
        }
    }

    /// The run written with `symbol`.
    pub open spec fn debug_spec(self, symbol: char) -> Seq<char> {
        self.debug_upto(symbol, self.len as nat)
    }

    /// Writes the run with `symbol`: `&mut &` for two signs of which the
    /// first has `mut`.
    pub fn debug(&self, symbol: char) -> (r: String)
        ensures
            r@ == self.debug_spec(symbol),
    {
        let mut out = String::new();
        let mut i: u8 = 0;
        while i < self.len
            invariant
                i <= self.len,
                out@ == self.debug_upto(symbol, i as nat),
            decreases self.len - i,
        {
            out.push(symbol);
            let is_mutable = i < MAX_SIGNS && ((self.muts >> i) & 1) != 0;
            if is_mutable {
                out.append("mut ");
            }
            i = i + 1;
        }
        out
    }
}

impl Render for Type {
    /// The signs `&`, the signs `*`, and the name.
    open spec fn rendered(model: TypeModel) -> Seq<char> {
        model.refs.debug_spec('&') + model.ptrs.debug_spec('*') + model.name.name
    }

    fn render(&self) -> (r: String) {
        let mut out = self.refs.debug('&');
        out.append(self.ptrs.debug('*').as_str());
        out.append(self.name.name.as_str());
        out
    }
}

/// The names of `names`, with a blank between each two.
pub open spec fn names_text(names: Seq<IdentModel>) -> Seq<char>
    decreases names.len(),
{
    if names.len() == 0 {
        Seq::empty()
    } else if names.len() == 1 {
        names[0].name
    } else {
        names_text(names.drop_last()) + " "@ + names.last().name
    }
}

impl Render for TypedVariables {
    /// The names, `: `, and the type.
    open spec fn rendered(model: TypedVariablesModel) -> Seq<char> {
        names_text(model.names) + ": "@ + Type::rendered(model.ty)
    }

    fn render(&self) -> (r: String) {
        let mut out = String::new();
        let mut i: usize = 0;
        let ghost all = self.names.deep_view();
        while i < self.names.len()
            invariant
                i <= self.names@.len(),
                all == self.names.deep_view(),
                all.len() == self.names@.len(),
                out@ == names_text(all.take(i as int)),
            decreases self.names@.len() - i,
        {
            if i > 0 {
                out.append(" ");
            }
            out.append(self.names[i].name.as_str());
            i = i + 1;
            proof {
                let now = all.take(i as int);
                assert(now.drop_last() =~= all.take(i - 1));
            }
        }
        assert(all.take(i as int) =~= all);
        out.append(": ");
        out.append(self.ty.render().as_str());
        out
    }
}

impl<T: Render, const IS_NO_X_ALLOWED: bool> Render for XTimes<T, IS_NO_X_ALLOWED> {
    /// The value; and ` x ` and the count behind it, unless the count is 1.
    open spec fn rendered(model: XTimesModel<T::V>) -> Seq<char> {
        if model.times != 1 {
            T::rendered(model.it) + " x "@ + decimal(model.times as nat)
        } else {
            T::rendered(model.it)
        }
    }

    fn render(&self) -> (r: String) {
        let mut out = self.it.render();
        if self.times != 1 {
            out.append(" x ");
            push_decimal(&mut out, self.times as u128);
        }
        out
    }
}

impl Render for Arg {
    /// A parameter is written as what it holds is.
    open spec fn rendered(model: ArgModel) -> Seq<char> {
        match model {
            ArgModel::Named(named) => TypedVariables::rendered(named),
            ArgModel::Unnamed(unnamed) => XTimes::<Type, true>::rendered(unnamed),
        }
    }

    fn render(&self) -> (r: String) {
        match self {
            Arg::Named(named) => named.render(),
            Arg::Unnamed(unnamed) => unnamed.render(),
        }
    }
}

impl Render for Signature {
    /// The parameters in `(` and `)` with `, ` between them; then ` -> `
    /// and the type of the result, if one is named.
    open spec fn rendered(model: SignatureModel) -> Seq<char> {
        match model.return_ty {
            Some(ty) => "("@ + list_text::<Arg>(model.args, ',') + ")"@ + " -> "@ + Type::rendered(
                ty,
            ),
            None => "("@ + list_text::<Arg>(model.args, ',') + ")"@,
        }
    }

    fn render(&self) -> (r: String) {
        let mut out = String::from_str("(");
        out.append(self.args.debug(',').as_str());
        out.append(")");
        if let Some(ty) = &self.return_ty {
            out.append(" -> ");
            out.append(ty.render().as_str());
        }
        out
    }
}

/// An expression as text: a call as `f(a, b)`, a block as `{ a b }`.
pub open spec fn expr_text(expr: ExprModel) -> Seq<char>
    decreases expr, 0nat,
{
    match expr {
        ExprModel::Call(call) => call.fun.name + "("@ + args_text(call.args, call.args.len())
            + ")"@,
        ExprModel::Block(block) => "{ "@ + body_text(
            block.expressions,
            block.expressions.len(),
        ) + "}"@,
    }
}

/// The first `upto` arguments of a call as text, with `, ` between each two.
pub open spec fn args_text(args: Seq<ExprModel>, upto: nat) -> Seq<char>
    decreases args, upto,
{
    if upto == 0 || upto > args.len() {
        Seq::empty()
    } else if upto == 1 {
        expr_text(args[0])
    } else {
        args_text(args, (upto - 1) as nat) + ", "@ + expr_text(args[upto - 1])
    }
}

/// The first `upto` expressions of a block as text, with a blank behind
/// each.
pub open spec fn body_text(exprs: Seq<ExprModel>, upto: nat) -> Seq<char>
    decreases exprs, upto,
{
    if upto == 0 || upto > exprs.len() {
        Seq::empty()
    } else {
        body_text(exprs, (upto - 1) as nat) + expr_text(exprs[upto - 1]) + " "@
    }
}

/// Writes an expression as text.
pub fn render_expr(expr: &Expr) -> (r: String)
    ensures
        r@ == expr_text(expr.deep_view()),
    decreases expr, 0nat,
{
    match expr {
        Expr::Call(call) => {
            let mut out = call.fun.name.clone();
            out.append("(");
            out.append(render_args(&call.args.0, call.args.0.len()).as_str());
            out.append(")");
            out
        },
        Expr::Block(block) => {
            let mut out = String::from_str("{ ");
            out.append(render_body(&block.expressions, block.expressions.len()).as_str());
            out.append("}");
            out
        },
    }
}

/// Writes the first `upto` arguments of a call as text.
fn render_args(args: &Vec<Expr>, upto: usize) -> (r: String)
    requires
        upto <= args@.len(),
    ensures
        r@ == args_text(exprs_model(args@), upto as nat),
    decreases args, upto,
{
    if upto == 0 {
        return String::new();
    }
    let last = render_expr(&args[upto - 1]);
    if upto == 1 {
        return last;
    }
    let mut out = render_args(args, upto - 1);
    out.append(", ");
    out.append(last.as_str());
    out
}

/// Writes the first `upto` expressions of a block as text.
fn render_body(exprs: &Vec<Expr>, upto: usize) -> (r: String)
    requires
        upto <= exprs@.len(),
    ensures
        r@ == body_text(exprs_model(exprs@), upto as nat),
    decreases exprs, upto,
{
    if upto == 0 {
        return String::new();
    }
    let mut out = render_body(exprs, upto - 1);
    out.append(render_expr(&exprs[upto - 1]).as_str());
    out.append(" ");
    out
}

impl Render for Expr {
    open spec fn rendered(model: ExprModel) -> Seq<char> {
        expr_text(model)
    }

    fn render(&self) -> (r: String) {
        render_expr(self)
    }
}

impl Render for FFILanguage {
    /// The word that names the language.
    open spec fn rendered(model: FFILanguage) -> Seq<char> {
        "clang"@
    }

    fn render(&self) -> (r: String) {
        String::from_str(self.name())
    }
}

impl Render for ExternFnStmt {
    /// `extern`, the language and the signature, with blanks between them.
    open spec fn rendered(model: ExternFnModel) -> Seq<char> {
        "extern "@ + FFILanguage::rendered(model.lang) + " "@ + Signature::rendered(model.sig)
    }

    fn render(&self) -> (r: String) {
        let mut out = String::from_str("extern ");
        out.append(self.lang.render().as_str());
        out.append(" ");
        out.append(self.sig.render().as_str());
        out
    }
}

impl Render for FnBody {
    /// The signature, a blank and the body; or ` = ` and the literal
    /// between two `"`, as it stood.
    open spec fn rendered(model: FnBodyModel) -> Seq<char> {
        match model {
            FnBodyModel::Defined { sig, body } => Signature::rendered(sig) + " "@ + expr_text(body),
            FnBodyModel::Literal(literal) => " = \""@ + literal.value + "\""@,
        }
    }

    fn render(&self) -> (r: String) {
        match self {
            FnBody::Defined { sig, body } => {
                let mut out = sig.render();
                out.append(" ");
                out.append(body.render().as_str());
                out
            },
            FnBody::Literal(literal) => {
                let mut out = String::from_str(" = \"");
                out.append(literal.value.as_str());
                out.append("\"");
                out
            },
        }
    }
}

impl Render for FnStmt {
    /// `fn`, the name, and what stands behind it.
    open spec fn rendered(model: FnModel) -> Seq<char> {
        "fn "@ + model.name.name + FnBody::rendered(model.body)
    }

    fn render(&self) -> (r: String) {
        let mut out = String::from_str("fn ");
        out.append(self.name.name.as_str());
        out.append(self.body.render().as_str());
        out
    }
}

} // verus!
