//! The JavaScript that the compiler emits, as a small syntax tree.
//!
//! Expressions of the source program are not copied into the tree: a
//! [`JsExpr::Source`] names one by the identifier that the JSX model gave
//! it, and whoever prints the tree puts the source expression there.

use vstd::prelude::*;
use crate::jsx::{ExprKindV, JsxExpr, kind_view};

verus! {

broadcast use vstd::string::group_string_axioms;

/// A JavaScript expression.
#[derive(Debug, PartialEq)]
pub enum JsExpr {
    /// An identifier reference.
    Ident(String),
    /// A string literal.
    Str(String),
    /// A boolean literal.
    Bool(bool),
    /// `null`.
    Null,
    /// A template literal without substitutions, holding the raw text.
    TemplateLit(String),
    /// An expression of the source program, by its identifier and shape.
    Source(JsxExpr),
    /// The callee of the source call expression with the given identifier.
    SourceCallee(usize),
    /// A call; `pure` marks it `/*#__PURE__*/`.
    Call { callee: Box<JsExpr>, args: Vec<JsExpr>, pure: bool },
    /// A static member access `object.property`.
    Member { object: Box<JsExpr>, property: String },
    /// An assignment `target = value`.
    Assign { target: Box<JsExpr>, value: Box<JsExpr> },
    /// An arrow function; `expression` marks a body written as one expression.
    Arrow { params: Vec<String>, body: Vec<JsStmt>, expression: bool },
    /// A parenthesized expression.
    Paren(Box<JsExpr>),
    /// An array literal.
    Array(Vec<JsExpr>),
    /// An object literal.
    Object(Vec<JsProp>),
}

/// A property of an object literal: `key: value`, or a getter
/// `get key() { return value; }`.
#[derive(Debug, PartialEq)]
pub struct JsProp {
    pub key: String,
    pub value: JsExpr,
    pub getter: bool,
}

/// The kind of a variable declaration.
#[derive(Debug, Clone, Copy, PartialEq, Eq, Structural)]
pub enum DeclKind {
    Var,
    Const,
}

/// One declarator `name = init`.
#[derive(Debug, PartialEq)]
pub struct JsDecl {
    pub name: String,
    pub init: JsExpr,
}

/// A JavaScript statement.
#[derive(Debug, PartialEq)]
pub enum JsStmt {
    /// An expression statement.
    Expr(JsExpr),
    /// A variable declaration with its declarators.
    Var { kind: DeclKind, decls: Vec<JsDecl> },
    /// `return value;`
    Return(JsExpr),
    /// `import { imported as local } from "source";`
    Import { imported: String, local: String, source: String },
}

// ---------------------------------------------------------------------------
// Values
// ---------------------------------------------------------------------------

pub enum JsExprV {
    Ident(Seq<char>),
    Str(Seq<char>),
    Bool(bool),
    Null,
    TemplateLit(Seq<char>),
    Source(nat, ExprKindV),
    SourceCallee(nat),
    Call { callee: Box<JsExprV>, args: Seq<JsExprV>, pure: bool },
    Member { object: Box<JsExprV>, property: Seq<char> },
    Assign { target: Box<JsExprV>, value: Box<JsExprV> },
    Arrow { params: Seq<Seq<char>>, body: Seq<JsStmtV>, expression: bool },
    Paren(Box<JsExprV>),
    Array(Seq<JsExprV>),
    Object(Seq<JsPropV>),
}

pub struct JsPropV {
    pub key: Seq<char>,
    pub value: JsExprV,
    pub getter: bool,
}

pub struct JsDeclV {
    pub name: Seq<char>,
    pub init: JsExprV,
}

pub enum JsStmtV {
    Expr(JsExprV),
    Var { kind: DeclKind, decls: Seq<JsDeclV> },
    Return(JsExprV),
    Import { imported: Seq<char>, local: Seq<char>, source: Seq<char> },
}

pub open spec fn strings_view(s: Seq<String>) -> Seq<Seq<char>> {
    s.map_values(|x: String| x@)
}

/// The value of an expression.
pub open spec fn expr_view(e: JsExpr) -> JsExprV
    decreases e, 0int,
{
    match e {
        JsExpr::Ident(s) => JsExprV::Ident(s@),
        JsExpr::Str(s) => JsExprV::Str(s@),
        JsExpr::Bool(b) => JsExprV::Bool(b),
        JsExpr::Null => JsExprV::Null,
        JsExpr::TemplateLit(s) => JsExprV::TemplateLit(s@),
        JsExpr::Source(x) => JsExprV::Source(x.id as nat, kind_view(x.kind)),
        JsExpr::SourceCallee(id) => JsExprV::SourceCallee(id as nat),
        JsExpr::Call { callee, args, pure } => JsExprV::Call {
            callee: Box::new(expr_view(*callee)),
            args: exprs_view_upto(args@, args@.len() as int),
            pure,
        },
        JsExpr::Member { object, property } => JsExprV::Member {
            object: Box::new(expr_view(*object)),
            property: property@,
        },
        JsExpr::Assign { target, value } => JsExprV::Assign {
            target: Box::new(expr_view(*target)),
            value: Box::new(expr_view(*value)),
        },
        JsExpr::Arrow { params, body, expression } => JsExprV::Arrow {
            params: strings_view(params@),
            body: stmts_view_upto(body@, body@.len() as int),
            expression,
        },
        JsExpr::Paren(x) => JsExprV::Paren(Box::new(expr_view(*x))),
        JsExpr::Array(xs) => JsExprV::Array(exprs_view_upto(xs@, xs@.len() as int)),
        JsExpr::Object(ps) => JsExprV::Object(props_view_upto(ps@, ps@.len() as int)),
    }
}

pub open spec fn exprs_view_upto(v: Seq<JsExpr>, i: int) -> Seq<JsExprV>
    decreases v, i,
{
    if i <= 0 || i > v.len() {
        Seq::empty()
    } else {
        exprs_view_upto(v, i - 1).push(expr_view(v[i - 1]))
    }
}

pub open spec fn prop_view(p: JsProp) -> JsPropV
    decreases p, 0int,
{
    JsPropV { key: p.key@, value: expr_view(p.value), getter: p.getter }
}

pub open spec fn props_view_upto(v: Seq<JsProp>, i: int) -> Seq<JsPropV>
    decreases v, i,
{
    if i <= 0 || i > v.len() {
        Seq::empty()
    } else {
        props_view_upto(v, i - 1).push(prop_view(v[i - 1]))
    }
}

pub open spec fn decl_view(d: JsDecl) -> JsDeclV
    decreases d, 0int,
{
    JsDeclV { name: d.name@, init: expr_view(d.init) }
}

pub open spec fn decls_view_upto(v: Seq<JsDecl>, i: int) -> Seq<JsDeclV>
    decreases v, i,
{
    if i <= 0 || i > v.len() {
        Seq::empty()
    } else {
        decls_view_upto(v, i - 1).push(decl_view(v[i - 1]))
    }
}

/// The value of a statement.
pub open spec fn stmt_view(s: JsStmt) -> JsStmtV
    decreases s, 0int,
{
    match s {
        JsStmt::Expr(e) => JsStmtV::Expr(expr_view(e)),
        JsStmt::Var { kind, decls } => JsStmtV::Var { kind, decls: decls_view_upto(decls@, decls@.len() as int) },
        JsStmt::Return(e) => JsStmtV::Return(expr_view(e)),
        JsStmt::Import { imported, local, source } => JsStmtV::Import {
            imported: imported@,
            local: local@,
            source: source@,
        },
    }
}

pub open spec fn stmts_view_upto(v: Seq<JsStmt>, i: int) -> Seq<JsStmtV>
    decreases v, i,
{
    if i <= 0 || i > v.len() {
        Seq::empty()
    } else {
        stmts_view_upto(v, i - 1).push(stmt_view(v[i - 1]))
    }
}

pub open spec fn exprs_view(v: Seq<JsExpr>) -> Seq<JsExprV> {
    exprs_view_upto(v, v.len() as int)
}

pub open spec fn stmts_view(v: Seq<JsStmt>) -> Seq<JsStmtV> {
    stmts_view_upto(v, v.len() as int)
}

pub open spec fn props_view(v: Seq<JsProp>) -> Seq<JsPropV> {
    props_view_upto(v, v.len() as int)
}

pub open spec fn decls_view(v: Seq<JsDecl>) -> Seq<JsDeclV> {
    decls_view_upto(v, v.len() as int)
}

pub proof fn lemma_exprs_view(v: Seq<JsExpr>)
    ensures
        exprs_view(v).len() == v.len(),
        forall|k: int| 0 <= k < v.len() ==> #[trigger] exprs_view(v)[k] == expr_view(v[k]),
{
    lemma_exprs_view_upto(v, v.len() as int);
}

proof fn lemma_exprs_view_upto(v: Seq<JsExpr>, i: int)
    requires
        0 <= i <= v.len(),
    ensures
        exprs_view_upto(v, i).len() == i,
        forall|k: int| 0 <= k < i ==> #[trigger] exprs_view_upto(v, i)[k] == expr_view(v[k]),
    decreases i,
{
    if i > 0 {
        lemma_exprs_view_upto(v, i - 1);
    }
}

proof fn lemma_stmts_view_upto(v: Seq<JsStmt>, i: int)
    requires
        0 <= i <= v.len(),
    ensures
        stmts_view_upto(v, i).len() == i,
        forall|k: int| 0 <= k < i ==> #[trigger] stmts_view_upto(v, i)[k] == stmt_view(v[k]),
    decreases i,
{
    if i > 0 {
        lemma_stmts_view_upto(v, i - 1);
    }
}

pub proof fn lemma_stmts_view(v: Seq<JsStmt>)
    ensures
        stmts_view(v).len() == v.len(),
        forall|k: int| 0 <= k < v.len() ==> #[trigger] stmts_view(v)[k] == stmt_view(v[k]),
{
    lemma_stmts_view_upto(v, v.len() as int);
}

proof fn lemma_props_view_upto(v: Seq<JsProp>, i: int)
    requires
        0 <= i <= v.len(),
    ensures
        props_view_upto(v, i).len() == i,
        forall|k: int| 0 <= k < i ==> #[trigger] props_view_upto(v, i)[k] == prop_view(v[k]),
    decreases i,
{
    if i > 0 {
        lemma_props_view_upto(v, i - 1);
    }
}

pub proof fn lemma_props_view(v: Seq<JsProp>)
    ensures
        props_view(v).len() == v.len(),
        forall|k: int| 0 <= k < v.len() ==> #[trigger] props_view(v)[k] == prop_view(v[k]),
{
    lemma_props_view_upto(v, v.len() as int);
}

proof fn lemma_decls_view_upto(v: Seq<JsDecl>, i: int)
    requires
        0 <= i <= v.len(),
    ensures
        decls_view_upto(v, i).len() == i,
        forall|k: int| 0 <= k < i ==> #[trigger] decls_view_upto(v, i)[k] == decl_view(v[k]),
    decreases i,
{
    if i > 0 {
        lemma_decls_view_upto(v, i - 1);
    }
}

pub proof fn lemma_decls_view(v: Seq<JsDecl>)
    ensures
        decls_view(v).len() == v.len(),
        forall|k: int| 0 <= k < v.len() ==> #[trigger] decls_view(v)[k] == decl_view(v[k]),
{
    lemma_decls_view_upto(v, v.len() as int);
}

pub proof fn lemma_exprs_view_push(v: Seq<JsExpr>, e: JsExpr)
    ensures
        exprs_view(v.push(e)) == exprs_view(v).push(expr_view(e)),
{
    lemma_exprs_view(v);
    lemma_exprs_view(v.push(e));
    assert(exprs_view(v.push(e)) =~= exprs_view(v).push(expr_view(e)));
}

pub proof fn lemma_stmts_view_push(v: Seq<JsStmt>, s: JsStmt)
    ensures
        stmts_view(v.push(s)) == stmts_view(v).push(stmt_view(s)),
{
    lemma_stmts_view(v);
    lemma_stmts_view(v.push(s));
    assert(stmts_view(v.push(s)) =~= stmts_view(v).push(stmt_view(s)));
}

pub proof fn lemma_stmts_view_concat(a: Seq<JsStmt>, b: Seq<JsStmt>)
    ensures
        stmts_view(a + b) == stmts_view(a) + stmts_view(b),
{
    lemma_stmts_view(a);
    lemma_stmts_view(b);
    lemma_stmts_view(a + b);
    assert(stmts_view(a + b) =~= stmts_view(a) + stmts_view(b));
}

pub proof fn lemma_props_view_push(v: Seq<JsProp>, p: JsProp)
    ensures
        props_view(v.push(p)) == props_view(v).push(prop_view(p)),
{
    lemma_props_view(v);
    lemma_props_view(v.push(p));
    assert(props_view(v.push(p)) =~= props_view(v).push(prop_view(p)));
}

pub proof fn lemma_decls_view_push(v: Seq<JsDecl>, d: JsDecl)
    ensures
        decls_view(v.push(d)) == decls_view(v).push(decl_view(d)),
{
    lemma_decls_view(v);
    lemma_decls_view(v.push(d));
    assert(decls_view(v.push(d)) =~= decls_view(v).push(decl_view(d)));
}

// ---------------------------------------------------------------------------
// Shapes of emitted code
// ---------------------------------------------------------------------------

/// `name(args...)`
pub open spec fn call_v(name: Seq<char>, args: Seq<JsExprV>) -> JsExprV {
    JsExprV::Call { callee: Box::new(JsExprV::Ident(name)), args, pure: false }
}

/// `name(args...);`
pub open spec fn call_stmt_v(name: Seq<char>, args: Seq<JsExprV>) -> JsStmtV {
    JsStmtV::Expr(call_v(name, args))
}

/// `() => body`, the body one expression.
pub open spec fn thunk_v(body: JsExprV) -> JsExprV {
    JsExprV::Arrow { params: Seq::empty(), body: seq![JsStmtV::Expr(body)], expression: true }
}

/// `object.property`
pub open spec fn member_v(object: JsExprV, property: Seq<char>) -> JsExprV {
    JsExprV::Member { object: Box::new(object), property }
}

/// `object.property = value;`
pub open spec fn assign_stmt_v(object: JsExprV, property: Seq<char>, value: JsExprV) -> JsStmtV {
    JsStmtV::Expr(JsExprV::Assign { target: Box::new(member_v(object, property)), value: Box::new(value) })
}

// ---------------------------------------------------------------------------
// Building
// ---------------------------------------------------------------------------

pub fn ident(name: &str) -> (r: JsExpr)
    ensures
        expr_view(r) == JsExprV::Ident(name@),
{
    JsExpr::Ident(name.to_string())
}

pub fn str_lit(value: &str) -> (r: JsExpr)
    ensures
        expr_view(r) == JsExprV::Str(value@),
{
    JsExpr::Str(value.to_string())
}

pub fn exprs1(a: JsExpr) -> (r: Vec<JsExpr>)
    ensures
        exprs_view(r@) == seq![expr_view(a)],
{
    let mut r: Vec<JsExpr> = Vec::new();
    proof {
        lemma_exprs_view_push(r@, a);
    }
    r.push(a);
    assert(exprs_view(Seq::<JsExpr>::empty()) =~= Seq::<JsExprV>::empty());
    assert(exprs_view(r@) =~= seq![expr_view(a)]);
    r
}

pub fn exprs2(a: JsExpr, b: JsExpr) -> (r: Vec<JsExpr>)
    ensures
        exprs_view(r@) == seq![expr_view(a), expr_view(b)],
{
    let mut r = exprs1(a);
    proof {
        lemma_exprs_view_push(r@, b);
    }
    r.push(b);
    assert(exprs_view(r@) =~= seq![expr_view(a), expr_view(b)]);
    r
}

pub fn exprs3(a: JsExpr, b: JsExpr, c: JsExpr) -> (r: Vec<JsExpr>)
    ensures
        exprs_view(r@) == seq![expr_view(a), expr_view(b), expr_view(c)],
{
    let mut r = exprs2(a, b);
    proof {
        lemma_exprs_view_push(r@, c);
    }
    r.push(c);
    assert(exprs_view(r@) =~= seq![expr_view(a), expr_view(b), expr_view(c)]);
    r
}

pub fn exprs4(a: JsExpr, b: JsExpr, c: JsExpr, d: JsExpr) -> (r: Vec<JsExpr>)
    ensures
        exprs_view(r@) == seq![expr_view(a), expr_view(b), expr_view(c), expr_view(d)],
{
    let mut r = exprs3(a, b, c);
    proof {
        lemma_exprs_view_push(r@, d);
    }
    r.push(d);
    assert(exprs_view(r@) =~= seq![expr_view(a), expr_view(b), expr_view(c), expr_view(d)]);
    r
}

/// `name(args...)`
pub fn call(name: &str, args: Vec<JsExpr>) -> (r: JsExpr)
    ensures
        expr_view(r) == call_v(name@, exprs_view(args@)),
{
    JsExpr::Call { callee: Box::new(ident(name)), args, pure: false }
}

/// `name(args...);`
pub fn call_stmt(name: &str, args: Vec<JsExpr>) -> (r: JsStmt)
    ensures
        stmt_view(r) == call_stmt_v(name@, exprs_view(args@)),
{
    JsStmt::Expr(call(name, args))
}

/// `() => body`
pub fn thunk(body: JsExpr) -> (r: JsExpr)
    ensures
        expr_view(r) == thunk_v(expr_view(body)),
{
    let mut stmts: Vec<JsStmt> = Vec::new();
    let s = JsStmt::Expr(body);
    proof {
        lemma_stmts_view_push(stmts@, s);
    }
    stmts.push(s);
    assert(stmts_view(Seq::<JsStmt>::empty()) =~= Seq::<JsStmtV>::empty());
    assert(stmts_view(stmts@) =~= seq![JsStmtV::Expr(expr_view(body))]);
    let params: Vec<String> = Vec::new();
    assert(strings_view(params@) =~= Seq::<Seq<char>>::empty());
    JsExpr::Arrow { params, body: stmts, expression: true }
}

/// `object.property`
pub fn member(object: JsExpr, property: &str) -> (r: JsExpr)
    ensures
        expr_view(r) == member_v(expr_view(object), property@),
{
    JsExpr::Member { object: Box::new(object), property: property.to_string() }
}

/// `object.property = value;`
pub fn assign_stmt(object: JsExpr, property: &str, value: JsExpr) -> (r: JsStmt)
    ensures
        stmt_view(r) == assign_stmt_v(expr_view(object), property@, expr_view(value)),
{
    JsStmt::Expr(JsExpr::Assign { target: Box::new(member(object, property)), value: Box::new(value) })
}

} // verus!
