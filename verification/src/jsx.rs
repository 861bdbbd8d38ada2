//! The compiler's own model of a JSX tree.
//!
//! It holds, as plain values, everything the compiler reads of the parsed
//! source: tag and attribute names, literal values, the shape of embedded
//! JavaScript expressions, and for each embedded expression an identifier by
//! which the caller can find the source expression again.

use vstd::prelude::*;

verus! {

/// What the compiler needs to know about the callee of a call expression.
#[derive(Debug, PartialEq)]
pub enum CalleeKind {
    /// A function expression, an arrow function or a parenthesized expression.
    FunctionLike,
    /// A plain identifier, with its name.
    Ident(String),
    /// A static, computed or private member access.
    Member,
    /// Anything else.
    Other,
}

/// What the compiler needs to know about an embedded JavaScript expression.
#[derive(Debug, PartialEq)]
pub enum ExprKind {
    /// An empty expression container (a comment, `{}`).
    Empty,
    /// A string literal, with its value.
    StringLit(String),
    /// A numeric literal, with the decimal rendering of its value.
    NumericLit(String),
    /// A boolean literal.
    BooleanLit(bool),
    /// The `null` literal.
    NullLit,
    /// An identifier reference, with its name.
    Ident(String),
    /// A call expression: what its callee is and how many arguments it has.
    Call { callee: CalleeKind, n_args: usize },
    /// Any other expression.
    Other,
}

/// An embedded expression: its shape and the identifier of the source expression.
#[derive(Debug, PartialEq)]
pub struct JsxExpr {
    pub kind: ExprKind,
    pub id: usize,
}

/// The name of a JSX element.
#[derive(Debug, PartialEq)]
pub enum JsxElementName {
    /// An identifier such as `div` or `MyComponent`.
    Ident(String),
    /// A namespaced name `ns:name`.
    Namespaced(String, String),
    /// A member expression or `this`.
    Other,
}

/// The name of a JSX attribute.
#[derive(Debug, PartialEq)]
pub enum JsxAttrName {
    Ident(String),
    Namespaced(String, String),
}

/// The value of a JSX attribute.
#[derive(Debug, PartialEq)]
pub enum JsxAttrValue {
    /// A string literal `"..."`.
    Str(String),
    /// An expression container `{...}`.
    Container(JsxExpr),
    /// An element or a fragment.
    Other,
}

/// An item in an element's attribute list.
#[derive(Debug, PartialEq)]
pub enum JsxAttrItem {
    Attribute { name: JsxAttrName, value: Option<JsxAttrValue> },
    Spread,
}

/// A JSX element: its name, attributes and children.
#[derive(Debug, PartialEq)]
pub struct JsxElement {
    pub name: JsxElementName,
    pub attributes: Vec<JsxAttrItem>,
    pub children: Vec<JsxChild>,
}

/// A child of an element or of a fragment.
#[derive(Debug, PartialEq)]
pub enum JsxChild {
    Text(String),
    Element(Box<JsxElement>),
    Container(JsxExpr),
    Fragment(Vec<JsxChild>),
    Spread,
}

/// A JSX expression of the source program: an element or a fragment with its children.
#[derive(Debug, PartialEq)]
pub enum JsxNode {
    Element(JsxElement),
    Fragment(Vec<JsxChild>),
}

/// The value of a callee's shape.
pub enum CalleeKindV {
    FunctionLike,
    Ident(Seq<char>),
    Member,
    Other,
}

/// The value of an expression's shape.
pub enum ExprKindV {
    Empty,
    StringLit(Seq<char>),
    NumericLit(Seq<char>),
    BooleanLit(bool),
    NullLit,
    Ident(Seq<char>),
    Call { callee: CalleeKindV, n_args: nat },
    Other,
}

pub open spec fn callee_view(c: CalleeKind) -> CalleeKindV {
    match c {
        CalleeKind::FunctionLike => CalleeKindV::FunctionLike,
        CalleeKind::Ident(s) => CalleeKindV::Ident(s@),
        CalleeKind::Member => CalleeKindV::Member,
        CalleeKind::Other => CalleeKindV::Other,
    }
}

pub open spec fn kind_view(k: ExprKind) -> ExprKindV {
    match k {
        ExprKind::Empty => ExprKindV::Empty,
        ExprKind::StringLit(s) => ExprKindV::StringLit(s@),
        ExprKind::NumericLit(s) => ExprKindV::NumericLit(s@),
        ExprKind::BooleanLit(b) => ExprKindV::BooleanLit(b),
        ExprKind::NullLit => ExprKindV::NullLit,
        ExprKind::Ident(s) => ExprKindV::Ident(s@),
        ExprKind::Call { callee, n_args } => ExprKindV::Call { callee: callee_view(callee), n_args: n_args as nat },
        ExprKind::Other => ExprKindV::Other,
    }
}

pub fn clone_callee(c: &CalleeKind) -> (r: CalleeKind)
    ensures
        callee_view(r) == callee_view(*c),
{
    match c {
        CalleeKind::FunctionLike => CalleeKind::FunctionLike,
        CalleeKind::Ident(s) => CalleeKind::Ident(s.clone()),
        CalleeKind::Member => CalleeKind::Member,
        CalleeKind::Other => CalleeKind::Other,
    }
}

pub fn clone_kind(k: &ExprKind) -> (r: ExprKind)
    ensures
        kind_view(r) == kind_view(*k),
{
    match k {
        ExprKind::Empty => ExprKind::Empty,
        ExprKind::StringLit(s) => ExprKind::StringLit(s.clone()),
        ExprKind::NumericLit(s) => ExprKind::NumericLit(s.clone()),
        ExprKind::BooleanLit(b) => ExprKind::BooleanLit(*b),
        ExprKind::NullLit => ExprKind::NullLit,
        ExprKind::Ident(s) => ExprKind::Ident(s.clone()),
        ExprKind::Call { callee, n_args } => ExprKind::Call { callee: clone_callee(callee), n_args: *n_args },
        ExprKind::Other => ExprKind::Other,
    }
}

/// A copy of an embedded expression: same identifier, same shape.
pub fn clone_jsx_expr(x: &JsxExpr) -> (r: JsxExpr)
    ensures
        r.id == x.id,
        kind_view(r.kind) == kind_view(x.kind),
{
    JsxExpr { kind: clone_kind(&x.kind), id: x.id }
}

} // verus!
