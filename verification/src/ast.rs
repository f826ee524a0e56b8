//! The expression tree, and the visitor that renders it as text.

use crate::token::Token;
use vstd::prelude::*;
use vstd::string::*;

verus! {

/// The capability to visit a `T` and produce a result. A visitor is
/// implemented once for each type of node that it can visit.
pub trait Visitor<T: ?Sized> {
    /// What a visit produces.
    type Return;

    /// What the visitor promises of the result of visiting `value`.
    spec fn visited(value: &T, ret: Self::Return) -> bool;

    /// Visits `value`.
    fn visit(value: &T) -> (ret: Self::Return)
        ensures
            Self::visited(value, ret),
    ;
}

/// A node that visitors can be sent to.
pub trait AcceptVisitor {
    /// Lets the visitor `V` visit this node, and returns what it produces.
    fn accept<V: Visitor<Self>>(&self) -> (ret: V::Return)
        ensures
            V::visited(self, ret),
    {
        V::visit(self)
    }
}

/// An expression. The set of variants is closed; a node refers to its
/// children, which outlive it.
pub enum Expr<'a> {
    /// A string literal, without its quotes.
    LiteralString(String),
    /// A number literal, held as the numeral that is shown for it.
    LiteralNumber(String),
    LiteralTrue,
    LiteralFalse,
    LiteralNil,
    /// An expression in parentheses.
    Grouping { expression: &'a Expr<'a> },
    /// An operator applied to the expression behind it.
    Unary { prefix: Token, expression: &'a Expr<'a> },
    /// An operator between two expressions.
    Binary { left: &'a Expr<'a>, operator: Token, right: &'a Expr<'a> },
}

impl AcceptVisitor for Expr<'_> {}

/// The text of an expression: a literal as `literal <value>`, a grouping as
/// `grouping ( <inner> )`, a unary expression as `unary <operator> <inner>`
/// and a binary one as `binary <left> <operator> <right>`, where an operator
/// is shown as its token is displayed.
pub open spec fn rendering(expr: Expr<'_>) -> Seq<char>
    decreases expr,
{
    match expr {
        Expr::LiteralString(s) => "literal "@ + s@,
        Expr::LiteralNumber(n) => "literal "@ + n@,
        Expr::LiteralTrue => "literal true"@,
        Expr::LiteralFalse => "literal false"@,
        Expr::LiteralNil => "literal nil"@,
        Expr::Grouping { expression } => "grouping ( "@ + rendering(*expression) + " )"@,
        Expr::Unary { prefix, expression } => "unary "@ + prefix@.text() + " "@ + rendering(
            *expression,
        ),
        Expr::Binary { left, operator, right } => "binary "@ + rendering(*left) + " "@
            + operator@.text() + " "@ + rendering(*right),
    }
}

/// The visitor that renders an expression as text.
pub struct ASTPrint;

impl Visitor<Expr<'_>> for ASTPrint {
    type Return = String;

    open spec fn visited(value: &Expr<'_>, ret: String) -> bool {
        ret@ == rendering(*value)
    }

    fn visit(value: &Expr<'_>) -> (ret: String)
        decreases value,
    {
        match value {
            Expr::LiteralString(s) => {
                let mut out = String::from_str("literal ");
                out.append(s.as_str());
                out
            },
            Expr::LiteralNumber(n) => {
                let mut out = String::from_str("literal ");
                out.append(n.as_str());
                out
            },
            Expr::LiteralTrue => String::from_str("literal true"),
            Expr::LiteralFalse => String::from_str("literal false"),
            Expr::LiteralNil => String::from_str("literal nil"),
            Expr::Grouping { expression } => {
                let mut out = String::from_str("grouping ( ");
                let inner = Self::visit(expression);
                out.append(inner.as_str());
                out.append(" )");
                out
            },
            Expr::Unary { prefix, expression } => {
                let mut out = String::from_str("unary ");
                let shown = prefix.to_string();
                out.append(shown.as_str());
                out.append(" ");
                let inner = Self::visit(expression);
                out.append(inner.as_str());
                out
            },
            Expr::Binary { left, operator, right } => {
                let mut out = String::from_str("binary ");
                let first = Self::visit(left);
                out.append(first.as_str());
                out.append(" ");
                let shown = operator.to_string();
                out.append(shown.as_str());
                out.append(" ");
                let second = Self::visit(right);
                out.append(second.as_str());
                out
            },
        }
    }
}

} // verus!
