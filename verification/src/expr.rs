//! The expression tree and its prefix rendering.
//!
//! The parser materializes each expression as an explicit tagged-union
//! tree; rendering to fully parenthesized prefix notation is one recursive
//! visit.

use vstd::prelude::*;
use crate::token::TokenKind;
use crate::text::push_char;

verus! {

/// Model of an expression tree.
pub enum SpecExpr {
    Number(Seq<char>),
    Str(Seq<char>),
    Identifier(Seq<char>),
    BoolTrue,
    BoolFalse,
    Nil,
    Grouping(Box<SpecExpr>),
    Unary(char, Box<SpecExpr>),
    Binary(TokenKind, Box<SpecExpr>, Box<SpecExpr>),
}

/// An expression tree: literals carry their canonical rendering text, a
/// unary node its operator character, a binary node the kind of its
/// operator token.
pub enum Expr {
    Number(String),
    Str(String),
    Identifier(String),
    BoolTrue,
    BoolFalse,
    Nil,
    Grouping(Box<Expr>),
    Unary(char, Box<Expr>),
    Binary(TokenKind, Box<Expr>, Box<Expr>),
}

/// The model of an expression tree.
pub open spec fn expr_view(e: Expr) -> SpecExpr
    decreases e,
{
    match e {
        Expr::Number(l) => SpecExpr::Number(l@),
        Expr::Str(v) => SpecExpr::Str(v@),
        Expr::Identifier(n) => SpecExpr::Identifier(n@),
        Expr::BoolTrue => SpecExpr::BoolTrue,
        Expr::BoolFalse => SpecExpr::BoolFalse,
        Expr::Nil => SpecExpr::Nil,
        Expr::Grouping(inner) => SpecExpr::Grouping(Box::new(expr_view(*inner))),
        Expr::Unary(op, inner) => SpecExpr::Unary(op, Box::new(expr_view(*inner))),
        Expr::Binary(op, l, r) => SpecExpr::Binary(
            op,
            Box::new(expr_view(*l)),
            Box::new(expr_view(*r)),
        ),
    }
}

impl View for Expr {
    type V = SpecExpr;

    open spec fn view(&self) -> SpecExpr {
        expr_view(*self)
    }
}

/// The source text of a binary operator token kind (empty for kinds that
/// are no binary operator).
pub open spec fn op_text(k: TokenKind) -> Seq<char> {
    match k {
        TokenKind::EqualEqual => "=="@,
        TokenKind::BangEqual => "!="@,
        TokenKind::Less => "<"@,
        TokenKind::LessEqual => "<="@,
        TokenKind::Greater => ">"@,
        TokenKind::GreaterEqual => ">="@,
        TokenKind::Plus => "+"@,
        TokenKind::Minus => "-"@,
        TokenKind::Star => "*"@,
        TokenKind::Slash => "/"@,
        _ => Seq::empty(),
    }
}

/// Returns the source text of a binary operator token kind.
pub fn op_text_of(k: TokenKind) -> (s: String)
    ensures
        s@ == op_text(k),
{
    match k {
        TokenKind::EqualEqual => String::from_str("=="),
        TokenKind::BangEqual => String::from_str("!="),
        TokenKind::Less => String::from_str("<"),
        TokenKind::LessEqual => String::from_str("<="),
        TokenKind::Greater => String::from_str(">"),
        TokenKind::GreaterEqual => String::from_str(">="),
        TokenKind::Plus => String::from_str("+"),
        TokenKind::Minus => String::from_str("-"),
        TokenKind::Star => String::from_str("*"),
        TokenKind::Slash => String::from_str("/"),
        _ => {
            let s = String::new();
            proof {
                assert(s@ =~= op_text(k));
            }
            s
        },
    }
}

/// The fully parenthesized prefix rendering of an expression: an operator
/// precedes its operands, a grouping is marked `group`, literals render
/// their canonical text.
pub open spec fn render(e: SpecExpr) -> Seq<char>
    decreases e,
{
    match e {
        SpecExpr::Number(l) => l,
        SpecExpr::Str(v) => v,
        SpecExpr::Identifier(n) => n,
        SpecExpr::BoolTrue => "true"@,
        SpecExpr::BoolFalse => "false"@,
        SpecExpr::Nil => "nil"@,
        SpecExpr::Grouping(inner) => "(group "@ + render(*inner) + ")"@,
        SpecExpr::Unary(op, inner) => "("@ + seq![op] + " "@ + render(*inner) + ")"@,
        SpecExpr::Binary(op, l, r) => "("@ + op_text(op) + " "@ + render(*l) + " "@
            + render(*r) + ")"@,
    }
}

/// Renders an expression tree in prefix notation.
pub fn render_expr(e: &Expr) -> (s: String)
    ensures
        s@ == render(e@),
    decreases *e,
{
    match e {
        Expr::Number(l) => l.clone(),
        Expr::Str(v) => v.clone(),
        Expr::Identifier(n) => n.clone(),
        Expr::BoolTrue => String::from_str("true"),
        Expr::BoolFalse => String::from_str("false"),
        Expr::Nil => String::from_str("nil"),
        Expr::Grouping(inner) => {
            let mut s = String::from_str("(group ");
            let si = render_expr(inner);
            s.append(si.as_str());
            s.append(")");
            proof {
                assert(s@ =~= render(e@));
            }
            s
        },
        Expr::Unary(op, inner) => {
            let mut s = String::from_str("(");
            push_char(&mut s, *op);
            s.append(" ");
            let si = render_expr(inner);
            s.append(si.as_str());
            s.append(")");
            proof {
                assert(s@ =~= render(e@));
            }
            s
        },
        Expr::Binary(op, l, r) => {
            let mut s = String::from_str("(");
            let ot = op_text_of(*op);
            s.append(ot.as_str());
            s.append(" ");
            let sl = render_expr(l);
            s.append(sl.as_str());
            s.append(" ");
            let sr = render_expr(r);
            s.append(sr.as_str());
            s.append(")");
            proof {
                assert(s@ =~= render(e@));
            }
            s
        },
    }
}

} // verus!
