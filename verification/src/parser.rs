//! The recursive-descent expression parser.
//!
//! Grammar, loosest binding first; each binary level folds to the left:
//!
//! ```text
//! expression -> equality
//! equality   -> comparison ( ( "==" | "!=" ) comparison )*
//! comparison -> term ( ( "<" | "<=" | ">" | ">=" ) term )*
//! term       -> factor ( ( "+" | "-" ) factor )*
//! factor     -> unary ( ( "*" | "/" ) unary )*
//! unary      -> ( "!" | "-" ) unary | primary
//! primary    -> NUMBER | STRING | IDENTIFIER | "true" | "false" | "nil"
//!            | "(" expression ")"
//! ```
//!
//! The spec-level functions fix, for every token sequence and position,
//! either the parsed expression or the diagnostic, together with how many
//! tokens were consumed; the executable parser is proved to match them.
//! A failed top-level expression is recorded and parsing resumes after the
//! next statement terminator, so later expressions are still parsed.

use vstd::prelude::*;
use crate::token::{SpecPlaced, SpecToken, TokenKind, PlacedToken, eof_token, placed_views};
use crate::report::{Category, SpecDiag, Diagnostic, Report, diag_views, string_views};
use crate::expr::{SpecExpr, Expr, expr_view, render, render_expr};
use crate::text::str_to_chars;
use crate::tokenizer::{scan_model, scan_tokens};

verus! {

/// How many tokens lie at or after position `i`; zero when `i` is out of
/// range.  This is the termination measure of the descent.
pub open spec fn left(ts: Seq<SpecPlaced>, i: int) -> int {
    if i <= ts.len() {
        ts.len() - i
    } else {
        0
    }
}

/// The token at position `i`, the end-of-input token when `i` is out of
/// range.
pub open spec fn tok_at(ts: Seq<SpecPlaced>, i: int) -> SpecPlaced {
    if 0 <= i < ts.len() {
        ts[i]
    } else {
        SpecPlaced { tok: eof_token(), line: 1 }
    }
}

/// The literal text of a token, empty when it has none.
pub open spec fn literal_text(t: SpecToken) -> Seq<char> {
    match t.literal {
        Some(l) => l,
        None => Seq::empty(),
    }
}

/// Outcome of one grammar rule: the parsed expression or the diagnostic,
/// with the number of tokens consumed.
pub enum POut {
    Parsed(SpecExpr, nat),
    Failed(SpecDiag, nat),
}

pub open spec fn parse_expression(ts: Seq<SpecPlaced>, i: int) -> POut
    decreases left(ts, i), 12int,
{
    parse_equality(ts, i)
}

pub open spec fn parse_equality(ts: Seq<SpecPlaced>, i: int) -> POut
    decreases left(ts, i), 11int,
{
    match parse_comparison(ts, i) {
        POut::Parsed(e, c) => equality_tail(ts, i + c, e, c),
        POut::Failed(d, c) => POut::Failed(d, c),
    }
}

pub open spec fn equality_tail(ts: Seq<SpecPlaced>, j: int, acc: SpecExpr, used: nat) -> POut
    decreases left(ts, j), 10int,
{
    let k = tok_at(ts, j).tok.kind;
    if k == TokenKind::EqualEqual || k == TokenKind::BangEqual {
        match parse_comparison(ts, j + 1) {
            POut::Parsed(e, c) => equality_tail(
                ts,
                j + 1 + c,
                SpecExpr::Binary(k, Box::new(acc), Box::new(e)),
                (used + 1 + c) as nat,
            ),
            POut::Failed(d, c) => POut::Failed(d, (used + 1 + c) as nat),
        }
    } else {
        POut::Parsed(acc, used)
    }
}

pub open spec fn parse_comparison(ts: Seq<SpecPlaced>, i: int) -> POut
    decreases left(ts, i), 9int,
{
    match parse_term(ts, i) {
        POut::Parsed(e, c) => comparison_tail(ts, i + c, e, c),
        POut::Failed(d, c) => POut::Failed(d, c),
    }
}

pub open spec fn comparison_tail(ts: Seq<SpecPlaced>, j: int, acc: SpecExpr, used: nat) -> POut
    decreases left(ts, j), 8int,
{
    let k = tok_at(ts, j).tok.kind;
    if k == TokenKind::Less || k == TokenKind::LessEqual || k == TokenKind::Greater
        || k == TokenKind::GreaterEqual {
        match parse_term(ts, j + 1) {
            POut::Parsed(e, c) => comparison_tail(
                ts,
                j + 1 + c,
                SpecExpr::Binary(k, Box::new(acc), Box::new(e)),
                (used + 1 + c) as nat,
            ),
            POut::Failed(d, c) => POut::Failed(d, (used + 1 + c) as nat),
        }
    } else {
        POut::Parsed(acc, used)
    }
}

pub open spec fn parse_term(ts: Seq<SpecPlaced>, i: int) -> POut
    decreases left(ts, i), 7int,
{
    match parse_factor(ts, i) {
        POut::Parsed(e, c) => term_tail(ts, i + c, e, c),
        POut::Failed(d, c) => POut::Failed(d, c),
    }
}

pub open spec fn term_tail(ts: Seq<SpecPlaced>, j: int, acc: SpecExpr, used: nat) -> POut
    decreases left(ts, j), 6int,
{
    let k = tok_at(ts, j).tok.kind;
    if k == TokenKind::Plus || k == TokenKind::Minus {
        match parse_factor(ts, j + 1) {
            POut::Parsed(e, c) => term_tail(
                ts,
                j + 1 + c,
                SpecExpr::Binary(k, Box::new(acc), Box::new(e)),
                (used + 1 + c) as nat,
            ),
            POut::Failed(d, c) => POut::Failed(d, (used + 1 + c) as nat),
        }
    } else {
        POut::Parsed(acc, used)
    }
}

pub open spec fn parse_factor(ts: Seq<SpecPlaced>, i: int) -> POut
    decreases left(ts, i), 5int,
{
    match parse_unary(ts, i) {
        POut::Parsed(e, c) => factor_tail(ts, i + c, e, c),
        POut::Failed(d, c) => POut::Failed(d, c),
    }
}

pub open spec fn factor_tail(ts: Seq<SpecPlaced>, j: int, acc: SpecExpr, used: nat) -> POut
    decreases left(ts, j), 4int,
{
    let k = tok_at(ts, j).tok.kind;
    if k == TokenKind::Star || k == TokenKind::Slash {
        match parse_unary(ts, j + 1) {
            POut::Parsed(e, c) => factor_tail(
                ts,
                j + 1 + c,
                SpecExpr::Binary(k, Box::new(acc), Box::new(e)),
                (used + 1 + c) as nat,
            ),
            POut::Failed(d, c) => POut::Failed(d, (used + 1 + c) as nat),
        }
    } else {
        POut::Parsed(acc, used)
    }
}

pub open spec fn parse_unary(ts: Seq<SpecPlaced>, i: int) -> POut
    decreases left(ts, i), 3int,
{
    let k = tok_at(ts, i).tok.kind;
    if k == TokenKind::Bang || k == TokenKind::Minus {
        let opc: char = if k == TokenKind::Bang {
            '!'
        } else {
            '-'
        };
        match parse_unary(ts, i + 1) {
            POut::Parsed(e, c) => POut::Parsed(SpecExpr::Unary(opc, Box::new(e)), (c + 1) as nat),
            POut::Failed(d, c) => POut::Failed(d, (c + 1) as nat),
        }
    } else {
        parse_primary(ts, i)
    }
}

pub open spec fn parse_primary(ts: Seq<SpecPlaced>, i: int) -> POut
    decreases left(ts, i), 1int,
{
    let p = tok_at(ts, i);
    let k = p.tok.kind;
    if k == TokenKind::Number {
        POut::Parsed(SpecExpr::Number(literal_text(p.tok)), 1)
    } else if k == TokenKind::Str {
        POut::Parsed(SpecExpr::Str(literal_text(p.tok)), 1)
    } else if k == TokenKind::Identifier {
        POut::Parsed(SpecExpr::Identifier(p.tok.lexeme), 1)
    } else if k == TokenKind::True {
        POut::Parsed(SpecExpr::BoolTrue, 1)
    } else if k == TokenKind::False {
        POut::Parsed(SpecExpr::BoolFalse, 1)
    } else if k == TokenKind::Nil {
        POut::Parsed(SpecExpr::Nil, 1)
    } else if k == TokenKind::LeftParen {
        match parse_expression(ts, i + 1) {
            POut::Parsed(e, c) => {
                if tok_at(ts, i + 1 + c).tok.kind == TokenKind::RightParen {
                    POut::Parsed(SpecExpr::Grouping(Box::new(e)), (c + 2) as nat)
                } else {
                    POut::Failed(
                        SpecDiag {
                            line: tok_at(ts, i + 1 + c).line,
                            category: Category::UnclosedGroup,
                        },
                        (c + 1) as nat,
                    )
                }
            },
            POut::Failed(d, c) => POut::Failed(d, (c + 1) as nat),
        }
    } else {
        POut::Failed(SpecDiag { line: p.line, category: Category::SyntaxError }, 0)
    }
}

/// The position where parsing resumes after a failed expression: just past
/// the next statement terminator, or at the end-of-input token.
pub open spec fn sync_pos(ts: Seq<SpecPlaced>, i: int) -> int
    decreases left(ts, i),
{
    if !(0 <= i < ts.len()) {
        i
    } else if ts[i].tok.kind == TokenKind::Semicolon {
        i + 1
    } else if ts[i].tok.kind == TokenKind::Eof {
        i
    } else {
        sync_pos(ts, i + 1)
    }
}

pub proof fn lemma_sync_pos(ts: Seq<SpecPlaced>, i: int)
    requires
        0 <= i,
    ensures
        i <= sync_pos(ts, i),
        i <= ts.len() ==> sync_pos(ts, i) <= ts.len(),
    decreases left(ts, i),
{
    if 0 <= i < ts.len() && ts[i].tok.kind != TokenKind::Semicolon
        && ts[i].tok.kind != TokenKind::Eof {
        lemma_sync_pos(ts, i + 1);
    }
}

/// Output of parsing a whole token sequence: one rendered line per
/// successfully parsed top-level expression, and one diagnostic per failed
/// one.
pub struct ProgramOut {
    pub lines: Seq<Seq<char>>,
    pub diags: Seq<SpecDiag>,
}

/// Parses top-level expressions, separated by statement terminators, until
/// the end-of-input token: a failure is recorded and parsing resumes after
/// the next terminator.
pub open spec fn program_from(ts: Seq<SpecPlaced>, i: int) -> ProgramOut
    decreases left(ts, i),
{
    if !(0 <= i < ts.len()) {
        ProgramOut { lines: seq![], diags: seq![] }
    } else if ts[i].tok.kind == TokenKind::Eof {
        ProgramOut { lines: seq![], diags: seq![] }
    } else if ts[i].tok.kind == TokenKind::Semicolon {
        program_from(ts, i + 1)
    } else {
        match parse_expression(ts, i) {
            POut::Parsed(e, c) => {
                // a successful parse always consumes at least one token;
                // the lower bound only serves the termination measure
                let n = if c == 0 {
                    i + 1
                } else {
                    i + c
                };
                let rest = program_from(ts, n);
                ProgramOut { lines: seq![render(e)] + rest.lines, diags: rest.diags }
            },
            POut::Failed(d, c) => {
                let n = sync_pos(ts, i + c);
                proof {
                    lemma_sync_pos(ts, i + c);
                    if c == 0 {
                        assert(sync_pos(ts, i) == sync_pos(ts, i + 1));
                        lemma_sync_pos(ts, i + 1);
                    }
                }
                let rest = program_from(ts, n);
                ProgramOut { lines: rest.lines, diags: seq![d] + rest.diags }
            },
        }
    }
}

/// The full parse model of a source text: scan, then parse; the
/// diagnostics are the lexical ones followed by the syntactic ones.
pub open spec fn parse_model(s: Seq<char>) -> ProgramOut {
    let sm = scan_model(s);
    let po = program_from(sm.toks, 0);
    ProgramOut { lines: po.lines, diags: sm.diags + po.diags }
}

/// An opening parenthesis whose inner expression parses but is not
/// followed by a closing parenthesis yields an unclosed-group diagnostic,
/// attributed to the line of the token found where the closing parenthesis
/// was expected, and no parsed expression.
pub proof fn lemma_unclosed_group(ts: Seq<SpecPlaced>, i: int, e: SpecExpr, c: nat)
    requires
        tok_at(ts, i).tok.kind == TokenKind::LeftParen,
        parse_expression(ts, i + 1) == POut::Parsed(e, c),
        tok_at(ts, i + 1 + c).tok.kind != TokenKind::RightParen,
    ensures
        parse_primary(ts, i) == POut::Failed(
            SpecDiag { line: tok_at(ts, i + 1 + c).line, category: Category::UnclosedGroup },
            (c + 1) as nat,
        ),
{
}

/// A failed top-level expression is recorded as one diagnostic and does
/// not stop what follows: the remaining output is exactly that of parsing
/// again from just past the next statement terminator.
pub proof fn lemma_failure_resumes(ts: Seq<SpecPlaced>, i: int, d: SpecDiag, c: nat)
    requires
        0 <= i < ts.len(),
        ts[i].tok.kind != TokenKind::Eof,
        ts[i].tok.kind != TokenKind::Semicolon,
        parse_expression(ts, i) == POut::Failed(d, c),
    ensures
        program_from(ts, i).diags == seq![d] + program_from(ts, sync_pos(ts, i + c)).diags,
        program_from(ts, i).lines == program_from(ts, sync_pos(ts, i + c)).lines,
{
}

/// Outcome of one executable grammar rule: the parsed expression or the
/// diagnostic, with the position of the first unconsumed token.
pub enum Outcome {
    Parsed(Expr, usize),
    Failed(Diagnostic, usize),
}

/// The executable outcome `r`, which carries absolute positions, agrees
/// with the model outcome `m`, which counts consumed tokens from `i`; a
/// successful parse consumed at least one token and never ran past `len`.
pub open spec fn outcome_matches(r: Outcome, m: POut, i: int, len: int) -> bool {
    match r {
        Outcome::Parsed(e, n) => m == POut::Parsed(expr_view(e), (n - i) as nat) && i < n <= len,
        Outcome::Failed(d, n) => m == POut::Failed(d@, (n - i) as nat) && i <= n <= len,
    }
}

/// The kind of the token at `i`, `Eof` when `i` is out of range.
fn kind_at(toks: &Vec<PlacedToken>, i: usize) -> (k: TokenKind)
    ensures
        k == tok_at(placed_views(toks@), i as int).tok.kind,
{
    if i < toks.len() {
        proof {
            assert(placed_views(toks@)[i as int] == toks@[i as int]@);
        }
        toks[i].token.kind
    } else {
        TokenKind::Eof
    }
}

/// The line of the token at `i`, line 1 when `i` is out of range.
fn line_at(toks: &Vec<PlacedToken>, i: usize) -> (l: usize)
    ensures
        l as nat == tok_at(placed_views(toks@), i as int).line,
{
    if i < toks.len() {
        proof {
            assert(placed_views(toks@)[i as int] == toks@[i as int]@);
        }
        toks[i].line
    } else {
        1
    }
}

#[verifier::rlimit(50)]
pub fn parse_primary_at(toks: &Vec<PlacedToken>, i: usize) -> (r: Outcome)
    requires
        i <= toks@.len(),
    ensures
        outcome_matches(r, parse_primary(placed_views(toks@), i as int), i as int,
            toks@.len() as int),
    decreases left(placed_views(toks@), i as int), 1int,
{
    let ghost ts = placed_views(toks@);
    if i < toks.len() {
        proof {
            assert(ts[i as int] == toks@[i as int]@);
        }
        let k = toks[i].token.kind;
        match k {
            TokenKind::Number | TokenKind::Str => {
                let lit = match &toks[i].token.literal {
                    Some(l) => l.clone(),
                    None => String::new(),
                };
                proof {
                    assert(lit@ =~= literal_text(tok_at(ts, i as int).tok));
                }
                if k == TokenKind::Number {
                    Outcome::Parsed(Expr::Number(lit), i + 1)
                } else {
                    Outcome::Parsed(Expr::Str(lit), i + 1)
                }
            },
            TokenKind::Identifier => {
                Outcome::Parsed(Expr::Identifier(toks[i].token.lexeme.clone()), i + 1)
            },
            TokenKind::True => Outcome::Parsed(Expr::BoolTrue, i + 1),
            TokenKind::False => Outcome::Parsed(Expr::BoolFalse, i + 1),
            TokenKind::Nil => Outcome::Parsed(Expr::Nil, i + 1),
            TokenKind::LeftParen => {
                match parse_expression_at(toks, i + 1) {
                    Outcome::Parsed(e, n) => {
                        if kind_at(toks, n) == TokenKind::RightParen {
                            Outcome::Parsed(Expr::Grouping(Box::new(e)), n + 1)
                        } else {
                            let line = line_at(toks, n);
                            Outcome::Failed(
                                Diagnostic { line, category: Category::UnclosedGroup },
                                n,
                            )
                        }
                    },
                    Outcome::Failed(d, n) => Outcome::Failed(d, n),
                }
            },
            _ => {
                Outcome::Failed(
                    Diagnostic { line: toks[i].line, category: Category::SyntaxError },
                    i,
                )
            },
        }
    } else {
        Outcome::Failed(Diagnostic { line: 1, category: Category::SyntaxError }, i)
    }
}

pub fn parse_unary_at(toks: &Vec<PlacedToken>, i: usize) -> (r: Outcome)
    requires
        i <= toks@.len(),
    ensures
        outcome_matches(r, parse_unary(placed_views(toks@), i as int), i as int,
            toks@.len() as int),
    decreases left(placed_views(toks@), i as int), 3int,
{
    let k = kind_at(toks, i);
    if k == TokenKind::Bang || k == TokenKind::Minus {
        let tlen = toks.len();
        proof {
            assert(placed_views(toks@).len() == toks@.len());
            assert((i as int) < toks@.len());
        }
        let opc: char = if k == TokenKind::Bang {
            '!'
        } else {
            '-'
        };
        match parse_unary_at(toks, i + 1) {
            Outcome::Parsed(e, n) => Outcome::Parsed(Expr::Unary(opc, Box::new(e)), n),
            Outcome::Failed(d, n) => Outcome::Failed(d, n),
        }
    } else {
        parse_primary_at(toks, i)
    }
}

pub fn parse_factor_at(toks: &Vec<PlacedToken>, i: usize) -> (r: Outcome)
    requires
        i <= toks@.len(),
    ensures
        outcome_matches(r, parse_factor(placed_views(toks@), i as int), i as int,
            toks@.len() as int),
    decreases left(placed_views(toks@), i as int), 5int,
{
    let ghost ts = placed_views(toks@);
    let first = parse_unary_at(toks, i);
    let (mut acc, mut n) = match first {
        Outcome::Parsed(e, n0) => (e, n0),
        Outcome::Failed(d, n0) => {
            return Outcome::Failed(d, n0);
        },
    };
    while n < toks.len() && (kind_at(toks, n) == TokenKind::Star
        || kind_at(toks, n) == TokenKind::Slash)
        invariant
            i < n,
            n as int <= toks@.len(),
            ts == placed_views(toks@),
            parse_factor(ts, i as int) == factor_tail(ts, n as int, expr_view(acc),
                (n - i) as nat),
        decreases toks@.len() - n,
    {
        let ghost av = expr_view(acc);
        let ghost used: nat = (n - i) as nat;
        proof {
            assert(ts.len() == toks@.len());
            assert(tok_at(ts, n as int).tok.kind != TokenKind::Eof);
            assert((n as int) < ts.len());
        }
        let k = kind_at(toks, n);
        match parse_unary_at(toks, n + 1) {
            Outcome::Parsed(e2, n2) => {
                let ghost ev2 = expr_view(e2);
                proof {
                    assert(factor_tail(ts, n as int, av, used) == factor_tail(
                        ts,
                        n2 as int,
                        SpecExpr::Binary(k, Box::new(av), Box::new(ev2)),
                        (n2 - i) as nat,
                    ));
                }
                acc = Expr::Binary(k, Box::new(acc), Box::new(e2));
                n = n2;
                proof {
                    assert(expr_view(acc) == SpecExpr::Binary(k, Box::new(av), Box::new(ev2)));
                }
            },
            Outcome::Failed(d, n2) => {
                proof {
                    assert(factor_tail(ts, n as int, av, used) == POut::Failed(
                        d@,
                        (n2 - i) as nat,
                    ));
                }
                return Outcome::Failed(d, n2);
            },
        }
    }
    Outcome::Parsed(acc, n)
}

pub fn parse_term_at(toks: &Vec<PlacedToken>, i: usize) -> (r: Outcome)
    requires
        i <= toks@.len(),
    ensures
        outcome_matches(r, parse_term(placed_views(toks@), i as int), i as int,
            toks@.len() as int),
    decreases left(placed_views(toks@), i as int), 7int,
{
    let ghost ts = placed_views(toks@);
    let first = parse_factor_at(toks, i);
    let (mut acc, mut n) = match first {
        Outcome::Parsed(e, n0) => (e, n0),
        Outcome::Failed(d, n0) => {
            return Outcome::Failed(d, n0);
        },
    };
    while n < toks.len() && (kind_at(toks, n) == TokenKind::Plus
        || kind_at(toks, n) == TokenKind::Minus)
        invariant
            i < n,
            n as int <= toks@.len(),
            ts == placed_views(toks@),
            parse_term(ts, i as int) == term_tail(ts, n as int, expr_view(acc), (n - i) as nat),
        decreases toks@.len() - n,
    {
        let ghost av = expr_view(acc);
        let ghost used: nat = (n - i) as nat;
        proof {
            assert(ts.len() == toks@.len());
            assert(tok_at(ts, n as int).tok.kind != TokenKind::Eof);
            assert((n as int) < ts.len());
        }
        let k = kind_at(toks, n);
        match parse_factor_at(toks, n + 1) {
            Outcome::Parsed(e2, n2) => {
                let ghost ev2 = expr_view(e2);
                proof {
                    assert(term_tail(ts, n as int, av, used) == term_tail(
                        ts,
                        n2 as int,
                        SpecExpr::Binary(k, Box::new(av), Box::new(ev2)),
                        (n2 - i) as nat,
                    ));
                }
                acc = Expr::Binary(k, Box::new(acc), Box::new(e2));
                n = n2;
                proof {
                    assert(expr_view(acc) == SpecExpr::Binary(k, Box::new(av), Box::new(ev2)));
                }
            },
            Outcome::Failed(d, n2) => {
                proof {
                    assert(term_tail(ts, n as int, av, used) == POut::Failed(
                        d@,
                        (n2 - i) as nat,
                    ));
                }
                return Outcome::Failed(d, n2);
            },
        }
    }
    Outcome::Parsed(acc, n)
}

#[verifier::rlimit(50)]
pub fn parse_comparison_at(toks: &Vec<PlacedToken>, i: usize) -> (r: Outcome)
    requires
        i <= toks@.len(),
    ensures
        outcome_matches(r, parse_comparison(placed_views(toks@), i as int), i as int,
            toks@.len() as int),
    decreases left(placed_views(toks@), i as int), 9int,
{
    let ghost ts = placed_views(toks@);
    let first = parse_term_at(toks, i);
    let (mut acc, mut n) = match first {
        Outcome::Parsed(e, n0) => (e, n0),
        Outcome::Failed(d, n0) => {
            return Outcome::Failed(d, n0);
        },
    };
    while n < toks.len() && (kind_at(toks, n) == TokenKind::Less
        || kind_at(toks, n) == TokenKind::LessEqual
        || kind_at(toks, n) == TokenKind::Greater
        || kind_at(toks, n) == TokenKind::GreaterEqual)
        invariant
            i < n,
            n as int <= toks@.len(),
            ts == placed_views(toks@),
            parse_comparison(ts, i as int) == comparison_tail(ts, n as int, expr_view(acc),
                (n - i) as nat),
        decreases toks@.len() - n,
    {
        let ghost av = expr_view(acc);
        let ghost used: nat = (n - i) as nat;
        proof {
            assert(ts.len() == toks@.len());
            assert(tok_at(ts, n as int).tok.kind != TokenKind::Eof);
            assert((n as int) < ts.len());
        }
        let k = kind_at(toks, n);
        match parse_term_at(toks, n + 1) {
            Outcome::Parsed(e2, n2) => {
                let ghost ev2 = expr_view(e2);
                proof {
                    assert(comparison_tail(ts, n as int, av, used) == comparison_tail(
                        ts,
                        n2 as int,
                        SpecExpr::Binary(k, Box::new(av), Box::new(ev2)),
                        (n2 - i) as nat,
                    ));
                }
                acc = Expr::Binary(k, Box::new(acc), Box::new(e2));
                n = n2;
                proof {
                    assert(expr_view(acc) == SpecExpr::Binary(k, Box::new(av), Box::new(ev2)));
                }
            },
            Outcome::Failed(d, n2) => {
                proof {
                    assert(comparison_tail(ts, n as int, av, used) == POut::Failed(
                        d@,
                        (n2 - i) as nat,
                    ));
                }
                return Outcome::Failed(d, n2);
            },
        }
    }
    Outcome::Parsed(acc, n)
}

#[verifier::rlimit(100)]
pub fn parse_equality_at(toks: &Vec<PlacedToken>, i: usize) -> (r: Outcome)
    requires
        i <= toks@.len(),
    ensures
        outcome_matches(r, parse_equality(placed_views(toks@), i as int), i as int,
            toks@.len() as int),
    decreases left(placed_views(toks@), i as int), 11int,
{
    let ghost ts = placed_views(toks@);
    let first = parse_comparison_at(toks, i);
    let (mut acc, mut n) = match first {
        Outcome::Parsed(e, n0) => (e, n0),
        Outcome::Failed(d, n0) => {
            return Outcome::Failed(d, n0);
        },
    };
    while n < toks.len() && (kind_at(toks, n) == TokenKind::EqualEqual
        || kind_at(toks, n) == TokenKind::BangEqual)
        invariant
            i < n,
            n as int <= toks@.len(),
            ts == placed_views(toks@),
            parse_equality(ts, i as int) == equality_tail(ts, n as int, expr_view(acc),
                (n - i) as nat),
        decreases toks@.len() - n,
    {
        let ghost av = expr_view(acc);
        let ghost used: nat = (n - i) as nat;
        proof {
            assert(ts.len() == toks@.len());
            assert(tok_at(ts, n as int).tok.kind != TokenKind::Eof);
            assert((n as int) < ts.len());
        }
        let k = kind_at(toks, n);
        match parse_comparison_at(toks, n + 1) {
            Outcome::Parsed(e2, n2) => {
                let ghost ev2 = expr_view(e2);
                proof {
                    assert(equality_tail(ts, n as int, av, used) == equality_tail(
                        ts,
                        n2 as int,
                        SpecExpr::Binary(k, Box::new(av), Box::new(ev2)),
                        (n2 - i) as nat,
                    ));
                }
                acc = Expr::Binary(k, Box::new(acc), Box::new(e2));
                n = n2;
                proof {
                    assert(expr_view(acc) == SpecExpr::Binary(k, Box::new(av), Box::new(ev2)));
                }
            },
            Outcome::Failed(d, n2) => {
                proof {
                    assert(equality_tail(ts, n as int, av, used) == POut::Failed(
                        d@,
                        (n2 - i) as nat,
                    ));
                }
                return Outcome::Failed(d, n2);
            },
        }
    }
    Outcome::Parsed(acc, n)
}

/// Parses one expression starting at token `i`.
pub fn parse_expression_at(toks: &Vec<PlacedToken>, i: usize) -> (r: Outcome)
    requires
        i <= toks@.len(),
    ensures
        outcome_matches(r, parse_expression(placed_views(toks@), i as int), i as int,
            toks@.len() as int),
    decreases left(placed_views(toks@), i as int), 12int,
{
    parse_equality_at(toks, i)
}

/// Advances past a failed expression: to just after the next statement
/// terminator, or to the end-of-input token.
fn sync_from(toks: &Vec<PlacedToken>, p: usize) -> (q: usize)
    requires
        p <= toks@.len(),
    ensures
        q as int == sync_pos(placed_views(toks@), p as int),
        p <= q <= toks@.len(),
{
    let ghost ts = placed_views(toks@);
    let mut q = p;
    while q < toks.len() && kind_at(toks, q) != TokenKind::Semicolon
        && kind_at(toks, q) != TokenKind::Eof
        invariant
            p <= q <= toks@.len(),
            ts == placed_views(toks@),
            sync_pos(ts, p as int) == sync_pos(ts, q as int),
        decreases toks@.len() - q,
    {
        proof {
            assert(tok_at(ts, q as int) == ts[q as int]);
        }
        q = q + 1;
    }
    if q < toks.len() && kind_at(toks, q) == TokenKind::Semicolon {
        proof {
            assert(tok_at(ts, q as int) == ts[q as int]);
        }
        q + 1
    } else {
        q
    }
}

/// Parses every top-level expression of a token sequence: one rendered
/// line per parsed expression, one diagnostic per failure, after which
/// parsing resumes past the next statement terminator.
#[verifier::rlimit(100)]
pub fn parse_program(toks: &Vec<PlacedToken>) -> (r: (Vec<String>, Vec<Diagnostic>))
    ensures
        string_views(r.0@) == program_from(placed_views(toks@), 0).lines,
        diag_views(r.1@) == program_from(placed_views(toks@), 0).diags,
{
    let ghost ts = placed_views(toks@);
    let mut lines: Vec<String> = Vec::new();
    let mut diags: Vec<Diagnostic> = Vec::new();
    let mut pos: usize = 0;
    while pos < toks.len() && kind_at(toks, pos) != TokenKind::Eof
        invariant
            pos <= toks@.len(),
            ts == placed_views(toks@),
            program_from(ts, 0).lines == string_views(lines@)
                + program_from(ts, pos as int).lines,
            program_from(ts, 0).diags == diag_views(diags@)
                + program_from(ts, pos as int).diags,
        decreases toks@.len() - pos,
    {
        proof {
            assert(ts[pos as int] == toks@[pos as int]@);
        }
        let ghost before = program_from(ts, pos as int);
        if toks[pos].token.kind == TokenKind::Semicolon {
            proof {
                assert(before == program_from(ts, pos + 1));
            }
            pos = pos + 1;
        } else {
            match parse_expression_at(toks, pos) {
                Outcome::Parsed(e, n) => {
                    let ghost prev = lines@;
                    let ghost rest = program_from(ts, n as int);
                    proof {
                        assert(before.lines == seq![render(expr_view(e))] + rest.lines);
                        assert(before.diags == rest.diags);
                    }
                    let line = render_expr(&e);
                    lines.push(line);
                    proof {
                        assert(string_views(lines@) =~= string_views(prev).push(
                            render(expr_view(e))));
                        assert(string_views(prev).push(render(expr_view(e))) + rest.lines
                            =~= string_views(prev) + before.lines);
                    }
                    pos = n;
                },
                Outcome::Failed(d, n) => {
                    let q = sync_from(toks, n);
                    let ghost prev = diags@;
                    let ghost rest = program_from(ts, q as int);
                    proof {
                        let c = (n - pos) as nat;
                        if c == 0 {
                            assert(sync_pos(ts, pos as int) == sync_pos(ts, pos + 1));
                            lemma_sync_pos(ts, pos + 1);
                        } else {
                            lemma_sync_pos(ts, n as int);
                        }
                        assert(pos < q);
                        assert(before.diags == seq![d@] + rest.diags);
                        assert(before.lines == rest.lines);
                    }
                    diags.push(d);
                    proof {
                        assert(diag_views(diags@) =~= diag_views(prev).push(d@));
                        assert(diag_views(prev).push(d@) + rest.diags =~= diag_views(prev)
                            + before.diags);
                    }
                    pos = q;
                },
            }
        }
    }
    proof {
        if (pos as int) < ts.len() {
            assert(ts[pos as int] == toks@[pos as int]@);
            assert(program_from(ts, pos as int).lines == Seq::<Seq<char>>::empty());
        }
        assert(string_views(lines@) =~= program_from(ts, 0).lines);
        assert(diag_views(diags@) =~= program_from(ts, 0).diags);
    }
    (lines, diags)
}

/// Parses a whole source text: scans it, parses every top-level
/// expression, and returns one rendered line per expression together with
/// every lexical and syntactic diagnostic.
pub fn parse(src: &str) -> (r: Report)
    requires
        src@.len() < usize::MAX,
    ensures
        r.lines_view() == parse_model(src@).lines,
        r.diags_view() == parse_model(src@).diags,
{
    let cs = str_to_chars(src);
    let (toks, mut diags) = scan_tokens(&cs);
    let (lines, mut pdiags) = parse_program(&toks);
    let ghost lexd = diags@;
    let ghost synd = pdiags@;
    diags.append(&mut pdiags);
    proof {
        assert(diags@ == lexd + synd);
        assert(diag_views(diags@) =~= diag_views(lexd) + diag_views(synd));
    }
    Report { lines, diagnostics: diags }
}

} // verus!
