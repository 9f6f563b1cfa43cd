//! The token stream and the tokenize pass.
//!
//! The stream drives the lexeme classifier across the whole source text,
//! counting line boundaries and recording recoverable lexical errors, and
//! always ends the token sequence with the end-of-input token.  The
//! tokenize pass renders one printed line per token.

use vstd::prelude::*;
use crate::token::{SpecLexed, SpecPlaced, SpecToken, TokenKind, Lexed, PlacedToken,
    eof_token, make_eof_token, lex_step, lemma_lex_step, next_token, placed_views,
    token_line, token_line_of};
use crate::report::{Category, SpecDiag, Diagnostic, Report, diag_views};
use crate::text::str_to_chars;

verus! {

/// Model of a whole scan: every token with the 1-based line it began on,
/// ending with the end-of-input token, and every lexical diagnostic.
pub struct ScanModel {
    pub toks: Seq<SpecPlaced>,
    pub diags: Seq<SpecDiag>,
}

/// The scan model from position `i`, with `nl` newlines already consumed.
pub open spec fn scan_from(s: Seq<char>, i: int, nl: nat) -> ScanModel
    decreases s.len() - i,
    when 0 <= i <= s.len()
{
    let st = lex_step(s, i);
    match st.item {
        SpecLexed::EndOfInput => ScanModel {
            toks: seq![SpecPlaced { tok: eof_token(), line: nl + 1 }],
            diags: seq![],
        },
        SpecLexed::Token(t) => {
            proof {
                lemma_lex_step(s, i);
            }
            let rest = scan_from(s, st.next, nl);
            ScanModel {
                toks: seq![SpecPlaced { tok: t, line: nl + 1 }] + rest.toks,
                diags: rest.diags,
            }
        },
        SpecLexed::Newline => {
            proof {
                lemma_lex_step(s, i);
            }
            scan_from(s, st.next, nl + 1)
        },
        SpecLexed::UnterminatedString => {
            proof {
                lemma_lex_step(s, i);
            }
            let rest = scan_from(s, st.next, nl);
            ScanModel {
                toks: rest.toks,
                diags: seq![SpecDiag { line: nl + 1, category: Category::UnterminatedString }]
                    + rest.diags,
            }
        },
        SpecLexed::UnexpectedChar(c) => {
            proof {
                lemma_lex_step(s, i);
            }
            let rest = scan_from(s, st.next, nl);
            ScanModel {
                toks: rest.toks,
                diags: seq![
                    SpecDiag { line: (nl + 1) as nat, category: Category::UnexpectedCharacter(c) },
                ] + rest.diags,
            }
        },
    }
}

/// The scan model of a whole source text.
pub open spec fn scan_model(s: Seq<char>) -> ScanModel {
    scan_from(s, 0, 0)
}

/// The token sequence of every scan is well formed: it is non-empty, its
/// last element is the end-of-input token, and no earlier element is.
pub proof fn lemma_scan_wf(s: Seq<char>, i: int, nl: nat)
    requires
        0 <= i <= s.len(),
    ensures
        scan_from(s, i, nl).toks.len() >= 1,
        scan_from(s, i, nl).toks.last().tok == eof_token(),
        forall|k: int| 0 <= k < scan_from(s, i, nl).toks.len() - 1
            ==> #[trigger] scan_from(s, i, nl).toks[k].tok.kind != TokenKind::Eof,
    decreases s.len() - i,
{
    let st = lex_step(s, i);
    lemma_lex_step(s, i);
    match st.item {
        SpecLexed::EndOfInput => {},
        SpecLexed::Token(t) => {
            lemma_scan_wf(s, st.next, nl);
            assert(t.kind != TokenKind::Eof);
        },
        SpecLexed::Newline => {
            lemma_scan_wf(s, st.next, nl + 1);
        },
        SpecLexed::UnterminatedString => {
            lemma_scan_wf(s, st.next, nl);
        },
        SpecLexed::UnexpectedChar(_) => {
            lemma_scan_wf(s, st.next, nl);
        },
    }
}

/// Scans the whole source text into its token sequence and its lexical
/// diagnostics, exactly as the model [`scan_model`] describes.
pub fn scan_tokens(src: &Vec<char>) -> (r: (Vec<PlacedToken>, Vec<Diagnostic>))
    requires
        src@.len() < usize::MAX,
    ensures
        placed_views(r.0@) == scan_model(src@).toks,
        diag_views(r.1@) == scan_model(src@).diags,
{
    let mut toks: Vec<PlacedToken> = Vec::new();
    let mut diags: Vec<Diagnostic> = Vec::new();
    let mut pos: usize = 0;
    let mut nl: usize = 0;
    let mut done = false;
    while !done
        invariant
            pos <= src@.len(),
            src@.len() < usize::MAX,
            nl <= pos,
            !done ==> scan_model(src@).toks == placed_views(toks@)
                + scan_from(src@, pos as int, nl as nat).toks,
            !done ==> scan_model(src@).diags == diag_views(diags@)
                + scan_from(src@, pos as int, nl as nat).diags,
            done ==> placed_views(toks@) == scan_model(src@).toks,
            done ==> diag_views(diags@) == scan_model(src@).diags,
        decreases src@.len() - pos, (if done { 0int } else { 1int }),
    {
        let ghost pre = pos as int;
        let ghost prev_toks = toks@;
        let ghost prev_diags = diags@;
        let ghost mid = scan_from(src@, pre, nl as nat);
        let t = next_token(src, &mut pos);
        proof {
            lemma_lex_step(src@, pre);
        }
        match t {
            Lexed::EndOfInput => {
                let p = PlacedToken { token: make_eof_token(), line: nl + 1 };
                toks.push(p);
                done = true;
                proof {
                    assert(mid.toks == seq![SpecPlaced { tok: eof_token(), line: (nl + 1) as nat }]);
                    assert(placed_views(toks@) =~= placed_views(prev_toks) + seq![p@]);
                    assert(placed_views(toks@) =~= scan_model(src@).toks);
                    assert(diag_views(diags@) =~= scan_model(src@).diags);
                }
            },
            Lexed::Token(tok) => {
                let ghost tv = tok@;
                let p = PlacedToken { token: tok, line: nl + 1 };
                toks.push(p);
                proof {
                    let rest = scan_from(src@, pos as int, nl as nat);
                    assert(mid.toks == seq![SpecPlaced { tok: tv, line: (nl + 1) as nat }] + rest.toks);
                    assert(mid.diags == rest.diags);
                    assert(placed_views(toks@) =~= placed_views(prev_toks) + seq![p@]);
                    assert(placed_views(toks@) + rest.toks =~= placed_views(prev_toks)
                        + mid.toks);
                }
            },
            Lexed::Newline => {
                nl = nl + 1;
            },
            Lexed::UnterminatedString => {
                let d = Diagnostic { line: nl + 1, category: Category::UnterminatedString };
                diags.push(d);
                proof {
                    let rest = scan_from(src@, pos as int, nl as nat);
                    assert(mid.toks == rest.toks);
                    assert(mid.diags == seq![
                        SpecDiag { line: (nl + 1) as nat, category: Category::UnterminatedString },
                    ] + rest.diags);
                    assert(diag_views(diags@) =~= diag_views(prev_diags) + seq![d@]);
                    assert(diag_views(diags@) + rest.diags =~= diag_views(prev_diags)
                        + mid.diags);
                }
            },
            Lexed::UnexpectedChar(c) => {
                let d = Diagnostic { line: nl + 1, category: Category::UnexpectedCharacter(c) };
                diags.push(d);
                proof {
                    let rest = scan_from(src@, pos as int, nl as nat);
                    assert(mid.toks == rest.toks);
                    assert(mid.diags == seq![
                        SpecDiag { line: (nl + 1) as nat, category: Category::UnexpectedCharacter(c) },
                    ] + rest.diags);
                    assert(diag_views(diags@) =~= diag_views(prev_diags) + seq![d@]);
                    assert(diag_views(diags@) + rest.diags =~= diag_views(prev_diags)
                        + mid.diags);
                }
            },
        }
    }
    (toks, diags)
}

/// The printed token lines of a whole source text, in order: one line per
/// token, the end-of-input marker line last.
pub open spec fn tokenize_lines(s: Seq<char>) -> Seq<Seq<char>> {
    scan_model(s).toks.map_values(|p: SpecPlaced| token_line(p.tok))
}

/// Tokenizes a whole source text: one printed line per recognized token
/// with the end-of-input marker last, and one diagnostic per lexical
/// error, each attributed to the line it began on.
pub fn tokenize(src: &str) -> (r: Report)
    requires
        src@.len() < usize::MAX,
    ensures
        r.lines_view() == tokenize_lines(src@),
        r.diags_view() == scan_model(src@).diags,
{
    let cs = str_to_chars(src);
    let (toks, diags) = scan_tokens(&cs);
    let mut lines: Vec<String> = Vec::new();
    let mut i: usize = 0;
    while i < toks.len()
        invariant
            i <= toks@.len(),
            placed_views(toks@) == scan_model(src@).toks,
            lines@.len() == i,
            forall|k: int| 0 <= k < i ==> crate::report::string_views(lines@)[k]
                == token_line(placed_views(toks@)[k].tok),
        decreases toks@.len() - i,
    {
        let l = token_line_of(&toks[i].token);
        let ghost prev = lines@;
        lines.push(l);
        proof {
            assert(crate::report::string_views(lines@) =~= crate::report::string_views(prev)
                .push(l@));
            assert(placed_views(toks@)[i as int].tok == toks@[i as int]@.tok);
        }
        i = i + 1;
    }
    proof {
        assert(crate::report::string_views(lines@) =~= tokenize_lines(src@));
    }
    Report { lines, diagnostics: diags }
}

/// The printed line of any token other than the end-of-input marker
/// differs from the marker line.
proof fn lemma_token_line_not_eof(t: SpecToken)
    requires
        t.kind != TokenKind::Eof,
    ensures
        token_line(t) != token_line(eof_token()),
{
    reveal_strlit("EOF");
    reveal_strlit("null");
    let el = token_line(eof_token());
    assert(el[0] == 'E');
    assert(el[1] == 'O');
    match t.kind {
        TokenKind::LeftParen => {
            reveal_strlit("LEFT_PAREN");
            assert(token_line(t)[0] == 'L');
        },
        TokenKind::RightParen => {
            reveal_strlit("RIGHT_PAREN");
            assert(token_line(t)[0] == 'R');
        },
        TokenKind::LeftBrace => {
            reveal_strlit("LEFT_BRACE");
            assert(token_line(t)[0] == 'L');
        },
        TokenKind::RightBrace => {
            reveal_strlit("RIGHT_BRACE");
            assert(token_line(t)[0] == 'R');
        },
        TokenKind::Star => {
            reveal_strlit("STAR");
            assert(token_line(t)[0] == 'S');
        },
        TokenKind::Dot => {
            reveal_strlit("DOT");
            assert(token_line(t)[0] == 'D');
        },
        TokenKind::Comma => {
            reveal_strlit("COMMA");
            assert(token_line(t)[0] == 'C');
        },
        TokenKind::Plus => {
            reveal_strlit("PLUS");
            assert(token_line(t)[0] == 'P');
        },
        TokenKind::Minus => {
            reveal_strlit("MINUS");
            assert(token_line(t)[0] == 'M');
        },
        TokenKind::Semicolon => {
            reveal_strlit("SEMICOLON");
            assert(token_line(t)[0] == 'S');
        },
        TokenKind::Equal => {
            reveal_strlit("EQUAL");
            assert(token_line(t)[1] == 'Q');
        },
        TokenKind::EqualEqual => {
            reveal_strlit("EQUAL_EQUAL");
            assert(token_line(t)[1] == 'Q');
        },
        TokenKind::Bang => {
            reveal_strlit("BANG");
            assert(token_line(t)[0] == 'B');
        },
        TokenKind::BangEqual => {
            reveal_strlit("BANG_EQUAL");
            assert(token_line(t)[0] == 'B');
        },
        TokenKind::Less => {
            reveal_strlit("LESS");
            assert(token_line(t)[0] == 'L');
        },
        TokenKind::LessEqual => {
            reveal_strlit("LESS_EQUAL");
            assert(token_line(t)[0] == 'L');
        },
        TokenKind::Greater => {
            reveal_strlit("GREATER");
            assert(token_line(t)[0] == 'G');
        },
        TokenKind::GreaterEqual => {
            reveal_strlit("GREATER_EQUAL");
            assert(token_line(t)[0] == 'G');
        },
        TokenKind::Slash => {
            reveal_strlit("SLASH");
            assert(token_line(t)[0] == 'S');
        },
        TokenKind::Str => {
            reveal_strlit("STRING");
            assert(token_line(t)[0] == 'S');
        },
        TokenKind::Number => {
            reveal_strlit("NUMBER");
            assert(token_line(t)[0] == 'N');
        },
        TokenKind::Identifier => {
            reveal_strlit("IDENTIFIER");
            assert(token_line(t)[0] == 'I');
        },
        TokenKind::And => {
            reveal_strlit("AND");
            assert(token_line(t)[0] == 'A');
        },
        TokenKind::Class => {
            reveal_strlit("CLASS");
            assert(token_line(t)[0] == 'C');
        },
        TokenKind::Else => {
            reveal_strlit("ELSE");
            assert(token_line(t)[1] == 'L');
        },
        TokenKind::False => {
            reveal_strlit("FALSE");
            assert(token_line(t)[0] == 'F');
        },
        TokenKind::For => {
            reveal_strlit("FOR");
            assert(token_line(t)[0] == 'F');
        },
        TokenKind::Fun => {
            reveal_strlit("FUN");
            assert(token_line(t)[0] == 'F');
        },
        TokenKind::If => {
            reveal_strlit("IF");
            assert(token_line(t)[0] == 'I');
        },
        TokenKind::Nil => {
            reveal_strlit("NIL");
            assert(token_line(t)[0] == 'N');
        },
        TokenKind::Or => {
            reveal_strlit("OR");
            assert(token_line(t)[0] == 'O');
        },
        TokenKind::Print => {
            reveal_strlit("PRINT");
            assert(token_line(t)[0] == 'P');
        },
        TokenKind::Return => {
            reveal_strlit("RETURN");
            assert(token_line(t)[0] == 'R');
        },
        TokenKind::Super => {
            reveal_strlit("SUPER");
            assert(token_line(t)[0] == 'S');
        },
        TokenKind::This => {
            reveal_strlit("THIS");
            assert(token_line(t)[0] == 'T');
        },
        TokenKind::True => {
            reveal_strlit("TRUE");
            assert(token_line(t)[0] == 'T');
        },
        TokenKind::Var => {
            reveal_strlit("VAR");
            assert(token_line(t)[0] == 'V');
        },
        TokenKind::While => {
            reveal_strlit("WHILE");
            assert(token_line(t)[0] == 'W');
        },
        TokenKind::Eof => {},
    }
}

/// For every source text, the tokenize output contains exactly one
/// end-of-input marker line, and it is the last line.
pub proof fn lemma_single_eof_line(s: Seq<char>)
    ensures
        tokenize_lines(s).len() >= 1,
        tokenize_lines(s).last() == token_line(eof_token()),
        forall|k: int| 0 <= k < tokenize_lines(s).len() - 1
            ==> #[trigger] tokenize_lines(s)[k] != token_line(eof_token()),
{
    lemma_scan_wf(s, 0, 0);
    let toks = scan_model(s).toks;
    assert(tokenize_lines(s).last() == token_line(toks.last().tok));
    assert forall|k: int| 0 <= k < tokenize_lines(s).len() - 1
        implies #[trigger] tokenize_lines(s)[k] != token_line(eof_token()) by {
        assert(toks[k].tok.kind != TokenKind::Eof);
        lemma_token_line_not_eof(toks[k].tok);
        assert(tokenize_lines(s)[k] == token_line(toks[k].tok));
    }
}

} // verus!
