//! Tokens, token kinds, and the lexeme classifier.
//!
//! The classifier inspects the source text at a cursor position and produces
//! exactly one of: a finished token, a newline signal, an unterminated-string
//! signal, an unexpected-character signal, or an end-of-input signal.  The
//! spec-level model [`lex_step`] fixes the outcome and the new cursor
//! position for every input; the executable functions are proved to match it.

use vstd::prelude::*;
use crate::text::{is_digit_char, is_alpha_char, is_word_char, is_numeral_char, is_blank_char,
    digit_char, alpha_char, numeral_char, word_char, blank_char, chars_to_string, copy_chars};

verus! {

/// The closed set of token kinds.
#[derive(Clone, Copy, PartialEq, Eq, Structural, Debug)]
pub enum TokenKind {
    LeftParen,
    RightParen,
    LeftBrace,
    RightBrace,
    Star,
    Dot,
    Comma,
    Plus,
    Minus,
    Semicolon,
    Equal,
    EqualEqual,
    Bang,
    BangEqual,
    Less,
    LessEqual,
    Greater,
    GreaterEqual,
    Slash,
    Str,
    Number,
    Identifier,
    And,
    Class,
    Else,
    False,
    For,
    Fun,
    If,
    Nil,
    Or,
    Print,
    Return,
    Super,
    This,
    True,
    Var,
    While,
    Eof,
}

/// The display name of a token kind, as it appears in a token line.
pub open spec fn kind_name(k: TokenKind) -> Seq<char> {
    match k {
        TokenKind::LeftParen => "LEFT_PAREN"@,
        TokenKind::RightParen => "RIGHT_PAREN"@,
        TokenKind::LeftBrace => "LEFT_BRACE"@,
        TokenKind::RightBrace => "RIGHT_BRACE"@,
        TokenKind::Star => "STAR"@,
        TokenKind::Dot => "DOT"@,
        TokenKind::Comma => "COMMA"@,
        TokenKind::Plus => "PLUS"@,
        TokenKind::Minus => "MINUS"@,
        TokenKind::Semicolon => "SEMICOLON"@,
        TokenKind::Equal => "EQUAL"@,
        TokenKind::EqualEqual => "EQUAL_EQUAL"@,
        TokenKind::Bang => "BANG"@,
        TokenKind::BangEqual => "BANG_EQUAL"@,
        TokenKind::Less => "LESS"@,
        TokenKind::LessEqual => "LESS_EQUAL"@,
        TokenKind::Greater => "GREATER"@,
        TokenKind::GreaterEqual => "GREATER_EQUAL"@,
        TokenKind::Slash => "SLASH"@,
        TokenKind::Str => "STRING"@,
        TokenKind::Number => "NUMBER"@,
        TokenKind::Identifier => "IDENTIFIER"@,
        TokenKind::And => "AND"@,
        TokenKind::Class => "CLASS"@,
        TokenKind::Else => "ELSE"@,
        TokenKind::False => "FALSE"@,
        TokenKind::For => "FOR"@,
        TokenKind::Fun => "FUN"@,
        TokenKind::If => "IF"@,
        TokenKind::Nil => "NIL"@,
        TokenKind::Or => "OR"@,
        TokenKind::Print => "PRINT"@,
        TokenKind::Return => "RETURN"@,
        TokenKind::Super => "SUPER"@,
        TokenKind::This => "THIS"@,
        TokenKind::True => "TRUE"@,
        TokenKind::Var => "VAR"@,
        TokenKind::While => "WHILE"@,
        TokenKind::Eof => "EOF"@,
    }
}

/// Returns the display name of a token kind.
pub fn kind_name_of(k: TokenKind) -> (s: String)
    ensures
        s@ == kind_name(k),
{
    match k {
        TokenKind::LeftParen => String::from_str("LEFT_PAREN"),
        TokenKind::RightParen => String::from_str("RIGHT_PAREN"),
        TokenKind::LeftBrace => String::from_str("LEFT_BRACE"),
        TokenKind::RightBrace => String::from_str("RIGHT_BRACE"),
        TokenKind::Star => String::from_str("STAR"),
        TokenKind::Dot => String::from_str("DOT"),
        TokenKind::Comma => String::from_str("COMMA"),
        TokenKind::Plus => String::from_str("PLUS"),
        TokenKind::Minus => String::from_str("MINUS"),
        TokenKind::Semicolon => String::from_str("SEMICOLON"),
        TokenKind::Equal => String::from_str("EQUAL"),
        TokenKind::EqualEqual => String::from_str("EQUAL_EQUAL"),
        TokenKind::Bang => String::from_str("BANG"),
        TokenKind::BangEqual => String::from_str("BANG_EQUAL"),
        TokenKind::Less => String::from_str("LESS"),
        TokenKind::LessEqual => String::from_str("LESS_EQUAL"),
        TokenKind::Greater => String::from_str("GREATER"),
        TokenKind::GreaterEqual => String::from_str("GREATER_EQUAL"),
        TokenKind::Slash => String::from_str("SLASH"),
        TokenKind::Str => String::from_str("STRING"),
        TokenKind::Number => String::from_str("NUMBER"),
        TokenKind::Identifier => String::from_str("IDENTIFIER"),
        TokenKind::And => String::from_str("AND"),
        TokenKind::Class => String::from_str("CLASS"),
        TokenKind::Else => String::from_str("ELSE"),
        TokenKind::False => String::from_str("FALSE"),
        TokenKind::For => String::from_str("FOR"),
        TokenKind::Fun => String::from_str("FUN"),
        TokenKind::If => String::from_str("IF"),
        TokenKind::Nil => String::from_str("NIL"),
        TokenKind::Or => String::from_str("OR"),
        TokenKind::Print => String::from_str("PRINT"),
        TokenKind::Return => String::from_str("RETURN"),
        TokenKind::Super => String::from_str("SUPER"),
        TokenKind::This => String::from_str("THIS"),
        TokenKind::True => String::from_str("TRUE"),
        TokenKind::Var => String::from_str("VAR"),
        TokenKind::While => String::from_str("WHILE"),
        TokenKind::Eof => String::from_str("EOF"),
    }
}

/// Mathematical model of a token: its kind, the exact source substring it
/// was scanned from, and the normalized literal value, if the kind has one.
pub struct SpecToken {
    pub kind: TokenKind,
    pub lexeme: Seq<char>,
    pub literal: Option<Seq<char>>,
}

/// A classified lexeme: the kind, the exact source substring, and the
/// normalized literal value for string and number tokens.
pub struct Token {
    pub kind: TokenKind,
    pub lexeme: String,
    pub literal: Option<String>,
}

impl View for Token {
    type V = SpecToken;

    open spec fn view(&self) -> SpecToken {
        SpecToken {
            kind: self.kind,
            lexeme: self.lexeme@,
            literal: match self.literal {
                Some(l) => Some(l@),
                None => None,
            },
        }
    }
}

/// The token that marks the end of the input: empty lexeme, no literal.
pub open spec fn eof_token() -> SpecToken {
    SpecToken { kind: TokenKind::Eof, lexeme: Seq::empty(), literal: None }
}

/// Builds the end-of-input token.
pub fn make_eof_token() -> (t: Token)
    ensures
        t@ == eof_token(),
{
    let t = Token { kind: TokenKind::Eof, lexeme: String::new(), literal: None };
    proof {
        assert(t@.lexeme =~= eof_token().lexeme);
    }
    t
}

/// Model of a token together with the 1-based line it began on.
pub struct SpecPlaced {
    pub tok: SpecToken,
    pub line: nat,
}

/// A token together with the 1-based line it began on, for diagnostics.
pub struct PlacedToken {
    pub token: Token,
    pub line: usize,
}

impl View for PlacedToken {
    type V = SpecPlaced;

    open spec fn view(&self) -> SpecPlaced {
        SpecPlaced { tok: self.token@, line: self.line as nat }
    }
}

/// The views of a sequence of placed tokens.
pub open spec fn placed_views(v: Seq<PlacedToken>) -> Seq<SpecPlaced> {
    v.map_values(|p: PlacedToken| p@)
}

/// The printed form of a token: `<KIND> <lexeme> <literal-or-null>`.
pub open spec fn token_line(t: SpecToken) -> Seq<char> {
    kind_name(t.kind) + seq![' '] + t.lexeme + seq![' '] + (match t.literal {
        Some(l) => l,
        None => "null"@,
    })
}

/// Renders a token as its printed line.
pub fn token_line_of(t: &Token) -> (s: String)
    ensures
        s@ == token_line(t@),
{
    let mut s = kind_name_of(t.kind);
    crate::text::push_char(&mut s, ' ');
    s.append(t.lexeme.as_str());
    crate::text::push_char(&mut s, ' ');
    match &t.literal {
        Some(l) => s.append(l.as_str()),
        None => s.append("null"),
    }
    proof {
        assert(s@ =~= token_line(t@));
    }
    s
}

/// The keyword kind matching an identifier lexeme exactly, or
/// `Identifier` if it matches none of the sixteen reserved words.
pub open spec fn keyword_kind(w: Seq<char>) -> TokenKind {
    if w == "and"@ {
        TokenKind::And
    } else if w == "class"@ {
        TokenKind::Class
    } else if w == "else"@ {
        TokenKind::Else
    } else if w == "false"@ {
        TokenKind::False
    } else if w == "for"@ {
        TokenKind::For
    } else if w == "fun"@ {
        TokenKind::Fun
    } else if w == "if"@ {
        TokenKind::If
    } else if w == "nil"@ {
        TokenKind::Nil
    } else if w == "or"@ {
        TokenKind::Or
    } else if w == "print"@ {
        TokenKind::Print
    } else if w == "return"@ {
        TokenKind::Return
    } else if w == "super"@ {
        TokenKind::Super
    } else if w == "this"@ {
        TokenKind::This
    } else if w == "true"@ {
        TokenKind::True
    } else if w == "var"@ {
        TokenKind::Var
    } else if w == "while"@ {
        TokenKind::While
    } else {
        TokenKind::Identifier
    }
}

/// Compares a character buffer against a string slice, character by
/// character.
pub fn word_is(w: &Vec<char>, s: &str) -> (b: bool)
    ensures
        b == (w@ == s@),
{
    let n = s.unicode_len();
    if w.len() != n {
        proof {
            assert(w@.len() != s@.len());
        }
        return false;
    }
    let mut i: usize = 0;
    while i < n
        invariant
            i <= n,
            n as nat == s@.len(),
            w@.len() == s@.len(),
            forall|k: int| 0 <= k < i ==> w@[k] == s@[k],
        decreases n - i,
    {
        if w[i] != s.get_char(i) {
            return false;
        }
        i = i + 1;
    }
    proof {
        assert(w@ =~= s@);
    }
    true
}

/// The first position at or after `i` whose character fails `p`, or the
/// end of the text if every remaining character satisfies `p`.
pub open spec fn run_end(s: Seq<char>, i: int, p: spec_fn(char) -> bool) -> int
    decreases s.len() - i,
{
    if i < s.len() && p(s[i]) {
        run_end(s, i + 1, p)
    } else {
        i
    }
}

pub proof fn lemma_run_end(s: Seq<char>, i: int, p: spec_fn(char) -> bool)
    requires
        0 <= i <= s.len(),
    ensures
        i <= run_end(s, i, p) <= s.len(),
        forall|k: int| i <= k < run_end(s, i, p) ==> p(s[k]),
        run_end(s, i, p) < s.len() ==> !p(s[run_end(s, i, p)]),
    decreases s.len() - i,
{
    if i < s.len() && p(s[i]) {
        lemma_run_end(s, i + 1, p);
    }
}

pub open spec fn numeral_pred() -> spec_fn(char) -> bool {
    |c: char| is_numeral_char(c)
}

pub open spec fn word_pred() -> spec_fn(char) -> bool {
    |c: char| is_word_char(c)
}

pub open spec fn nonquote_pred() -> spec_fn(char) -> bool {
    |c: char| c != '"'
}

pub open spec fn nonnewline_pred() -> spec_fn(char) -> bool {
    |c: char| c != '\n'
}

/// End of the greedy numeral scan (digits and radix points) starting at `i`.
pub open spec fn numeral_end(s: Seq<char>, i: int) -> int {
    run_end(s, i, numeral_pred())
}

/// End of the greedy identifier scan starting at `i`.
pub open spec fn word_end(s: Seq<char>, i: int) -> int {
    run_end(s, i, word_pred())
}

/// Position of the closing quote of a string whose contents start at `i`,
/// or the end of the text if the string is unterminated.
pub open spec fn string_body_end(s: Seq<char>, i: int) -> int {
    run_end(s, i, nonquote_pred())
}

/// Position of the newline ending a line comment whose body starts at `i`,
/// or the end of the text.
pub open spec fn comment_end(s: Seq<char>, i: int) -> int {
    run_end(s, i, nonnewline_pred())
}

/// Skips blanks and line comments; stops at the first character that the
/// classifier must handle (including newlines, which are a signal of their
/// own so that line counting stays with the caller).
pub open spec fn skip_trivia(s: Seq<char>, i: int) -> int
    decreases s.len() - i,
{
    if i < 0 || i >= s.len() {
        i
    } else if is_blank_char(s[i]) {
        skip_trivia(s, i + 1)
    } else if s[i] == '/' && i + 1 < s.len() && s[i + 1] == '/' {
        proof {
            lemma_run_end(s, i + 2, nonnewline_pred());
        }
        skip_trivia(s, comment_end(s, i + 2))
    } else {
        i
    }
}

pub proof fn lemma_skip_trivia(s: Seq<char>, i: int)
    requires
        0 <= i <= s.len(),
    ensures
        i <= skip_trivia(s, i) <= s.len(),
        skip_trivia(s, i) < s.len() ==> !is_blank_char(s[skip_trivia(s, i)]),
        skip_trivia(s, i) < s.len() ==> !(s[skip_trivia(s, i)] == '/'
            && skip_trivia(s, i) + 1 < s.len() && s[skip_trivia(s, i) + 1] == '/'),
    decreases s.len() - i,
{
    if 0 <= i < s.len() {
        if is_blank_char(s[i]) {
            lemma_skip_trivia(s, i + 1);
        } else if s[i] == '/' && i + 1 < s.len() && s[i + 1] == '/' {
            lemma_run_end(s, i + 2, nonnewline_pred());
            lemma_skip_trivia(s, comment_end(s, i + 2));
        }
    }
}

/// Whether a numeral lexeme contains a radix point.
pub open spec fn has_dot(n: Seq<char>) -> bool {
    exists|k: int| 0 <= k < n.len() && n[k] == '.'
}

/// Removes trailing `0` characters.
pub open spec fn chop_zeros(s: Seq<char>) -> Seq<char>
    decreases s.len(),
{
    if s.len() > 0 && s[s.len() - 1] == '0' {
        chop_zeros(s.drop_last())
    } else {
        s
    }
}

/// The normalized literal of a numeral lexeme: guaranteed to show a radix
/// point and at least one fractional digit, with trailing zeros beyond the
/// first fractional digit stripped.
pub open spec fn normalize_numeral(n: Seq<char>) -> Seq<char> {
    let t = chop_zeros(if has_dot(n) { n } else { n + seq!['.', '0'] });
    if t.len() > 0 && t[t.len() - 1] == '.' {
        t.push('0')
    } else {
        t
    }
}

pub proof fn lemma_chop_zeros(s: Seq<char>)
    ensures
        chop_zeros(s).len() <= s.len(),
        forall|k: int| 0 <= k < chop_zeros(s).len() ==> chop_zeros(s)[k] == s[k],
        chop_zeros(s).len() > 0 ==> chop_zeros(s)[chop_zeros(s).len() - 1] != '0',
        forall|k: int| 0 <= k < s.len() && s[k] != '0' ==> k < chop_zeros(s).len(),
    decreases s.len(),
{
    if s.len() > 0 && s[s.len() - 1] == '0' {
        let p = s.drop_last();
        lemma_chop_zeros(p);
        assert(chop_zeros(s) == chop_zeros(p));
        assert forall|k: int| 0 <= k < chop_zeros(s).len() implies chop_zeros(s)[k] == s[k] by {
            assert(chop_zeros(p)[k] == p[k]);
            assert(p[k] == s[k]);
        }
        assert forall|k: int| 0 <= k < s.len() && s[k] != '0'
            implies k < chop_zeros(s).len() by {
            assert(k != s.len() - 1);
            assert(p[k] == s[k]);
        }
    }
}

/// For every numeral lexeme made of digits alone (no radix point), the
/// normalized literal is the lexeme followed by `.0`.
pub proof fn lemma_normalize_whole(n: Seq<char>)
    requires
        n.len() > 0,
        forall|k: int| 0 <= k < n.len() ==> is_digit_char(#[trigger] n[k]),
    ensures
        normalize_numeral(n) == n + seq!['.', '0'],
{
    assert(!has_dot(n));
    let base = n + seq!['.', '0'];
    assert(base[base.len() - 1] == '0');
    assert(base.drop_last() =~= n + seq!['.']);
    assert(chop_zeros(base) == chop_zeros(n + seq!['.']));
    assert((n + seq!['.'])[n.len() as int] == '.');
    assert(chop_zeros(n + seq!['.']) == n + seq!['.']);
    assert(normalize_numeral(n) == (n + seq!['.']).push('0'));
    assert((n + seq!['.']).push('0') =~= n + seq!['.', '0']);
}

/// For every numeral lexeme with a radix point, the normalized literal is
/// the lexeme with its trailing zeros stripped (one restored when none
/// would remain after the point): it never ends on the radix point, it
/// still contains one, and its last character is a digit, which is a zero
/// only when it is the sole fractional digit.
pub proof fn lemma_normalize_fractional(n: Seq<char>)
    requires
        n.len() > 0,
        has_dot(n),
        forall|k: int| 0 <= k < n.len() ==> is_numeral_char(#[trigger] n[k]),
    ensures
        ({
            let r = normalize_numeral(n);
            &&& r == chop_zeros(n) || r == chop_zeros(n).push('0')
            &&& r.len() >= 2
            &&& r[r.len() - 1] != '.'
            &&& is_digit_char(r[r.len() - 1])
            &&& (r[r.len() - 1] == '0' ==> r[r.len() - 2] == '.')
            &&& has_dot(r)
        }),
{
    let t = chop_zeros(n);
    let r = normalize_numeral(n);
    lemma_chop_zeros(n);
    let d = choose|d: int| 0 <= d < n.len() && n[d] == '.';
    assert(d < t.len() && t[d] == '.');
    assert(has_dot(t));
    if t[t.len() - 1] == '.' {
        assert(r == t.push('0'));
        assert(r[r.len() - 1] == '0');
        assert(r[r.len() - 2] == '.');
        assert(has_dot(r)) by {
            assert(r[d] == '.');
        }
    } else {
        assert(r == t);
        assert(t[t.len() - 1] == n[t.len() - 1]);
        assert(is_numeral_char(n[t.len() - 1]));
        assert(is_numeral_char(t[t.len() - 1]));
        assert(d != t.len() - 1);
        assert(t.len() >= d + 2);
        assert(has_dot(r)) by {
            assert(r[d] == '.');
        }
    }
}

/// Model of one classifier outcome.
pub enum SpecLexed {
    Token(SpecToken),
    Newline,
    UnterminatedString,
    UnexpectedChar(char),
    EndOfInput,
}

/// One classifier outcome together with the cursor position that follows it.
pub struct LexStep {
    pub item: SpecLexed,
    pub next: int,
}

pub open spec fn spec_one_char(s: Seq<char>, j: int, kind: TokenKind) -> LexStep {
    LexStep {
        item: SpecLexed::Token(
            SpecToken { kind, lexeme: s.subrange(j, j + 1), literal: None },
        ),
        next: j + 1,
    }
}

pub open spec fn spec_two_char(s: Seq<char>, j: int, kind: TokenKind) -> LexStep {
    LexStep {
        item: SpecLexed::Token(
            SpecToken { kind, lexeme: s.subrange(j, j + 2), literal: None },
        ),
        next: j + 2,
    }
}

/// The number token scanned from position `j` (a digit).
pub open spec fn spec_numeral_token(s: Seq<char>, j: int) -> SpecToken {
    let lx = s.subrange(j, numeral_end(s, j));
    SpecToken { kind: TokenKind::Number, lexeme: lx, literal: Some(normalize_numeral(lx)) }
}

/// The identifier or keyword token scanned from position `j` (a letter or
/// underscore).
pub open spec fn spec_word_token(s: Seq<char>, j: int) -> SpecToken {
    let lx = s.subrange(j, word_end(s, j));
    SpecToken { kind: keyword_kind(lx), lexeme: lx, literal: None }
}

/// The string token whose opening quote stands at position `j`, defined
/// when the closing quote exists.
pub open spec fn spec_string_token(s: Seq<char>, j: int) -> SpecToken {
    let c = string_body_end(s, j + 1);
    SpecToken { kind: TokenKind::Str, lexeme: s.subrange(j, c + 1), literal: Some(s.subrange(j + 1, c)) }
}

/// The full model of the lexeme classifier: given the source text and a
/// cursor position, the outcome of classifying the next lexeme and the
/// position of the first unconsumed character.
pub open spec fn lex_step(s: Seq<char>, i: int) -> LexStep {
    let j = skip_trivia(s, i);
    if j >= s.len() {
        LexStep { item: SpecLexed::EndOfInput, next: j }
    } else if is_digit_char(s[j]) {
        LexStep { item: SpecLexed::Token(spec_numeral_token(s, j)), next: numeral_end(s, j) }
    } else if is_alpha_char(s[j]) {
        LexStep { item: SpecLexed::Token(spec_word_token(s, j)), next: word_end(s, j) }
    } else if s[j] == '"' {
        let c = string_body_end(s, j + 1);
        if c < s.len() {
            LexStep { item: SpecLexed::Token(spec_string_token(s, j)), next: c + 1 }
        } else {
            LexStep { item: SpecLexed::UnterminatedString, next: s.len() as int }
        }
    } else if s[j] == '=' {
        if j + 1 < s.len() && s[j + 1] == '=' {
            spec_two_char(s, j, TokenKind::EqualEqual)
        } else {
            spec_one_char(s, j, TokenKind::Equal)
        }
    } else if s[j] == '!' {
        if j + 1 < s.len() && s[j + 1] == '=' {
            spec_two_char(s, j, TokenKind::BangEqual)
        } else {
            spec_one_char(s, j, TokenKind::Bang)
        }
    } else if s[j] == '<' {
        if j + 1 < s.len() && s[j + 1] == '=' {
            spec_two_char(s, j, TokenKind::LessEqual)
        } else {
            spec_one_char(s, j, TokenKind::Less)
        }
    } else if s[j] == '>' {
        if j + 1 < s.len() && s[j + 1] == '=' {
            spec_two_char(s, j, TokenKind::GreaterEqual)
        } else {
            spec_one_char(s, j, TokenKind::Greater)
        }
    } else if s[j] == '/' {
        // skip_trivia never stops at a comment, so this is a lone slash
        spec_one_char(s, j, TokenKind::Slash)
    } else if s[j] == '(' {
        spec_one_char(s, j, TokenKind::LeftParen)
    } else if s[j] == ')' {
        spec_one_char(s, j, TokenKind::RightParen)
    } else if s[j] == '{' {
        spec_one_char(s, j, TokenKind::LeftBrace)
    } else if s[j] == '}' {
        spec_one_char(s, j, TokenKind::RightBrace)
    } else if s[j] == '*' {
        spec_one_char(s, j, TokenKind::Star)
    } else if s[j] == '.' {
        spec_one_char(s, j, TokenKind::Dot)
    } else if s[j] == ',' {
        spec_one_char(s, j, TokenKind::Comma)
    } else if s[j] == '+' {
        spec_one_char(s, j, TokenKind::Plus)
    } else if s[j] == '-' {
        spec_one_char(s, j, TokenKind::Minus)
    } else if s[j] == ';' {
        spec_one_char(s, j, TokenKind::Semicolon)
    } else if s[j] == '\n' {
        LexStep { item: SpecLexed::Newline, next: j + 1 }
    } else {
        LexStep { item: SpecLexed::UnexpectedChar(s[j]), next: j + 1 }
    }
}

pub proof fn lemma_lex_step(s: Seq<char>, i: int)
    requires
        0 <= i <= s.len(),
    ensures
        i <= lex_step(s, i).next <= s.len(),
        !(lex_step(s, i).item is EndOfInput) ==> i < lex_step(s, i).next,
        lex_step(s, i).item is EndOfInput ==> lex_step(s, i).next == skip_trivia(s, i),
{
    let j = skip_trivia(s, i);
    lemma_skip_trivia(s, i);
    if j < s.len() {
        if is_digit_char(s[j]) {
            lemma_run_end(s, j, numeral_pred());
            assert(numeral_end(s, j) == run_end(s, j + 1, numeral_pred()));
            lemma_run_end(s, j + 1, numeral_pred());
        } else if is_alpha_char(s[j]) {
            lemma_run_end(s, j, word_pred());
            assert(word_end(s, j) == run_end(s, j + 1, word_pred()));
            lemma_run_end(s, j + 1, word_pred());
        } else if s[j] == '"' {
            lemma_run_end(s, j + 1, nonquote_pred());
        }
    }
}

/// Classifier outcome as handed to callers: a finished token, a line
/// boundary, a recoverable error signal, or the end of the input.
pub enum Lexed {
    Token(Token),
    Newline,
    UnterminatedString,
    UnexpectedChar(char),
    EndOfInput,
}

impl View for Lexed {
    type V = SpecLexed;

    open spec fn view(&self) -> SpecLexed {
        match self {
            Lexed::Token(t) => SpecLexed::Token(t@),
            Lexed::Newline => SpecLexed::Newline,
            Lexed::UnterminatedString => SpecLexed::UnterminatedString,
            Lexed::UnexpectedChar(c) => SpecLexed::UnexpectedChar(*c),
            Lexed::EndOfInput => SpecLexed::EndOfInput,
        }
    }
}

/// Classifies a scanned identifier lexeme as a keyword or a plain
/// identifier.
pub fn classify_word(w: &Vec<char>) -> (k: TokenKind)
    ensures
        k == keyword_kind(w@),
{
    if word_is(w, "and") {
        TokenKind::And
    } else if word_is(w, "class") {
        TokenKind::Class
    } else if word_is(w, "else") {
        TokenKind::Else
    } else if word_is(w, "false") {
        TokenKind::False
    } else if word_is(w, "for") {
        TokenKind::For
    } else if word_is(w, "fun") {
        TokenKind::Fun
    } else if word_is(w, "if") {
        TokenKind::If
    } else if word_is(w, "nil") {
        TokenKind::Nil
    } else if word_is(w, "or") {
        TokenKind::Or
    } else if word_is(w, "print") {
        TokenKind::Print
    } else if word_is(w, "return") {
        TokenKind::Return
    } else if word_is(w, "super") {
        TokenKind::Super
    } else if word_is(w, "this") {
        TokenKind::This
    } else if word_is(w, "true") {
        TokenKind::True
    } else if word_is(w, "var") {
        TokenKind::Var
    } else if word_is(w, "while") {
        TokenKind::While
    } else {
        TokenKind::Identifier
    }
}

/// Computes the normalized literal of a numeral lexeme: appends `.0` when
/// there is no radix point, then strips trailing zeros, keeping at least
/// one fractional digit.
pub fn normalized_literal(n: &Vec<char>) -> (r: Vec<char>)
    ensures
        r@ == normalize_numeral(n@),
{
    let mut dotted = false;
    let mut i: usize = 0;
    while i < n.len()
        invariant
            i <= n.len(),
            dotted == exists|k: int| 0 <= k < i && n@[k] == '.',
        decreases n.len() - i,
    {
        if n[i] == '.' {
            dotted = true;
        }
        i = i + 1;
    }
    let mut t = copy_chars(n);
    if !dotted {
        t.push('.');
        t.push('0');
    }
    let ghost base = t@;
    proof {
        if has_dot(n@) {
            assert(base == n@);
        } else {
            assert(base =~= n@ + seq!['.', '0']);
            assert(base[n@.len() as int] == '.');
        }
        assert(has_dot(base));
    }
    while t.len() > 0 && t[t.len() - 1] == '0'
        invariant
            has_dot(t@),
            chop_zeros(t@) == chop_zeros(base),
        decreases t.len(),
    {
        let ghost before = t@;
        t.pop();
        proof {
            assert(t@ =~= before.drop_last());
            let k = choose|k: int| 0 <= k < before.len() && before[k] == '.';
            assert(before[before.len() - 1] == '0');
            assert(k < before.len() - 1);
            assert(t@[k] == '.');
            assert(has_dot(t@));
        }
    }
    proof {
        assert(t@.len() > 0);
        assert(chop_zeros(t@) == t@);
    }
    if t[t.len() - 1] == '.' {
        t.push('0');
    }
    t
}

/// Scans a numeral lexeme: consumes digits and radix points greedily and
/// returns a `NUMBER` token carrying the exact source text and the
/// normalized literal.
pub fn handle_numeral(src: &Vec<char>, pos: &mut usize) -> (t: Token)
    requires
        *old(pos) < src@.len(),
        is_digit_char(src@[*old(pos) as int]),
    ensures
        *final(pos) == numeral_end(src@, *old(pos) as int),
        *old(pos) < *final(pos) <= src@.len(),
        t@ == spec_numeral_token(src@, *old(pos) as int),
{
    let ghost j = *pos as int;
    let mut buf: Vec<char> = Vec::new();
    while *pos < src.len() && numeral_char(src[*pos])
        invariant
            0 <= j <= *pos as int <= src@.len(),
            numeral_end(src@, j) == numeral_end(src@, *pos as int),
            buf@ == src@.subrange(j, *pos as int),
        decreases src@.len() - *pos,
    {
        buf.push(src[*pos]);
        proof {
            assert(buf@ =~= src@.subrange(j, *pos + 1 as int));
        }
        *pos = *pos + 1;
    }
    proof {
        assert(numeral_end(src@, *pos as int) == *pos as int);
        lemma_run_end(src@, j, numeral_pred());
        assert(j < numeral_end(src@, j)) by {
            assert(numeral_pred()(src@[j]));
        }
    }
    let lit = normalized_literal(&buf);
    Token {
        kind: TokenKind::Number,
        lexeme: chars_to_string(&buf),
        literal: Some(chars_to_string(&lit)),
    }
}

/// Scans an identifier lexeme and classifies it as a keyword or a plain
/// identifier; neither carries a literal value.
pub fn handle_identifier(src: &Vec<char>, pos: &mut usize) -> (t: Token)
    requires
        *old(pos) < src@.len(),
        is_alpha_char(src@[*old(pos) as int]),
    ensures
        *final(pos) == word_end(src@, *old(pos) as int),
        *old(pos) < *final(pos) <= src@.len(),
        t@ == spec_word_token(src@, *old(pos) as int),
{
    let ghost j = *pos as int;
    let mut buf: Vec<char> = Vec::new();
    while *pos < src.len() && word_char(src[*pos])
        invariant
            0 <= j <= *pos as int <= src@.len(),
            word_end(src@, j) == word_end(src@, *pos as int),
            buf@ == src@.subrange(j, *pos as int),
        decreases src@.len() - *pos,
    {
        buf.push(src[*pos]);
        proof {
            assert(buf@ =~= src@.subrange(j, *pos + 1 as int));
        }
        *pos = *pos + 1;
    }
    proof {
        assert(word_end(src@, *pos as int) == *pos as int);
        lemma_run_end(src@, j, word_pred());
        assert(j < word_end(src@, j)) by {
            assert(word_pred()(src@[j]));
        }
    }
    let kind = classify_word(&buf);
    Token { kind, lexeme: chars_to_string(&buf), literal: None }
}

/// Scans the rest of a string literal, the opening quote already consumed:
/// either a `STRING` token whose literal is the unquoted contents, or the
/// unterminated-string signal with the whole remaining input consumed.
pub fn handle_string(src: &Vec<char>, pos: &mut usize) -> (r: Lexed)
    requires
        1 <= *old(pos) <= src@.len(),
        src@[*old(pos) - 1] == '"',
    ensures
        string_body_end(src@, *old(pos) as int) < src@.len() ==> {
            &&& r@ == SpecLexed::Token(spec_string_token(src@, *old(pos) - 1))
            &&& *final(pos) == string_body_end(src@, *old(pos) as int) + 1
        },
        string_body_end(src@, *old(pos) as int) >= src@.len() ==> {
            &&& r@ == SpecLexed::UnterminatedString
            &&& *final(pos) == src@.len()
        },
{
    let ghost b = *pos as int;
    let mut body: Vec<char> = Vec::new();
    while *pos < src.len() && src[*pos] != '"'
        invariant
            1 <= b <= *pos as int <= src@.len(),
            string_body_end(src@, b) == string_body_end(src@, *pos as int),
            body@ == src@.subrange(b, *pos as int),
        decreases src@.len() - *pos,
    {
        body.push(src[*pos]);
        proof {
            assert(body@ =~= src@.subrange(b, *pos + 1 as int));
        }
        *pos = *pos + 1;
    }
    proof {
        assert(string_body_end(src@, *pos as int) == *pos as int);
    }
    if *pos < src.len() {
        // the closing quote stands at *pos
        let ghost c = *pos as int;
        let mut lx: Vec<char> = Vec::new();
        lx.push('"');
        let mut i: usize = 0;
        while i < body.len()
            invariant
                i <= body.len(),
                lx@ == seq!['"'] + body@.subrange(0, i as int),
            decreases body.len() - i,
        {
            lx.push(body[i]);
            proof {
                assert(lx@ =~= seq!['"'] + body@.subrange(0, i + 1 as int));
            }
            i = i + 1;
        }
        lx.push('"');
        proof {
            assert(body@.subrange(0, body@.len() as int) =~= body@);
            assert(lx@ =~= src@.subrange(b - 1, c + 1));
        }
        *pos = *pos + 1;
        Lexed::Token(
            Token {
                kind: TokenKind::Str,
                lexeme: chars_to_string(&lx),
                literal: Some(chars_to_string(&body)),
            },
        )
    } else {
        Lexed::UnterminatedString
    }
}

/// Builds a token whose lexeme is the single character `c`.
fn one_char_tok(kind: TokenKind, c: char) -> (t: Token)
    ensures
        t@.kind == kind,
        t@.lexeme == seq![c],
        t@.literal is None,
{
    let mut lx: Vec<char> = Vec::new();
    lx.push(c);
    Token { kind, lexeme: chars_to_string(&lx), literal: None }
}

/// Builds a token whose lexeme is the two characters `c0 c1`.
fn two_char_tok(kind: TokenKind, c0: char, c1: char) -> (t: Token)
    ensures
        t@.kind == kind,
        t@.lexeme == seq![c0, c1],
        t@.literal is None,
{
    let mut lx: Vec<char> = Vec::new();
    lx.push(c0);
    lx.push(c1);
    Token { kind, lexeme: chars_to_string(&lx), literal: None }
}

/// The lexeme classifier: skips blanks and line comments, then classifies
/// the next lexeme, advancing the cursor past it.  The outcome and the new
/// cursor position are exactly those of the model [`lex_step`].
pub fn next_token(src: &Vec<char>, pos: &mut usize) -> (r: Lexed)
    requires
        *old(pos) <= src@.len(),
    ensures
        r@ == lex_step(src@, *old(pos) as int).item,
        *final(pos) == lex_step(src@, *old(pos) as int).next,
{
    let ghost i0 = *pos as int;
    while *pos < src.len()
        && (blank_char(src[*pos])
            || (src[*pos] == '/' && *pos + 1 < src.len() && src[*pos + 1] == '/'))
        invariant
            0 <= i0 <= *pos as int <= src@.len(),
            skip_trivia(src@, i0) == skip_trivia(src@, *pos as int),
        decreases src@.len() - *pos,
    {
        if blank_char(src[*pos]) {
            *pos = *pos + 1;
        } else {
            let ghost cstart = *pos + 2 as int;
            *pos = *pos + 2;
            while *pos < src.len() && src[*pos] != '\n'
                invariant
                    0 <= cstart <= *pos as int <= src@.len(),
                    comment_end(src@, cstart) == comment_end(src@, *pos as int),
                decreases src@.len() - *pos,
            {
                *pos = *pos + 1;
            }
            proof {
                assert(comment_end(src@, *pos as int) == *pos as int);
            }
        }
    }
    proof {
        assert(skip_trivia(src@, *pos as int) == *pos as int);
    }
    let ghost j = *pos as int;
    if *pos == src.len() {
        return Lexed::EndOfInput;
    }
    let c = src[*pos];
    if digit_char(c) {
        return Lexed::Token(handle_numeral(src, pos));
    }
    if alpha_char(c) {
        return Lexed::Token(handle_identifier(src, pos));
    }
    *pos = *pos + 1;
    let two = *pos < src.len() && src[*pos] == '=';
    match c {
        '"' => handle_string(src, pos),
        '=' => {
            if two {
                *pos = *pos + 1;
                let t = two_char_tok(TokenKind::EqualEqual, '=', '=');
                proof {
                    assert(t@.lexeme =~= src@.subrange(j, j + 2));
                }
                Lexed::Token(t)
            } else {
                let t = one_char_tok(TokenKind::Equal, '=');
                proof {
                    assert(t@.lexeme =~= src@.subrange(j, j + 1));
                }
                Lexed::Token(t)
            }
        },
        '!' => {
            if two {
                *pos = *pos + 1;
                let t = two_char_tok(TokenKind::BangEqual, '!', '=');
                proof {
                    assert(t@.lexeme =~= src@.subrange(j, j + 2));
                }
                Lexed::Token(t)
            } else {
                let t = one_char_tok(TokenKind::Bang, '!');
                proof {
                    assert(t@.lexeme =~= src@.subrange(j, j + 1));
                }
                Lexed::Token(t)
            }
        },
        '<' => {
            if two {
                *pos = *pos + 1;
                let t = two_char_tok(TokenKind::LessEqual, '<', '=');
                proof {
                    assert(t@.lexeme =~= src@.subrange(j, j + 2));
                }
                Lexed::Token(t)
            } else {
                let t = one_char_tok(TokenKind::Less, '<');
                proof {
                    assert(t@.lexeme =~= src@.subrange(j, j + 1));
                }
                Lexed::Token(t)
            }
        },
        '>' => {
            if two {
                *pos = *pos + 1;
                let t = two_char_tok(TokenKind::GreaterEqual, '>', '=');
                proof {
                    assert(t@.lexeme =~= src@.subrange(j, j + 2));
                }
                Lexed::Token(t)
            } else {
                let t = one_char_tok(TokenKind::Greater, '>');
                proof {
                    assert(t@.lexeme =~= src@.subrange(j, j + 1));
                }
                Lexed::Token(t)
            }
        },
        '\n' => Lexed::Newline,
        '(' | ')' | '{' | '}' | '*' | '.' | ',' | '+' | '-' | ';' | '/' => {
            let kind = match c {
                '(' => TokenKind::LeftParen,
                ')' => TokenKind::RightParen,
                '{' => TokenKind::LeftBrace,
                '}' => TokenKind::RightBrace,
                '*' => TokenKind::Star,
                '.' => TokenKind::Dot,
                ',' => TokenKind::Comma,
                '+' => TokenKind::Plus,
                '-' => TokenKind::Minus,
                ';' => TokenKind::Semicolon,
                _ => TokenKind::Slash,
            };
            let t = one_char_tok(kind, c);
            proof {
                assert(t@.lexeme =~= src@.subrange(j, j + 1));
            }
            Lexed::Token(t)
        },
        _ => Lexed::UnexpectedChar(c),
    }
}

} // verus!

