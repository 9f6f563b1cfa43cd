//! Character classes and small text utilities shared by the lexer, the
//! parser and the diagnostic reporter.

use vstd::prelude::*;

verus! {

/// The decimal digits `0` through `9`.
pub open spec fn is_digit_char(c: char) -> bool {
    '0' <= c && c <= '9'
}

/// Characters that may start an identifier: ASCII letters and underscore.
pub open spec fn is_alpha_char(c: char) -> bool {
    ('a' <= c && c <= 'z') || ('A' <= c && c <= 'Z') || c == '_'
}

/// Characters that may continue an identifier.
pub open spec fn is_word_char(c: char) -> bool {
    is_alpha_char(c) || is_digit_char(c)
}

/// Characters that a numeral scan consumes greedily: digits and the radix
/// point.
pub open spec fn is_numeral_char(c: char) -> bool {
    is_digit_char(c) || c == '.'
}

/// Insignificant whitespace other than newline: skipped without any signal.
pub open spec fn is_blank_char(c: char) -> bool {
    c == ' ' || c == '\t' || c == '\r'
}

pub fn digit_char(c: char) -> (b: bool)
    ensures
        b == is_digit_char(c),
{
    '0' <= c && c <= '9'
}

pub fn alpha_char(c: char) -> (b: bool)
    ensures
        b == is_alpha_char(c),
{
    ('a' <= c && c <= 'z') || ('A' <= c && c <= 'Z') || c == '_'
}

pub fn word_char(c: char) -> (b: bool)
    ensures
        b == is_word_char(c),
{
    alpha_char(c) || digit_char(c)
}

pub fn numeral_char(c: char) -> (b: bool)
    ensures
        b == is_numeral_char(c),
{
    digit_char(c) || c == '.'
}

pub fn blank_char(c: char) -> (b: bool)
    ensures
        b == is_blank_char(c),
{
    c == ' ' || c == '\t' || c == '\r'
}

/// The character for a single decimal digit.
pub open spec fn decimal_digit(d: nat) -> char {
    if d == 0 {
        '0'
    } else if d == 1 {
        '1'
    } else if d == 2 {
        '2'
    } else if d == 3 {
        '3'
    } else if d == 4 {
        '4'
    } else if d == 5 {
        '5'
    } else if d == 6 {
        '6'
    } else if d == 7 {
        '7'
    } else if d == 8 {
        '8'
    } else {
        '9'
    }
}

/// The usual decimal rendering of a natural number, most significant digit
/// first, without leading zeros.
pub open spec fn decimal_digits(n: nat) -> Seq<char>
    decreases n,
{
    if n < 10 {
        seq![decimal_digit(n)]
    } else {
        decimal_digits(n / 10).push(decimal_digit(n % 10))
    }
}

/// Appends the decimal rendering of `n` to `out`.
pub fn push_decimal(n: u64, out: &mut String)
    ensures
        final(out)@ == old(out)@ + decimal_digits(n as nat),
    decreases n,
{
    let d = n % 10;
    let c: char = if d == 0 {
        '0'
    } else if d == 1 {
        '1'
    } else if d == 2 {
        '2'
    } else if d == 3 {
        '3'
    } else if d == 4 {
        '4'
    } else if d == 5 {
        '5'
    } else if d == 6 {
        '6'
    } else if d == 7 {
        '7'
    } else if d == 8 {
        '8'
    } else {
        '9'
    };
    if n < 10 {
        push_char(out, c);
    } else {
        push_decimal(n / 10, out);
        push_char(out, c);
    }
}

/// Relies on std's `String::push`: appends the given character to the end
/// of the string.
#[verifier::external_body]
pub fn push_char(s: &mut String, c: char)
    ensures
        final(s)@ == old(s)@ + seq![c],
{
    s.push(c);
}

/// Copies a character buffer into an owned `String`.
pub fn chars_to_string(cs: &Vec<char>) -> (s: String)
    ensures
        s@ == cs@,
{
    let mut s = String::new();
    let mut i: usize = 0;
    while i < cs.len()
        invariant
            i <= cs.len(),
            s@ == cs@.subrange(0, i as int),
        decreases cs.len() - i,
    {
        push_char(&mut s, cs[i]);
        proof {
            assert(s@ =~= cs@.subrange(0, i + 1 as int));
        }
        i = i + 1;
    }
    proof {
        assert(s@ =~= cs@);
    }
    s
}

/// Copies a character buffer.
pub fn copy_chars(cs: &Vec<char>) -> (r: Vec<char>)
    ensures
        r@ == cs@,
{
    let mut r: Vec<char> = Vec::new();
    let mut i: usize = 0;
    while i < cs.len()
        invariant
            i <= cs.len(),
            r@ == cs@.subrange(0, i as int),
        decreases cs.len() - i,
    {
        r.push(cs[i]);
        proof {
            assert(r@ =~= cs@.subrange(0, i + 1 as int));
        }
        i = i + 1;
    }
    proof {
        assert(r@ =~= cs@);
    }
    r
}

/// Copies the characters of a string slice into a `Vec<char>`.
pub fn str_to_chars(s: &str) -> (cs: Vec<char>)
    ensures
        cs@ == s@,
{
    let n = s.unicode_len();
    let mut cs: Vec<char> = Vec::new();
    let mut i: usize = 0;
    while i < n
        invariant
            i <= n,
            n as nat == s@.len(),
            cs@ == s@.subrange(0, i as int),
        decreases n - i,
    {
        cs.push(s.get_char(i));
        proof {
            assert(cs@ =~= s@.subrange(0, i + 1 as int));
        }
        i = i + 1;
    }
    proof {
        assert(cs@ =~= s@);
    }
    cs
}

} // verus!
