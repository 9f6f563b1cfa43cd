//! Diagnostics and the report handed back to the driver.
//!
//! Every lexical or syntactic error is recorded as one [`Diagnostic`]
//! carrying the line it was found on; nothing is dropped and nothing stops
//! the scan.  A [`Report`] pairs the normal output lines with the collected
//! diagnostics and answers the single question the driver needs: did any
//! error occur.

use vstd::prelude::*;
use crate::text::{decimal_digits, push_decimal, push_char};

verus! {

/// The closed set of error categories.
#[derive(Clone, Copy, PartialEq, Eq, Structural, Debug)]
pub enum Category {
    UnterminatedString,
    UnexpectedCharacter(char),
    UnclosedGroup,
    SyntaxError,
}

/// Mathematical model of a diagnostic: the 1-based line it is attributed
/// to, and its category.
pub struct SpecDiag {
    pub line: nat,
    pub category: Category,
}

/// One recorded error: the 1-based source line it is attributed to, and
/// its category (with the offending character for unexpected-character
/// errors).
pub struct Diagnostic {
    pub line: usize,
    pub category: Category,
}

impl View for Diagnostic {
    type V = SpecDiag;

    open spec fn view(&self) -> SpecDiag {
        SpecDiag { line: self.line as nat, category: self.category }
    }
}

/// The message text of an error category.
pub open spec fn category_message(c: Category) -> Seq<char> {
    match c {
        Category::UnterminatedString => "Unterminated string."@,
        Category::UnexpectedCharacter(ch) => "Unexpected character: "@ + seq![ch],
        Category::UnclosedGroup => "Expect ')' after expression."@,
        Category::SyntaxError => "Expect expression."@,
    }
}

/// The full diagnostic line for an error.
pub open spec fn diagnostic_line(d: SpecDiag) -> Seq<char> {
    "[line "@ + decimal_digits(d.line) + "] Error: "@ + category_message(d.category)
}

impl Diagnostic {
    /// Renders the diagnostic as `[line <n>] Error: <message>`.
    pub fn render(&self) -> (s: String)
        ensures
            s@ == diagnostic_line(self@),
    {
        let mut s = String::from_str("[line ");
        push_decimal(self.line as u64, &mut s);
        s.append("] Error: ");
        match self.category {
            Category::UnterminatedString => s.append("Unterminated string."),
            Category::UnexpectedCharacter(ch) => {
                s.append("Unexpected character: ");
                push_char(&mut s, ch);
            },
            Category::UnclosedGroup => s.append("Expect ')' after expression."),
            Category::SyntaxError => s.append("Expect expression."),
        }
        proof {
            assert(s@ =~= diagnostic_line(self@));
        }
        s
    }
}

/// Output of one run: the normal output lines, in emission order, and the
/// diagnostics collected along the way.
pub struct Report {
    pub lines: Vec<String>,
    pub diagnostics: Vec<Diagnostic>,
}

/// The views of a sequence of output lines.
pub open spec fn string_views(v: Seq<String>) -> Seq<Seq<char>> {
    v.map_values(|l: String| l@)
}

/// The views of a sequence of diagnostics.
pub open spec fn diag_views(v: Seq<Diagnostic>) -> Seq<SpecDiag> {
    v.map_values(|d: Diagnostic| d@)
}

impl Report {
    /// The output lines as sequences of characters.
    pub open spec fn lines_view(&self) -> Seq<Seq<char>> {
        string_views(self.lines@)
    }

    /// The recorded diagnostics as their models.
    pub open spec fn diags_view(&self) -> Seq<SpecDiag> {
        diag_views(self.diagnostics@)
    }

    /// Whether the run finished without a single error.
    pub fn success(&self) -> (b: bool)
        ensures
            b == (self.diags_view().len() == 0),
    {
        self.diagnostics.len() == 0
    }
}

} // verus!
