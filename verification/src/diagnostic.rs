//! Diagnostics: what the scanner reports about malformed input.

use vstd::prelude::*;
use vstd::string::StringExecFns;

verus! {

/// The two conditions the scanner reports.
#[derive(Debug, Clone, Copy, PartialEq, Eq, Structural)]
pub enum DiagnosticKind {
    /// A character that starts no token.
    UnexpectedCharacter,
    /// A string literal whose closing quote is missing.
    UnterminatedString,
}

/// A diagnostic as a mathematical value.
pub struct DiagnosticView {
    pub kind: DiagnosticKind,
    pub line: nat,
}

/// One report: what went wrong, and on which 1-based line.
#[derive(Debug, Clone, Copy, PartialEq, Eq, Structural)]
pub struct Diagnostic {
    pub kind: DiagnosticKind,
    pub line: usize,
}

impl View for Diagnostic {
    type V = DiagnosticView;

    open spec fn view(&self) -> DiagnosticView {
        DiagnosticView { kind: self.kind, line: self.line as nat }
    }
}

/// The views of a sequence of diagnostics, in order.
pub open spec fn diagnostic_views(diagnostics: Seq<Diagnostic>) -> Seq<DiagnosticView> {
    diagnostics.map_values(|d: Diagnostic| d@)
}

/// The wording of each kind of diagnostic.
pub open spec fn message_text(kind: DiagnosticKind) -> Seq<char> {
    match kind {
        DiagnosticKind::UnexpectedCharacter => "Unexpected character"@,
        DiagnosticKind::UnterminatedString => "Unterminated string"@,
    }
}

impl DiagnosticKind {
    /// The wording of this kind of diagnostic.
    pub fn message(&self) -> (text: &'static str)
        ensures
            text@ == message_text(*self),
    {
        match self {
            DiagnosticKind::UnexpectedCharacter => "Unexpected character",
            DiagnosticKind::UnterminatedString => "Unterminated string",
        }
    }
}

/// The character for a digit value below ten.
pub open spec fn digit_char(d: nat) -> char
    recommends
        d < 10,
{
    ('0' as nat + d) as char
}

/// The decimal numeral of `n`, without leading zeros.
pub open spec fn decimal(n: nat) -> Seq<char>
    decreases n,
{
    if n < 10 {
        seq![digit_char(n)]
    } else {
        decimal(n / 10) + seq![digit_char(n % 10)]
    }
}

/// The line of text for a diagnostic: the line number, a space, the message.
pub open spec fn rendered(diagnostic: DiagnosticView) -> Seq<char> {
    decimal(diagnostic.line) + seq![' '] + message_text(diagnostic.kind)
}

/// The one-character text for a digit value below ten.
fn digit_text(d: usize) -> (text: &'static str)
    requires
        d < 10,
    ensures
        text@ == seq![digit_char(d as nat)],
{
    proof {
        reveal_strlit("0");
        reveal_strlit("1");
        reveal_strlit("2");
        reveal_strlit("3");
        reveal_strlit("4");
        reveal_strlit("5");
        reveal_strlit("6");
        reveal_strlit("7");
        reveal_strlit("8");
        reveal_strlit("9");
    }
    let text = if d == 0 {
        "0"
    } else if d == 1 {
        "1"
    } else if d == 2 {
        "2"
    } else if d == 3 {
        "3"
    } else if d == 4 {
        "4"
    } else if d == 5 {
        "5"
    } else if d == 6 {
        "6"
    } else if d == 7 {
        "7"
    } else if d == 8 {
        "8"
    } else {
        "9"
    };
    assert(text@ =~= seq![digit_char(d as nat)]);
    text
}

/// Writes `n` in decimal.
pub fn decimal_text(n: usize) -> (text: String)
    ensures
        text@ == decimal(n as nat),
    decreases n,
{
    if n < 10 {
        String::from_str(digit_text(n))
    } else {
        let mut text = decimal_text(n / 10);
        text.append(digit_text(n % 10));
        text
    }
}

impl Diagnostic {
    /// The diagnostic as one line of text, `<line> <message>`.
    pub fn render(&self) -> (text: String)
        ensures
            text@ == rendered(self@),
    {
        proof {
            reveal_strlit(" ");
        }
        let mut text = decimal_text(self.line);
        text.append(" ");
        text.append(self.kind.message());
        assert(text@ =~= rendered(self@));
        text
    }
}

} // verus!
