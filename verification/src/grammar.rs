//! The lexical grammar, as mathematical functions of the source text.
//!
//! Positions are character offsets into the text, and lines are counted from 1.
//! [`scan`] is the meaning of a whole scan; [`scan_step`] is the meaning of
//! recognising one lexeme.

use vstd::prelude::*;
use crate::chars::{alphabetic, alphanumeric, is_blank, is_decimal_digit};
use crate::diagnostic::{DiagnosticKind, DiagnosticView};
use crate::token::{TokenType, TokenView};

verus! {

/// The characters that are a token by themselves wherever they stand.
pub open spec fn punctuation(c: char) -> Option<TokenType> {
    if c == '(' {
        Some(TokenType::LeftParen)
    } else if c == ')' {
        Some(TokenType::RightParen)
    } else if c == '{' {
        Some(TokenType::LeftBrace)
    } else if c == '}' {
        Some(TokenType::RightBrace)
    } else if c == ',' {
        Some(TokenType::Comma)
    } else if c == '.' {
        Some(TokenType::Dot)
    } else if c == '-' {
        Some(TokenType::Minus)
    } else if c == '+' {
        Some(TokenType::Plus)
    } else if c == ';' {
        Some(TokenType::Semicolon)
    } else if c == '*' {
        Some(TokenType::Star)
    } else {
        None
    }
}

/// The characters that are an operator alone and another one when an `=`
/// follows directly: the kind alone first, the kind with `=` second.
pub open spec fn operator(c: char) -> Option<(TokenType, TokenType)> {
    if c == '!' {
        Some((TokenType::Bang, TokenType::BangEqual))
    } else if c == '=' {
        Some((TokenType::Equal, TokenType::EqualEqual))
    } else if c == '<' {
        Some((TokenType::Less, TokenType::LessEqual))
    } else if c == '>' {
        Some((TokenType::Greater, TokenType::GreaterEqual))
    } else {
        None
    }
}

/// The kind of an identifier-shaped lexeme: a reserved word if it is exactly
/// one, an identifier otherwise.
pub open spec fn word_kind(lexeme: Seq<char>) -> TokenType {
    if lexeme == "and"@ {
        TokenType::And
    } else if lexeme == "class"@ {
        TokenType::Class
    } else if lexeme == "else"@ {
        TokenType::Else
    } else if lexeme == "false"@ {
        TokenType::False
    } else if lexeme == "for"@ {
        TokenType::For
    } else if lexeme == "fun"@ {
        TokenType::Fun
    } else if lexeme == "if"@ {
        TokenType::If
    } else if lexeme == "nil"@ {
        TokenType::Nil
    } else if lexeme == "or"@ {
        TokenType::Or
    } else if lexeme == "print"@ {
        TokenType::Print
    } else if lexeme == "return"@ {
        TokenType::Return
    } else if lexeme == "super"@ {
        TokenType::Super
    } else if lexeme == "this"@ {
        TokenType::This
    } else if lexeme == "true"@ {
        TokenType::True
    } else if lexeme == "var"@ {
        TokenType::Var
    } else if lexeme == "while"@ {
        TokenType::While
    } else {
        TokenType::Identifier
    }
}

/// The stretches of text that are consumed greedily, one character at a time.
pub enum Run {
    /// Decimal digits.
    Digits,
    /// Alphanumeric characters, the tail of an identifier.
    Word,
    /// Everything up to the end of the line, the body of a comment.
    Comment,
    /// Everything up to the next double quote, the body of a string.
    StringBody,
}

/// Whether a run of the given kind goes on over the character `c`.
pub open spec fn continues(run: Run, c: char) -> bool {
    match run {
        Run::Digits => is_decimal_digit(c),
        Run::Word => alphanumeric(c),
        Run::Comment => c != '\n',
        Run::StringBody => c != '"',
    }
}

/// Where the longest run of the given kind that starts at `from` ends: the
/// first position at or after `from` that holds a character over which the run
/// does not go on, or the end of the text.
pub open spec fn run_end(src: Seq<char>, from: int, run: Run) -> int
    decreases src.len() - from,
{
    if 0 <= from < src.len() && continues(run, src[from]) {
        run_end(src, from + 1, run)
    } else {
        from
    }
}

/// The number of newline characters at the positions from `from` up to, not
/// including, `to`.
pub open spec fn newlines(src: Seq<char>, from: int, to: int) -> nat
    decreases to - from,
{
    if 0 <= from < to <= src.len() {
        newlines(src, from, to - 1) + if src[to - 1] == '\n' {
            1nat
        } else {
            0nat
        }
    } else {
        0
    }
}

/// Where the number literal that starts with the digit at `pos` ends: after
/// its digits, and after a fraction if a dot and at least one digit follow.
pub open spec fn number_end(src: Seq<char>, pos: int) -> int {
    let whole = run_end(src, pos + 1, Run::Digits);
    if whole + 1 < src.len() && src[whole] == '.' && is_decimal_digit(src[whole + 1]) {
        run_end(src, whole + 1, Run::Digits)
    } else {
        whole
    }
}

/// What recognising one lexeme yields: where the next lexeme starts and on
/// which line, the token if there is one, and the diagnostic if there is one.
pub struct Step {
    pub next: int,
    pub line: nat,
    pub token: Option<TokenView>,
    pub diagnostic: Option<DiagnosticView>,
}

/// The token of the given kind whose lexeme is the text from `pos` up to
/// `end`, and whose first character stands on the given line.
pub open spec fn lexeme_token(
    src: Seq<char>,
    kind: TokenType,
    pos: int,
    end: int,
    line: nat,
) -> TokenView {
    TokenView { kind, lexeme: Some(src.subrange(pos, end)), line }
}

/// The step that emits the token of the given kind for the text from `pos` up
/// to `end`, all on one line.
pub open spec fn emit(src: Seq<char>, kind: TokenType, pos: int, end: int, line: nat) -> Step {
    Step {
        next: end,
        line,
        token: Some(lexeme_token(src, kind, pos, end, line)),
        diagnostic: None,
    }
}

/// The step that passes over text without a token.
pub open spec fn skip(next: int, line: nat) -> Step {
    Step { next, line, token: None, diagnostic: None }
}

/// The step for the string literal whose opening quote stands at `pos`. The
/// literal runs up to and including the next quote, without any notion of
/// escapes. The token carries the line of the opening quote, and the lines
/// inside the literal are counted. Without a closing quote the literal runs to
/// the end of the text and is reported, on the line that the end is on.
pub open spec fn string_step(src: Seq<char>, pos: int, line: nat) -> Step {
    let close = run_end(src, pos + 1, Run::StringBody);
    let last_line = line + newlines(src, pos + 1, close);
    if close < src.len() {
        Step {
            next: close + 1,
            line: last_line,
            token: Some(lexeme_token(src, TokenType::String, pos, close + 1, line)),
            diagnostic: None,
        }
    } else {
        Step {
            next: close,
            line: last_line,
            token: Some(lexeme_token(src, TokenType::String, pos, close, line)),
            diagnostic: Some(
                DiagnosticView { kind: DiagnosticKind::UnterminatedString, line: last_line },
            ),
        }
    }
}

/// Recognising the lexeme that starts at `pos`, on line `line`.
pub open spec fn scan_step(src: Seq<char>, pos: int, line: nat) -> Step
    recommends
        0 <= pos < src.len(),
{
    let c = src[pos];
    let followed_by_equal = pos + 1 < src.len() && src[pos + 1] == '=';
    let followed_by_slash = pos + 1 < src.len() && src[pos + 1] == '/';
    if let Some(kind) = punctuation(c) {
        emit(src, kind, pos, pos + 1, line)
    } else if let Some((alone, with_equal)) = operator(c) {
        if followed_by_equal {
            emit(src, with_equal, pos, pos + 2, line)
        } else {
            emit(src, alone, pos, pos + 1, line)
        }
    } else if c == '/' {
        if followed_by_slash {
            skip(run_end(src, pos + 2, Run::Comment), line)
        } else {
            emit(src, TokenType::Slash, pos, pos + 1, line)
        }
    } else if is_blank(c) {
        skip(pos + 1, line)
    } else if c == '\n' {
        skip(pos + 1, line + 1)
    } else if c == '"' {
        string_step(src, pos, line)
    } else if is_decimal_digit(c) {
        emit(src, TokenType::Number, pos, number_end(src, pos), line)
    } else if alphabetic(c) {
        let end = run_end(src, pos + 1, Run::Word);
        emit(src, word_kind(src.subrange(pos, end)), pos, end, line)
    } else {
        Step {
            next: pos + 1,
            line,
            token: None,
            diagnostic: Some(DiagnosticView { kind: DiagnosticKind::UnexpectedCharacter, line }),
        }
    }
}

/// The sequence of nothing or of one thing.
pub open spec fn optional<T>(item: Option<T>) -> Seq<T> {
    match item {
        Some(x) => seq![x],
        None => Seq::empty(),
    }
}

/// What a scan yields: the tokens in order, the diagnostics in order, and the
/// line that the end of the text is on.
pub struct Scan {
    pub tokens: Seq<TokenView>,
    pub diagnostics: Seq<DiagnosticView>,
    pub line: nat,
}

/// The end-of-input token on the given line.
pub open spec fn eof(line: nat) -> TokenView {
    TokenView { kind: TokenType::Eof, lexeme: None, line }
}

/// Scanning the text from position `pos`, which is on line `line`, to its end:
/// one step after another, then the end-of-input token.
pub open spec fn scan_from(src: Seq<char>, pos: int, line: nat) -> Scan
    decreases src.len() - pos,
    via scan_from_terminates
{
    if 0 <= pos < src.len() {
        let step = scan_step(src, pos, line);
        let rest = scan_from(src, step.next, step.line);
        Scan {
            tokens: optional(step.token) + rest.tokens,
            diagnostics: optional(step.diagnostic) + rest.diagnostics,
            line: rest.line,
        }
    } else {
        Scan { tokens: seq![eof(line)], diagnostics: Seq::empty(), line }
    }
}

#[via_fn]
proof fn scan_from_terminates(src: Seq<char>, pos: int, line: nat) {
    if 0 <= pos < src.len() {
        lemma_step_advances(src, pos, line);
    }
}

/// Scanning a whole text.
pub open spec fn scan(src: Seq<char>) -> Scan {
    scan_from(src, 0, 1)
}

/// A run ends at or after its start and within the text; it goes on over every
/// character before its end, and not over the character at its end.
pub proof fn lemma_run_end(src: Seq<char>, from: int, run: Run)
    requires
        0 <= from <= src.len(),
    ensures
        from <= run_end(src, from, run) <= src.len(),
        forall|i: int| from <= i < run_end(src, from, run) ==> continues(run, #[trigger] src[i]),
        run_end(src, from, run) < src.len() ==> !continues(run, src[run_end(src, from, run)]),
    decreases src.len() - from,
{
    if from < src.len() && continues(run, src[from]) {
        lemma_run_end(src, from + 1, run);
    }
}

/// Every step consumes at least one character and stays within the text.
pub proof fn lemma_step_advances(src: Seq<char>, pos: int, line: nat)
    requires
        0 <= pos < src.len(),
    ensures
        pos < scan_step(src, pos, line).next <= src.len(),
{
    lemma_run_end(src, pos + 1, Run::Digits);
    lemma_run_end(src, pos + 1, Run::Word);
    lemma_run_end(src, pos + 1, Run::StringBody);
    if pos + 1 < src.len() {
        lemma_run_end(src, pos + 2, Run::Comment);
    }
    let whole = run_end(src, pos + 1, Run::Digits);
    if whole + 1 < src.len() {
        lemma_run_end(src, whole + 1, Run::Digits);
    }
}

} // verus!
