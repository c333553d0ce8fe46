//! The scanner: a single forward pass over the source text.

use vstd::prelude::*;
use vstd::string::{StrSliceExecFns, StringExecFns};
use crate::diagnostic::{diagnostic_views, Diagnostic, DiagnosticKind, DiagnosticView};
use crate::chars::{is_alphabetic, is_alphanumeric, is_digit};
use crate::grammar::{
    emit, lemma_step_advances, lexeme_token, newlines, number_end, optional, run_end, scan_from,
    scan_step, string_step, word_kind, Run, Step,
};
use crate::token::{token_views, Token, TokenType, TokenView};

verus! {

/// What can be observed of a scanner: the text it scans, the tokens and the
/// diagnostics it has produced so far, the position of the next character to
/// read, and the line which that position is on.
pub struct ScannerView {
    pub source: Seq<char>,
    pub tokens: Seq<TokenView>,
    pub diagnostics: Seq<DiagnosticView>,
    pub current: nat,
    pub line: nat,
}

/// A scanner that has not read anything of `text` yet.
pub open spec fn initial(text: Seq<char>) -> ScannerView {
    ScannerView {
        source: text,
        tokens: Seq::empty(),
        diagnostics: Seq::empty(),
        current: 0,
        line: 1,
    }
}

/// The scanner after one step was taken from the state `before`.
pub open spec fn stepped(before: ScannerView, step: Step) -> ScannerView {
    ScannerView {
        source: before.source,
        tokens: before.tokens + optional(step.token),
        diagnostics: before.diagnostics + optional(step.diagnostic),
        current: step.next as nat,
        line: step.line,
    }
}

/// The scanner after the rest of the text was scanned from the state `before`.
pub open spec fn finished(before: ScannerView) -> ScannerView {
    let rest = scan_from(before.source, before.current as int, before.line);
    ScannerView {
        source: before.source,
        tokens: before.tokens + rest.tokens,
        diagnostics: before.diagnostics + rest.diagnostics,
        current: before.source.len(),
        line: rest.line,
    }
}

/// Scans one text. Positions are counted in characters.
///
/// The scanner keeps the text with a NUL character after its end, so that
/// looking at the cursor never leaves the buffer: at the end of the text it
/// meets the NUL.
#[derive(Debug)]
pub struct Scanner {
    /// The text, and a NUL after it.
    source: String,
    /// The number of characters of the text.
    length: usize,
    tokens: Vec<Token>,
    diagnostics: Vec<Diagnostic>,
    /// Where the lexeme being matched starts.
    start: usize,
    /// The line on which the lexeme being matched starts.
    start_line: usize,
    /// The next character to read.
    current: usize,
    /// The line of the next character to read.
    line: usize,
}

impl View for Scanner {
    type V = ScannerView;

    closed spec fn view(&self) -> ScannerView {
        ScannerView {
            source: self.text(),
            tokens: token_views(self.tokens@),
            diagnostics: diagnostic_views(self.diagnostics@),
            current: self.current as nat,
            line: self.line as nat,
        }
    }
}

impl Scanner {
    /// The scanner's invariant: the buffer holds the text and a NUL after it,
    /// the lexeme being matched lies within the text and starts on a line that
    /// is not after the line of the cursor, and the line counter is positive
    /// and has not counted more newlines than characters were read.
    pub closed spec fn wf(&self) -> bool {
        &&& self.source@.len() == self.length + 1
        &&& self.source@[self.length as int] == '\0'
        &&& self.start <= self.current <= self.length < usize::MAX
        &&& 1 <= self.start_line <= self.line <= self.current + 1
    }

    /// The text that is scanned: the buffer without the NUL at its end.
    spec fn text(&self) -> Seq<char> {
        self.source@.take(self.length as int)
    }

    /// The character at the cursor, if the cursor is not at the end of the text.
    spec fn peeked(&self) -> Option<char> {
        if self.current < self.text().len() {
            Some(self.text()[self.current as int])
        } else {
            None
        }
    }

    /// What the scanner keeps while the cursor moves: the text, everything
    /// produced so far, and where the lexeme being matched starts, in the text
    /// and by line.
    spec fn same_output(&self, before: &Scanner) -> bool {
        &&& self.source == before.source
        &&& self.length == before.length
        &&& self.tokens == before.tokens
        &&& self.diagnostics == before.diagnostics
        &&& self.start == before.start
        &&& self.start_line == before.start_line
    }

    /// A scanner at the start of `source`.
    pub fn new(source: &str) -> (scanner: Self)
        ensures
            scanner.wf(),
            scanner@ == initial(source@),
    {
        let mut buffer = source.to_owned();
        buffer.append("\0");
        proof {
            reveal_strlit("\0");
        }
        let length = buffer.as_str().unicode_len() - 1;
        let scanner = Self {
            source: buffer,
            length,
            tokens: Vec::new(),
            diagnostics: Vec::new(),
            start: 0,
            start_line: 1,
            current: 0,
            line: 1,
        };
        assert(scanner.text() =~= source@);
        assert(token_views(scanner.tokens@) =~= Seq::empty());
        assert(diagnostic_views(scanner.diagnostics@) =~= Seq::empty());
        scanner
    }

    /// Scans the text from the cursor to its end, closes the token sequence
    /// with the end-of-input token, and returns all tokens produced so far.
    ///
    /// On a scanner fresh from [`Scanner::new`] these are the tokens of the
    /// whole text. Malformed input does not stop the scan; see
    /// [`Scanner::diagnostics`].
    pub fn scan_tokens(&mut self) -> (tokens: Vec<Token>)
        requires
            old(self).wf(),
        ensures
            final(self).wf(),
            final(self)@ == finished(old(self)@),
            token_views(tokens@) == final(self)@.tokens,
    {
        while !self.is_at_end()
            invariant
                self.wf(),
                finished(self@) == finished(old(self)@),
            decreases self.length - self.current,
        {
            // We are at the beginning of the next lexeme
            self.start = self.current;
            self.start_line = self.line;
            let ghost before = self@;
            self.scan_token();
            proof {
                lemma_step_advances(before.source, before.current as int, before.line);
                assert(finished(self@).tokens =~= finished(before).tokens);
                assert(finished(self@).diagnostics =~= finished(before).diagnostics);
            }
        }

        // Add the EOF token
        let ghost before = self@;
        self.tokens.push(Token::new(TokenType::Eof, None, self.line));
        proof {
            assert(self@.tokens =~= finished(before).tokens);
            assert(self@.diagnostics =~= finished(before).diagnostics);
        }
        self.tokens.clone()
    }

    /// The diagnostics recorded so far, in the order in which they arose.
    pub fn diagnostics(&self) -> (diagnostics: &Vec<Diagnostic>)
        ensures
            diagnostic_views(diagnostics@) == self@.diagnostics,
    {
        &self.diagnostics
    }

    /// Whether any diagnostic was recorded so far.
    pub fn had_error(&self) -> (any: bool)
        ensures
            any == (self@.diagnostics.len() > 0),
    {
        self.diagnostics.len() > 0
    }

    /// Returns true if the cursor is at the end of the text.
    fn is_at_end(&self) -> (at_end: bool)
        requires
            self.wf(),
        ensures
            at_end == (self.current >= self.text().len()),
    {
        self.current >= self.length
    }

    /// Returns the character at the cursor; at the end of the text that is the
    /// NUL which closes the buffer.
    fn peek(&self) -> (c: char)
        requires
            self.wf(),
        ensures
            c == if self.current < self.text().len() {
                self.text()[self.current as int]
            } else {
                '\0'
            },
    {
        self.source.as_str().get_char(self.current)
    }

    /// Returns the character after the one at the cursor, or NUL if the text
    /// ends before it.
    fn peek_next(&self) -> (c: char)
        requires
            self.wf(),
        ensures
            c == if self.current + 1 < self.text().len() {
                self.text()[self.current + 1]
            } else {
                '\0'
            },
    {
        if self.is_at_end() {
            return '\0';
        }
        self.source.as_str().get_char(self.current + 1)
    }

    /// Moves the cursor over one character and returns that character.
    fn advance(&mut self) -> (c: char)
        requires
            old(self).wf(),
            old(self).current < old(self).text().len(),
        ensures
            final(self).wf(),
            final(self).same_output(old(self)),
            final(self).line == old(self).line,
            final(self).current == old(self).current + 1,
            c == old(self).text()[old(self).current as int],
    {
        let c = self.source.as_str().get_char(self.current);
        self.current += 1;
        c
    }

    /// Moves the cursor over the character at it if that is `expected`, and
    /// returns whether it did.
    fn match_next(&mut self, expected: char) -> (matched: bool)
        requires
            old(self).wf(),
        ensures
            final(self).wf(),
            final(self).same_output(old(self)),
            final(self).line == old(self).line,
            matched == (old(self).peeked() == Some(expected)),
            final(self).current == if matched {
                old(self).current + 1
            } else {
                old(self).current as int
            },
    {
        if self.is_at_end() {
            return false;
        }
        if self.source.as_str().get_char(self.current) != expected {
            return false;
        }
        self.current += 1;
        true
    }

    /// Adds the token of the given kind for the lexeme between `start` and the
    /// cursor, on the line on which that lexeme starts. The cursor may have
    /// reached a later line by then.
    fn add_token(&mut self, token_type: TokenType)
        requires
            old(self).wf(),
        ensures
            final(self).wf(),
            final(self)@ == stepped(
                old(self)@,
                Step {
                    next: old(self).current as int,
                    line: old(self).line as nat,
                    token: Some(
                        lexeme_token(
                            old(self).text(),
                            token_type,
                            old(self).start as int,
                            old(self).current as int,
                            old(self).start_line as nat,
                        ),
                    ),
                    diagnostic: None,
                },
            ),
            final(self).start == old(self).start,
            final(self).start_line == old(self).start_line,
    {
        let lexeme = self.source.as_str().substring_char(self.start, self.current).to_owned();
        let token = Token::new(token_type, Some(lexeme), self.start_line);
        self.tokens.push(token);
        proof {
            assert(lexeme@ =~= old(self).text().subrange(
                old(self).start as int,
                old(self).current as int,
            ));
            assert(token_views(self.tokens@) =~= token_views(old(self).tokens@) + seq![token@]);
            assert(diagnostic_views(self.diagnostics@) =~= diagnostic_views(old(self).diagnostics@)
                + Seq::empty());
        }
    }

    /// Records a diagnostic of the given kind on the line which the cursor is on.
    fn report(&mut self, kind: DiagnosticKind)
        requires
            old(self).wf(),
        ensures
            final(self).wf(),
            final(self)@ == stepped(
                old(self)@,
                Step {
                    next: old(self).current as int,
                    line: old(self).line as nat,
                    token: None,
                    diagnostic: Some(DiagnosticView { kind, line: old(self).line as nat }),
                },
            ),
            final(self).start == old(self).start,
            final(self).start_line == old(self).start_line,
    {
        let diagnostic = Diagnostic { kind, line: self.line };
        self.diagnostics.push(diagnostic);
        proof {
            assert(diagnostic_views(self.diagnostics@) =~= diagnostic_views(old(self).diagnostics@)
                + seq![diagnostic@]);
            assert(token_views(self.tokens@) =~= token_views(old(self).tokens@) + Seq::empty());
        }
    }

    /// Moves the cursor to the end of the line, over the rest of a comment.
    fn comment(&mut self)
        requires
            old(self).wf(),
        ensures
            final(self).wf(),
            final(self).same_output(old(self)),
            final(self).line == old(self).line,
            final(self).current == run_end(
                old(self).text(),
                old(self).current as int,
                Run::Comment,
            ),
    {
        while self.peek() != '\n' && !self.is_at_end()
            invariant
                self.wf(),
                self.same_output(old(self)),
                self.line == old(self).line,
                run_end(self.text(), self.current as int, Run::Comment) == run_end(
                    old(self).text(),
                    old(self).current as int,
                    Run::Comment,
                ),
            decreases self.length - self.current,
        {
            self.advance();
        }
    }

    /// Scans the rest of a string literal, after its opening quote.
    fn string(&mut self)
        requires
            old(self).wf(),
            old(self).current == old(self).start + 1,
            old(self).start_line == old(self).line,
        ensures
            final(self).wf(),
            final(self)@ == stepped(
                old(self)@,
                string_step(old(self).text(), old(self).start as int, old(self).line as nat),
            ),
    {
        while self.peek() != '"' && !self.is_at_end()
            invariant
                self.wf(),
                self.same_output(old(self)),
                old(self).current <= self.current,
                run_end(self.text(), self.current as int, Run::StringBody) == run_end(
                    old(self).text(),
                    old(self).current as int,
                    Run::StringBody,
                ),
                self.line == old(self).line + newlines(
                    self.text(),
                    old(self).current as int,
                    self.current as int,
                ),
            decreases self.length - self.current,
        {
            let c = self.advance();
            if c == '\n' {
                self.line += 1;
            }
        }

        if self.is_at_end() {
            self.report(DiagnosticKind::UnterminatedString);
        } else {
            // The closing "
            self.advance();
        }

        self.add_token(TokenType::String);
    }

    /// Scans the rest of a number literal, after its first digit.
    fn number(&mut self)
        requires
            old(self).wf(),
            old(self).current == old(self).start + 1,
            old(self).start_line == old(self).line,
        ensures
            final(self).wf(),
            final(self)@ == stepped(
                old(self)@,
                emit(
                    old(self).text(),
                    TokenType::Number,
                    old(self).start as int,
                    number_end(old(self).text(), old(self).start as int),
                    old(self).line as nat,
                ),
            ),
    {
        self.digits();

        if self.peek() == '.' && is_digit(self.peek_next()) {
            self.advance();
            self.digits();
        }

        self.add_token(TokenType::Number)
    }

    /// Moves the cursor over the digits at it.
    fn digits(&mut self)
        requires
            old(self).wf(),
        ensures
            final(self).wf(),
            final(self).same_output(old(self)),
            final(self).line == old(self).line,
            final(self).current == run_end(
                old(self).text(),
                old(self).current as int,
                Run::Digits,
            ),
    {
        while is_digit(self.peek())
            invariant
                self.wf(),
                self.same_output(old(self)),
                self.line == old(self).line,
                run_end(self.text(), self.current as int, Run::Digits) == run_end(
                    old(self).text(),
                    old(self).current as int,
                    Run::Digits,
                ),
            decreases self.length - self.current,
        {
            self.advance();
        }
    }

    /// Scans the rest of an identifier or reserved word, after its first
    /// character.
    fn identifier(&mut self)
        requires
            old(self).wf(),
            old(self).current == old(self).start + 1,
            old(self).start_line == old(self).line,
        ensures
            final(self).wf(),
            final(self)@ == stepped(
                old(self)@,
                emit(
                    old(self).text(),
                    word_kind(
                        old(self).text().subrange(
                            old(self).start as int,
                            run_end(old(self).text(), old(self).start + 1, Run::Word),
                        ),
                    ),
                    old(self).start as int,
                    run_end(old(self).text(), old(self).start + 1, Run::Word),
                    old(self).line as nat,
                ),
            ),
    {
        while !self.is_at_end() && is_alphanumeric(self.peek())
            invariant
                self.wf(),
                self.same_output(old(self)),
                self.line == old(self).line,
                run_end(self.text(), self.current as int, Run::Word) == run_end(
                    old(self).text(),
                    old(self).current as int,
                    Run::Word,
                ),
            decreases self.length - self.current,
        {
            self.advance();
        }

        let lexeme = self.source.as_str().substring_char(self.start, self.current);
        assert(lexeme@ =~= self.text().subrange(self.start as int, self.current as int));
        let token_type = classify_word(lexeme);

        self.add_token(token_type);
    }

    /// Scans the lexeme at the cursor: adds its token, if it has one, and
    /// records its diagnostic, if it has one.
    fn scan_token(&mut self)
        requires
            old(self).wf(),
            old(self).start == old(self).current,
            old(self).start_line == old(self).line,
            old(self).current < old(self).text().len(),
        ensures
            final(self).wf(),
            final(self)@ == stepped(
                old(self)@,
                scan_step(old(self).text(), old(self).current as int, old(self).line as nat),
            ),
    {
        let c = self.advance();
        match c {
            '(' => self.add_token(TokenType::LeftParen),
            ')' => self.add_token(TokenType::RightParen),
            '{' => self.add_token(TokenType::LeftBrace),
            '}' => self.add_token(TokenType::RightBrace),
            ',' => self.add_token(TokenType::Comma),
            '.' => self.add_token(TokenType::Dot),
            '-' => self.add_token(TokenType::Minus),
            '+' => self.add_token(TokenType::Plus),
            ';' => self.add_token(TokenType::Semicolon),
            '*' => self.add_token(TokenType::Star),
            '!' => {
                if self.match_next('=') {
                    self.add_token(TokenType::BangEqual);
                } else {
                    self.add_token(TokenType::Bang);
                }
            },
            '=' => {
                if self.match_next('=') {
                    self.add_token(TokenType::EqualEqual);
                } else {
                    self.add_token(TokenType::Equal);
                }
            },
            '<' => {
                if self.match_next('=') {
                    self.add_token(TokenType::LessEqual);
                } else {
                    self.add_token(TokenType::Less);
                }
            },
            '>' => {
                if self.match_next('=') {
                    self.add_token(TokenType::GreaterEqual);
                } else {
                    self.add_token(TokenType::Greater);
                }
            },
            '/' => {
                if self.match_next('/') {
                    self.comment();
                } else {
                    self.add_token(TokenType::Slash);
                }
            },
            ' ' | '\r' | '\t' => (),
            '\n' => self.line += 1,
            '"' => self.string(),
            digit if is_digit(digit) => self.number(),
            alpha if is_alphabetic(alpha) => self.identifier(),
            _ => self.report(DiagnosticKind::UnexpectedCharacter),
        }
    }
}

/// Whether two texts hold the same characters.
fn same_text(a: &str, b: &str) -> (same: bool)
    ensures
        same == (a@ == b@),
{
    let n = a.unicode_len();
    if n != b.unicode_len() {
        return false;
    }
    let mut i: usize = 0;
    while i < n
        invariant
            n == a@.len(),
            n == b@.len(),
            i <= n,
            forall|j: int| 0 <= j < i ==> a@[j] == b@[j],
        decreases n - i,
    {
        if a.get_char(i) != b.get_char(i) {
            return false;
        }
        i += 1;
    }
    assert(a@ =~= b@);
    true
}

/// The kind of an identifier-shaped lexeme: that of the reserved word which it
/// is, or `Identifier`. The comparison is exact and case-sensitive.
pub fn classify_word(lexeme: &str) -> (kind: TokenType)
    ensures
        kind == word_kind(lexeme@),
{
    if same_text(lexeme, "and") {
        TokenType::And
    } else if same_text(lexeme, "class") {
        TokenType::Class
    } else if same_text(lexeme, "else") {
        TokenType::Else
    } else if same_text(lexeme, "false") {
        TokenType::False
    } else if same_text(lexeme, "for") {
        TokenType::For
    } else if same_text(lexeme, "fun") {
        TokenType::Fun
    } else if same_text(lexeme, "if") {
        TokenType::If
    } else if same_text(lexeme, "nil") {
        TokenType::Nil
    } else if same_text(lexeme, "or") {
        TokenType::Or
    } else if same_text(lexeme, "print") {
        TokenType::Print
    } else if same_text(lexeme, "return") {
        TokenType::Return
    } else if same_text(lexeme, "super") {
        TokenType::Super
    } else if same_text(lexeme, "this") {
        TokenType::This
    } else if same_text(lexeme, "true") {
        TokenType::True
    } else if same_text(lexeme, "var") {
        TokenType::Var
    } else if same_text(lexeme, "while") {
        TokenType::While
    } else {
        TokenType::Identifier
    }
}

} // verus!
