//! Tokens and their kinds.

use vstd::prelude::*;

verus! {

/// The lexical category of a token.
#[derive(Debug, Clone, Copy, PartialEq, Eq, Structural)]
pub enum TokenType {
    // Single-character tokens
    LeftParen,
    RightParen,
    LeftBrace,
    RightBrace,
    Comma,
    Dot,
    Minus,
    Plus,
    Semicolon,
    Slash,
    Star,
    // One or two character tokens
    Bang,
    BangEqual,
    Equal,
    EqualEqual,
    Greater,
    GreaterEqual,
    Less,
    LessEqual,
    // Literals
    Identifier,
    String,
    Number,
    // Keywords
    And,
    Class,
    Else,
    False,
    Fun,
    For,
    If,
    Nil,
    Or,
    Print,
    Return,
    Super,
    This,
    True,
    Var,
    While,
    // End of input
    Eof,
}

/// What a token is, as a mathematical value: its kind, the characters it was
/// matched from (none for the end-of-input token) and the 1-based line on
/// which its first character stands.
pub struct TokenView {
    pub kind: TokenType,
    pub lexeme: Option<Seq<char>>,
    pub line: nat,
}

/// One token of the source text.
#[derive(Debug)]
pub struct Token {
    token_type: TokenType,
    lexeme: Option<String>,
    line: usize,
}

impl View for Token {
    type V = TokenView;

    closed spec fn view(&self) -> TokenView {
        TokenView {
            kind: self.token_type,
            lexeme: match self.lexeme {
                Some(text) => Some(text@),
                None => None,
            },
            line: self.line as nat,
        }
    }
}

/// The views of a sequence of tokens, in order.
pub open spec fn token_views(tokens: Seq<Token>) -> Seq<TokenView> {
    tokens.map_values(|t: Token| t@)
}

impl Token {
    /// A token of the given kind, with the text it was matched from and the
    /// line on which that text starts.
    pub fn new(token_type: TokenType, lexeme: Option<String>, line: usize) -> (token: Self)
        ensures
            token@.kind == token_type,
            token@.lexeme == match lexeme {
                Some(text) => Some(text@),
                None => None,
            },
            token@.line == line,
    {
        Self { token_type, lexeme, line }
    }

    /// The kind of this token.
    pub fn token_type(&self) -> (kind: TokenType)
        ensures
            kind == self@.kind,
    {
        self.token_type
    }

    /// The matched text, absent for the end-of-input token.
    pub fn lexeme(&self) -> (lexeme: Option<&str>)
        ensures
            match lexeme {
                Some(text) => self@.lexeme == Some(text@),
                None => self@.lexeme is None,
            },
    {
        match &self.lexeme {
            Some(text) => Some(text.as_str()),
            None => None,
        }
    }

    /// The 1-based line on which the token starts.
    pub fn line(&self) -> (line: usize)
        ensures
            line == self@.line,
    {
        self.line
    }
}

impl Clone for Token {
    fn clone(&self) -> (copy: Self)
        ensures
            copy@ == self@,
    {
        let lexeme = match &self.lexeme {
            Some(text) => Some(text.clone()),
            None => None,
        };
        Token { token_type: self.token_type, lexeme, line: self.line }
    }
}

} // verus!
