use lox_scanner::diagnostic::{Diagnostic, DiagnosticKind};
use lox_scanner::scanner::{classify_word, Scanner};
use lox_scanner::token::{Token, TokenType};

type Summary = (TokenType, Option<String>, usize);

fn summary(tokens: &[Token]) -> Vec<Summary> {
    tokens
        .iter()
        .map(|t| (t.token_type(), t.lexeme().map(|s| s.to_string()), t.line()))
        .collect()
}

fn scan(source: &str) -> (Vec<Summary>, Vec<Diagnostic>) {
    let mut scanner = Scanner::new(source);
    let tokens = scanner.scan_tokens();
    (summary(&tokens), scanner.diagnostics().clone())
}

fn tok(kind: TokenType, lexeme: &str, line: usize) -> Summary {
    (kind, Some(lexeme.to_string()), line)
}

fn eof(line: usize) -> Summary {
    (TokenType::Eof, None, line)
}

#[test]
fn empty_text_is_one_eof_on_line_one() {
    let (tokens, diagnostics) = scan("");
    assert_eq!(tokens, vec![eof(1)]);
    assert!(diagnostics.is_empty());
}

#[test]
fn blanks_and_newlines_are_one_eof_after_the_last_newline() {
    let (tokens, diagnostics) = scan("  \n\t\r\n \n");
    assert_eq!(tokens, vec![eof(4)]);
    assert!(diagnostics.is_empty());

    let (tokens, _) = scan(" \t\r ");
    assert_eq!(tokens, vec![eof(1)]);

    let (tokens, _) = scan("\n\n\n\n\n");
    assert_eq!(tokens, vec![eof(6)]);
}

#[test]
fn each_punctuation_character_is_its_token() {
    let cases = [
        ("(", TokenType::LeftParen),
        (")", TokenType::RightParen),
        ("{", TokenType::LeftBrace),
        ("}", TokenType::RightBrace),
        (",", TokenType::Comma),
        (".", TokenType::Dot),
        ("-", TokenType::Minus),
        ("+", TokenType::Plus),
        (";", TokenType::Semicolon),
        ("*", TokenType::Star),
        ("/", TokenType::Slash),
    ];
    for (text, kind) in cases {
        let (tokens, diagnostics) = scan(text);
        assert_eq!(tokens, vec![tok(kind, text, 1), eof(1)]);
        assert!(diagnostics.is_empty());
    }
}

#[test]
fn punctuation_in_a_row() {
    let (tokens, diagnostics) = scan("(){},.-+;*/");
    assert_eq!(
        tokens,
        vec![
            tok(TokenType::LeftParen, "(", 1),
            tok(TokenType::RightParen, ")", 1),
            tok(TokenType::LeftBrace, "{", 1),
            tok(TokenType::RightBrace, "}", 1),
            tok(TokenType::Comma, ",", 1),
            tok(TokenType::Dot, ".", 1),
            tok(TokenType::Minus, "-", 1),
            tok(TokenType::Plus, "+", 1),
            tok(TokenType::Semicolon, ";", 1),
            tok(TokenType::Star, "*", 1),
            tok(TokenType::Slash, "/", 1),
            eof(1),
        ]
    );
    assert!(diagnostics.is_empty());
}

#[test]
fn bang_equal_is_one_token() {
    let (tokens, _) = scan("!=");
    assert_eq!(tokens, vec![tok(TokenType::BangEqual, "!=", 1), eof(1)]);
}

#[test]
fn bang_alone_is_bang() {
    let (tokens, _) = scan("!");
    assert_eq!(tokens, vec![tok(TokenType::Bang, "!", 1), eof(1)]);
}

#[test]
fn bang_space_equal_is_two_tokens() {
    let (tokens, _) = scan("! =");
    assert_eq!(
        tokens,
        vec![tok(TokenType::Bang, "!", 1), tok(TokenType::Equal, "=", 1), eof(1)]
    );
}

#[test]
fn every_operator_alone_and_with_equal() {
    let cases = [
        ("=", TokenType::Equal),
        ("==", TokenType::EqualEqual),
        ("<", TokenType::Less),
        ("<=", TokenType::LessEqual),
        (">", TokenType::Greater),
        (">=", TokenType::GreaterEqual),
        ("!", TokenType::Bang),
        ("!=", TokenType::BangEqual),
    ];
    for (text, kind) in cases {
        let (tokens, diagnostics) = scan(text);
        assert_eq!(tokens, vec![tok(kind, text, 1), eof(1)]);
        assert!(diagnostics.is_empty());
    }
}

#[test]
fn operators_take_the_longest_match() {
    let (tokens, _) = scan("===");
    assert_eq!(
        tokens,
        vec![tok(TokenType::EqualEqual, "==", 1), tok(TokenType::Equal, "=", 1), eof(1)]
    );
    let (tokens, _) = scan("<==>");
    assert_eq!(
        tokens,
        vec![
            tok(TokenType::LessEqual, "<=", 1),
            tok(TokenType::Equal, "=", 1),
            tok(TokenType::Greater, ">", 1),
            eof(1),
        ]
    );
}

#[test]
fn comment_yields_no_token() {
    let (tokens, diagnostics) = scan("1 // comment\n2");
    assert_eq!(
        tokens,
        vec![tok(TokenType::Number, "1", 1), tok(TokenType::Number, "2", 2), eof(2)]
    );
    assert!(diagnostics.is_empty());
}

#[test]
fn comment_runs_to_the_end_of_the_text() {
    let (tokens, diagnostics) = scan("// nothing ( here \" @");
    assert_eq!(tokens, vec![eof(1)]);
    assert!(diagnostics.is_empty());

    let (tokens, _) = scan("//");
    assert_eq!(tokens, vec![eof(1)]);

    let (tokens, _) = scan("/ /");
    assert_eq!(
        tokens,
        vec![tok(TokenType::Slash, "/", 1), tok(TokenType::Slash, "/", 1), eof(1)]
    );
}

#[test]
fn string_keeps_its_quotes() {
    let (tokens, diagnostics) = scan("\"abc\"");
    assert_eq!(tokens, vec![tok(TokenType::String, "\"abc\"", 1), eof(1)]);
    assert!(diagnostics.is_empty());

    let (tokens, _) = scan("\"\"");
    assert_eq!(tokens, vec![tok(TokenType::String, "\"\"", 1), eof(1)]);
}

#[test]
fn unterminated_string_is_reported_and_still_a_token() {
    let (tokens, diagnostics) = scan("\"abc");
    assert_eq!(tokens, vec![tok(TokenType::String, "\"abc", 1), eof(1)]);
    assert_eq!(
        diagnostics,
        vec![Diagnostic { kind: DiagnosticKind::UnterminatedString, line: 1 }]
    );

    let (tokens, diagnostics) = scan("\"");
    assert_eq!(tokens, vec![tok(TokenType::String, "\"", 1), eof(1)]);
    assert_eq!(
        diagnostics,
        vec![Diagnostic { kind: DiagnosticKind::UnterminatedString, line: 1 }]
    );
}

#[test]
fn unterminated_string_is_reported_on_the_last_line() {
    let (tokens, diagnostics) = scan("x\n\"a\nb\n");
    assert_eq!(
        tokens,
        vec![
            tok(TokenType::Identifier, "x", 1),
            tok(TokenType::String, "\"a\nb\n", 2),
            eof(4),
        ]
    );
    assert_eq!(
        diagnostics,
        vec![Diagnostic { kind: DiagnosticKind::UnterminatedString, line: 4 }]
    );
}

#[test]
fn string_over_several_lines_starts_on_its_first_line() {
    let (tokens, diagnostics) = scan("\"a\nb\nc\" x");
    assert_eq!(
        tokens,
        vec![
            tok(TokenType::String, "\"a\nb\nc\"", 1),
            tok(TokenType::Identifier, "x", 3),
            eof(3),
        ]
    );
    assert!(diagnostics.is_empty());
}

#[test]
fn string_knows_no_escapes() {
    let (tokens, diagnostics) = scan("\"a\\\"b\"");
    assert_eq!(
        tokens,
        vec![
            tok(TokenType::String, "\"a\\\"", 1),
            tok(TokenType::Identifier, "b", 1),
            tok(TokenType::String, "\"", 1),
            eof(1),
        ]
    );
    assert_eq!(
        diagnostics,
        vec![Diagnostic { kind: DiagnosticKind::UnterminatedString, line: 1 }]
    );
}

#[test]
fn whole_number() {
    let (tokens, _) = scan("123");
    assert_eq!(tokens, vec![tok(TokenType::Number, "123", 1), eof(1)]);
}

#[test]
fn number_with_fraction() {
    let (tokens, _) = scan("1.5");
    assert_eq!(tokens, vec![tok(TokenType::Number, "1.5", 1), eof(1)]);
    let (tokens, _) = scan("120.0625");
    assert_eq!(tokens, vec![tok(TokenType::Number, "120.0625", 1), eof(1)]);
}

#[test]
fn number_then_dot() {
    let (tokens, diagnostics) = scan("1.");
    assert_eq!(
        tokens,
        vec![tok(TokenType::Number, "1", 1), tok(TokenType::Dot, ".", 1), eof(1)]
    );
    assert!(diagnostics.is_empty());
}

#[test]
fn number_edge_forms() {
    let (tokens, _) = scan(".5");
    assert_eq!(
        tokens,
        vec![tok(TokenType::Dot, ".", 1), tok(TokenType::Number, "5", 1), eof(1)]
    );
    let (tokens, _) = scan("-1");
    assert_eq!(
        tokens,
        vec![tok(TokenType::Minus, "-", 1), tok(TokenType::Number, "1", 1), eof(1)]
    );
    let (tokens, _) = scan("1.5.2");
    assert_eq!(
        tokens,
        vec![
            tok(TokenType::Number, "1.5", 1),
            tok(TokenType::Dot, ".", 1),
            tok(TokenType::Number, "2", 1),
            eof(1),
        ]
    );
    let (tokens, _) = scan("7.abs");
    assert_eq!(
        tokens,
        vec![
            tok(TokenType::Number, "7", 1),
            tok(TokenType::Dot, ".", 1),
            tok(TokenType::Identifier, "abs", 1),
            eof(1),
        ]
    );
    let (tokens, _) = scan("12ab");
    assert_eq!(
        tokens,
        vec![tok(TokenType::Number, "12", 1), tok(TokenType::Identifier, "ab", 1), eof(1)]
    );
}

#[test]
fn digits_of_other_scripts_do_not_start_a_number() {
    // U+0663 ARABIC-INDIC DIGIT THREE is numeric but neither an ASCII digit nor alphabetic.
    let (tokens, diagnostics) = scan("\u{0663}");
    assert_eq!(tokens, vec![eof(1)]);
    assert_eq!(
        diagnostics,
        vec![Diagnostic { kind: DiagnosticKind::UnexpectedCharacter, line: 1 }]
    );
    // Inside an identifier it is alphanumeric and belongs to the word.
    let (tokens, diagnostics) = scan("a\u{0663}");
    assert_eq!(tokens, vec![tok(TokenType::Identifier, "a\u{0663}", 1), eof(1)]);
    assert!(diagnostics.is_empty());
}

#[test]
fn word_that_starts_like_a_keyword_is_an_identifier() {
    let (tokens, _) = scan("classify");
    assert_eq!(tokens, vec![tok(TokenType::Identifier, "classify", 1), eof(1)]);
}

#[test]
fn keyword_is_its_own_kind() {
    let (tokens, _) = scan("class");
    assert_eq!(tokens, vec![tok(TokenType::Class, "class", 1), eof(1)]);
}

#[test]
fn every_reserved_word() {
    let cases = [
        ("and", TokenType::And),
        ("class", TokenType::Class),
        ("else", TokenType::Else),
        ("false", TokenType::False),
        ("for", TokenType::For),
        ("fun", TokenType::Fun),
        ("if", TokenType::If),
        ("nil", TokenType::Nil),
        ("or", TokenType::Or),
        ("print", TokenType::Print),
        ("return", TokenType::Return),
        ("super", TokenType::Super),
        ("this", TokenType::This),
        ("true", TokenType::True),
        ("var", TokenType::Var),
        ("while", TokenType::While),
    ];
    for (text, kind) in cases {
        assert_eq!(classify_word(text), kind);
        let (tokens, diagnostics) = scan(text);
        assert_eq!(tokens, vec![tok(kind, text, 1), eof(1)]);
        assert!(diagnostics.is_empty());
    }
}

#[test]
fn reserved_words_are_case_sensitive_and_exact() {
    for text in ["And", "CLASS", "iff", "i", "whil", "whiles", "nil0", "", "classify", "orchid"] {
        assert_eq!(classify_word(text), TokenType::Identifier);
    }
    let (tokens, _) = scan("Class WHILE or1");
    assert_eq!(
        tokens,
        vec![
            tok(TokenType::Identifier, "Class", 1),
            tok(TokenType::Identifier, "WHILE", 1),
            tok(TokenType::Identifier, "or1", 1),
            eof(1),
        ]
    );
}

#[test]
fn identifier_takes_letters_and_digits() {
    let (tokens, diagnostics) = scan("abc123 x9y");
    assert_eq!(
        tokens,
        vec![
            tok(TokenType::Identifier, "abc123", 1),
            tok(TokenType::Identifier, "x9y", 1),
            eof(1),
        ]
    );
    assert!(diagnostics.is_empty());
}

#[test]
fn identifier_of_letters_beyond_ascii() {
    let (tokens, diagnostics) = scan("h\u{e9}llo = \u{4eac}2;");
    assert_eq!(
        tokens,
        vec![
            tok(TokenType::Identifier, "h\u{e9}llo", 1),
            tok(TokenType::Equal, "=", 1),
            tok(TokenType::Identifier, "\u{4eac}2", 1),
            tok(TokenType::Semicolon, ";", 1),
            eof(1),
        ]
    );
    assert!(diagnostics.is_empty());
}

#[test]
fn text_beyond_ascii_in_strings_and_comments() {
    let (tokens, diagnostics) = scan("\"\u{65e5}\u{672c}\" // \u{1f49d}\n\u{e9}");
    assert_eq!(
        tokens,
        vec![
            tok(TokenType::String, "\"\u{65e5}\u{672c}\"", 1),
            tok(TokenType::Identifier, "\u{e9}", 2),
            eof(2),
        ]
    );
    assert!(diagnostics.is_empty());
}

#[test]
fn underscore_is_not_a_letter() {
    let (tokens, diagnostics) = scan("a_b");
    assert_eq!(
        tokens,
        vec![tok(TokenType::Identifier, "a", 1), tok(TokenType::Identifier, "b", 1), eof(1)]
    );
    assert_eq!(
        diagnostics,
        vec![Diagnostic { kind: DiagnosticKind::UnexpectedCharacter, line: 1 }]
    );
}

#[test]
fn unexpected_character_is_reported_and_skipped() {
    let (tokens, diagnostics) = scan("@");
    assert_eq!(tokens, vec![eof(1)]);
    assert_eq!(
        diagnostics,
        vec![Diagnostic { kind: DiagnosticKind::UnexpectedCharacter, line: 1 }]
    );

    let (tokens, diagnostics) = scan("1 #\n$ 2\n\u{1f49d}");
    assert_eq!(
        tokens,
        vec![tok(TokenType::Number, "1", 1), tok(TokenType::Number, "2", 2), eof(3)]
    );
    assert_eq!(
        diagnostics,
        vec![
            Diagnostic { kind: DiagnosticKind::UnexpectedCharacter, line: 1 },
            Diagnostic { kind: DiagnosticKind::UnexpectedCharacter, line: 2 },
            Diagnostic { kind: DiagnosticKind::UnexpectedCharacter, line: 3 },
        ]
    );
}

#[test]
fn nul_character_is_unexpected() {
    let (tokens, diagnostics) = scan("a\0b");
    assert_eq!(
        tokens,
        vec![tok(TokenType::Identifier, "a", 1), tok(TokenType::Identifier, "b", 1), eof(1)]
    );
    assert_eq!(
        diagnostics,
        vec![Diagnostic { kind: DiagnosticKind::UnexpectedCharacter, line: 1 }]
    );
}

#[test]
fn had_error_tells_whether_anything_was_reported() {
    let mut clean = Scanner::new("var x = 1;");
    assert!(!clean.had_error());
    clean.scan_tokens();
    assert!(!clean.had_error());
    assert!(clean.diagnostics().is_empty());

    let mut broken = Scanner::new("var x = ?;");
    assert!(!broken.had_error());
    broken.scan_tokens();
    assert!(broken.had_error());
    assert_eq!(broken.diagnostics().len(), 1);
}

#[test]
fn a_small_program() {
    let source = "fun add(a, b) {\n  // sum\n  return a + b;\n}\nprint add(1, 2.5) >= 3;\n";
    let (tokens, diagnostics) = scan(source);
    assert_eq!(
        tokens,
        vec![
            tok(TokenType::Fun, "fun", 1),
            tok(TokenType::Identifier, "add", 1),
            tok(TokenType::LeftParen, "(", 1),
            tok(TokenType::Identifier, "a", 1),
            tok(TokenType::Comma, ",", 1),
            tok(TokenType::Identifier, "b", 1),
            tok(TokenType::RightParen, ")", 1),
            tok(TokenType::LeftBrace, "{", 1),
            tok(TokenType::Return, "return", 3),
            tok(TokenType::Identifier, "a", 3),
            tok(TokenType::Plus, "+", 3),
            tok(TokenType::Identifier, "b", 3),
            tok(TokenType::Semicolon, ";", 3),
            tok(TokenType::RightBrace, "}", 4),
            tok(TokenType::Print, "print", 5),
            tok(TokenType::Identifier, "add", 5),
            tok(TokenType::LeftParen, "(", 5),
            tok(TokenType::Number, "1", 5),
            tok(TokenType::Comma, ",", 5),
            tok(TokenType::Number, "2.5", 5),
            tok(TokenType::RightParen, ")", 5),
            tok(TokenType::GreaterEqual, ">=", 5),
            tok(TokenType::Number, "3", 5),
            tok(TokenType::Semicolon, ";", 5),
            eof(6),
        ]
    );
    assert!(diagnostics.is_empty());
}

#[test]
fn two_scanners_on_one_text_agree() {
    let source = "var s = \"a\nb\"; // c\nif (s != nil) { print s @ 1.5; } \"open";
    let (first_tokens, first_diagnostics) = scan(source);
    let (second_tokens, second_diagnostics) = scan(source);
    assert_eq!(first_tokens, second_tokens);
    assert_eq!(first_diagnostics, second_diagnostics);
    assert_eq!(first_tokens.last(), Some(&eof(3)));
    assert_eq!(
        first_diagnostics,
        vec![
            Diagnostic { kind: DiagnosticKind::UnexpectedCharacter, line: 3 },
            Diagnostic { kind: DiagnosticKind::UnterminatedString, line: 3 },
        ]
    );
}

#[test]
fn the_last_token_is_the_only_eof() {
    for source in ["", "a", "1 2 3", "\"x", "@@", "while (true) { }\n\n"] {
        let (tokens, _) = scan(source);
        let last = tokens.len() - 1;
        assert_eq!(tokens[last].0, TokenType::Eof);
        assert_eq!(tokens[last].1, None);
        for token in &tokens[..last] {
            assert_ne!(token.0, TokenType::Eof);
            assert!(token.1.is_some());
        }
    }
}

#[test]
fn scanning_again_adds_another_eof() {
    let mut scanner = Scanner::new("a");
    let first = summary(&scanner.scan_tokens());
    assert_eq!(first, vec![tok(TokenType::Identifier, "a", 1), eof(1)]);
    let second = summary(&scanner.scan_tokens());
    assert_eq!(second, vec![tok(TokenType::Identifier, "a", 1), eof(1), eof(1)]);
}

#[test]
fn nul_characters_in_the_text_do_not_end_it() {
    let (tokens, diagnostics) = scan("\0\0 1 \"a\0b\" // c\0d\n2\0");
    assert_eq!(
        tokens,
        vec![
            tok(TokenType::Number, "1", 1),
            tok(TokenType::String, "\"a\0b\"", 1),
            tok(TokenType::Number, "2", 2),
            eof(2),
        ]
    );
    assert_eq!(
        diagnostics,
        vec![
            Diagnostic { kind: DiagnosticKind::UnexpectedCharacter, line: 1 },
            Diagnostic { kind: DiagnosticKind::UnexpectedCharacter, line: 1 },
            Diagnostic { kind: DiagnosticKind::UnexpectedCharacter, line: 2 },
        ]
    );
}

#[test]
fn lookahead_at_the_end_of_the_text() {
    for (source, kind) in [("1", TokenType::Number), ("a", TokenType::Identifier)] {
        let (tokens, diagnostics) = scan(source);
        assert_eq!(tokens, vec![tok(kind, source, 1), eof(1)]);
        assert!(diagnostics.is_empty());
    }
    let (tokens, _) = scan("=");
    assert_eq!(tokens, vec![tok(TokenType::Equal, "=", 1), eof(1)]);
    let (tokens, diagnostics) = scan("12.");
    assert_eq!(
        tokens,
        vec![tok(TokenType::Number, "12", 1), tok(TokenType::Dot, ".", 1), eof(1)]
    );
    assert!(diagnostics.is_empty());
}

#[test]
fn tokens_after_a_string_over_lines_stand_on_their_own_lines() {
    let (tokens, diagnostics) = scan("a\n\"x\ny\" b\nc \"p\n\nq\" d");
    assert_eq!(
        tokens,
        vec![
            tok(TokenType::Identifier, "a", 1),
            tok(TokenType::String, "\"x\ny\"", 2),
            tok(TokenType::Identifier, "b", 3),
            tok(TokenType::Identifier, "c", 4),
            tok(TokenType::String, "\"p\n\nq\"", 4),
            tok(TokenType::Identifier, "d", 6),
            eof(6),
        ]
    );
    assert!(diagnostics.is_empty());
}
