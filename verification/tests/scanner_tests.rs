use lox::error::LoxResult;
use lox::scanner::{keyword, Scanner};
use lox::text::{chars_of, decimal, string_of};
use lox::token::{Literal, Token, TokenType};

fn scan(source: &str) -> (Vec<Token>, bool, Vec<LoxResult>) {
    let mut scanner = Scanner::new(source);
    let (tokens, ok) = scanner.scan_tokens();
    (tokens, ok, scanner.recorded_errors().clone())
}

fn kinds(source: &str) -> Vec<TokenType> {
    scan(source).0.iter().map(|t| t.ttype).collect()
}

#[test]
fn punctuation_and_operators() {
    assert_eq!(kinds("(){},.-+;/ *"), vec![
        TokenType::LeftParen,
        TokenType::RightParen,
        TokenType::LeftBrace,
        TokenType::RightBrace,
        TokenType::Comma,
        TokenType::Dot,
        TokenType::Minus,
        TokenType::Plus,
        TokenType::Semicolon,
        TokenType::Slash,
        TokenType::Star,
        TokenType::Eof,
    ]);
    assert_eq!(kinds("! != = == < <= > >="), vec![
        TokenType::Bang,
        TokenType::BangEqual,
        TokenType::Equal,
        TokenType::EqualEqual,
        TokenType::Less,
        TokenType::LessEqual,
        TokenType::Greater,
        TokenType::GreaterEqual,
        TokenType::Eof,
    ]);
    assert_eq!(kinds("==="), vec![TokenType::EqualEqual, TokenType::Equal, TokenType::Eof]);
}

#[test]
fn the_empty_source_is_the_end_marker() {
    let (tokens, ok, errors) = scan("");
    assert!(ok);
    assert!(errors.is_empty());
    assert_eq!(tokens, vec![Token::new(TokenType::Eof, String::new(), None, 1, 0)]);
}

#[test]
fn every_reserved_word_has_its_kind() {
    let words = [
        ("and", TokenType::And),
        ("break", TokenType::Break),
        ("class", TokenType::Class),
        ("else", TokenType::Else),
        ("false", TokenType::False),
        ("for", TokenType::For),
        ("fun", TokenType::Fun),
        ("if", TokenType::If),
        ("nil", TokenType::Nil),
        ("or", TokenType::Or),
        ("print", TokenType::Print),
        ("return", TokenType::Return),
        ("super", TokenType::Super),
        ("this", TokenType::This),
        ("true", TokenType::True),
        ("var", TokenType::Var),
        ("while", TokenType::While),
    ];
    for (word, kind) in words {
        assert_eq!(keyword(&word.to_string()), Some(kind));
        let (tokens, ok, _) = scan(word);
        assert!(ok);
        assert_eq!(tokens[0], Token::new(kind, word.to_string(), None, 1, word.len()));
        assert_eq!(tokens.len(), 2);
    }
    assert_eq!(keyword(&"classy".to_string()), None);
    assert_eq!(keyword(&"".to_string()), None);
}

#[test]
fn identifiers_numbers_and_strings_carry_literals() {
    let (tokens, ok, _) = scan("_a1 12.50 7. \"two\nlines\" andy");
    assert!(ok);
    assert_eq!(tokens[0], Token::new(
        TokenType::Identifier,
        "_a1".to_string(),
        Some(Literal::Identifier("_a1".to_string())),
        1,
        3
    ));
    assert_eq!(tokens[1], Token::new(
        TokenType::Number,
        "12.50".to_string(),
        Some(Literal::Number("12.50".to_string())),
        1,
        9
    ));
    assert_eq!(tokens[2].ttype, TokenType::Number);
    assert_eq!(tokens[2].lexeme, "7");
    assert_eq!(tokens[3].ttype, TokenType::Dot);
    assert_eq!(tokens[4], Token::new(
        TokenType::StringLiteral,
        "\"two\nlines\"".to_string(),
        Some(Literal::Str("two\nlines".to_string())),
        2,
        6
    ));
    assert_eq!(tokens[5].ttype, TokenType::Identifier);
    assert_eq!(tokens[5].lexeme, "andy");
    assert_eq!(tokens[5].line, 2);
    assert_eq!(tokens[6].ttype, TokenType::Eof);
}

#[test]
fn positions_count_lines_and_columns_from_one() {
    let (tokens, _, _) = scan("a\n  bc\n");
    assert_eq!((tokens[0].line, tokens[0].col), (1, 1));
    assert_eq!((tokens[1].line, tokens[1].col), (2, 4));
    assert_eq!((tokens[2].ttype, tokens[2].line, tokens[2].col), (TokenType::Eof, 3, 0));
}

#[test]
fn comments_are_skipped_and_block_comments_nest() {
    assert_eq!(kinds("1 // one\n2"), vec![TokenType::Number, TokenType::Number, TokenType::Eof]);
    assert_eq!(kinds("1 /* a /* b */ c */ 2"), vec![
        TokenType::Number,
        TokenType::Number,
        TokenType::Eof
    ]);
    assert_eq!(kinds("/**/1"), vec![TokenType::Number, TokenType::Eof]);
    assert_eq!(kinds("/***/ /*/ */ 1"), vec![TokenType::Number, TokenType::Eof]);
    let (tokens, ok, errors) = scan("1 /* a /* b */ c");
    assert!(!ok);
    assert_eq!(tokens.len(), 2);
    assert_eq!(errors, vec![LoxResult::error(1, 16, "Unterminated block comment")]);
}

#[test]
fn errors_are_collected_and_scanning_goes_on() {
    let (tokens, ok, errors) = scan("a # b @\n\"open");
    assert!(!ok);
    assert_eq!(
        tokens.iter().map(|t| t.ttype).collect::<Vec<_>>(),
        vec![TokenType::Identifier, TokenType::Identifier, TokenType::Eof]
    );
    assert_eq!(errors, vec![
        LoxResult::error(1, 3, "scanner can't handle #"),
        LoxResult::error(1, 7, "scanner can't handle @"),
        LoxResult::error(2, 5, "Unterminated string"),
    ]);
    assert_eq!(errors[0].report(), "[line 1 col 3] Error: scanner can't handle #");
}

#[test]
fn scanning_the_lexeme_of_a_literal_token_gives_the_token_back() {
    for source in ["12", "3.25", "\"text\"", "name", "_x9", "while", "nil"] {
        let (tokens, ok, _) = scan(source);
        assert!(ok);
        assert_eq!(tokens.len(), 2);
        assert_eq!(tokens[0].lexeme, source);
        let (again, ok, _) = scan(&tokens[0].lexeme);
        assert!(ok);
        assert_eq!(again, tokens);
    }
}

#[test]
fn a_scanner_is_made_for_any_source_that_fits() {
    let mut scanner = Scanner::try_new("a b").unwrap();
    let (tokens, ok) = scanner.scan_tokens();
    assert!(ok);
    assert_eq!(tokens.len(), 3);
}

#[test]
fn one_token_at_a_time() {
    let mut scanner = Scanner::new("a+");
    assert!(!scanner.is_at_end());
    assert!(scanner.scan_token().is_ok());
    assert!(scanner.scan_token().is_ok());
    assert!(scanner.is_at_end());
    let (tokens, ok) = scanner.scan_tokens();
    assert!(ok);
    assert_eq!(tokens.iter().map(|t| t.ttype).collect::<Vec<_>>(), vec![
        TokenType::Identifier,
        TokenType::Plus,
        TokenType::Eof
    ]);
    let mut failing = Scanner::new("^");
    assert_eq!(failing.scan_token(), Err(LoxResult::error(1, 1, "scanner can't handle ^")));
}

#[test]
fn text_conversions() {
    assert_eq!(chars_of("héllo"), vec!['h', 'é', 'l', 'l', 'o']);
    assert_eq!(string_of(&chars_of("héllo"), 1, 4), "éll");
    assert_eq!(string_of(&chars_of("abc"), 2, 2), "");
    assert_eq!(decimal(0), "0");
    assert_eq!(decimal(7), "7");
    assert_eq!(decimal(10), "10");
    assert_eq!(decimal(1234567890), "1234567890");
    assert_eq!(decimal(usize::MAX), usize::MAX.to_string());
}

#[test]
fn errors_are_reported_with_their_position() {
    let token = Token::new(TokenType::Identifier, "x".to_string(), None, 3, 9);
    let eof = Token::new(TokenType::Eof, String::new(), None, 4, 0);
    assert_eq!(
        LoxResult::error_at_token(&token, "Expect ';'").report(),
        "[line 3 col 9] Error at 'x': Expect ';'"
    );
    assert_eq!(
        LoxResult::error_at_token(&eof, "Expect ';'").report(),
        "[line 4 col 0] Error at eof: Expect ';'"
    );
    assert_eq!(
        LoxResult::error_runtime(&token, "Illegal operation").report(),
        "[line 3 col 9] Error at 'x': Illegal operation"
    );
    assert_eq!(
        LoxResult::error_resolve(&token, "no").report(),
        "[line 3 col 9] Error at 'x': no"
    );
    assert_eq!(LoxResult::error(12, 34, "bad").report(), "[line 12 col 34] Error: bad");
    assert_eq!(LoxResult::system_error("clock").report(), "Error: clock");
    assert_eq!(LoxResult::system_error("clock").clone(), LoxResult::system_error("clock"));
}
