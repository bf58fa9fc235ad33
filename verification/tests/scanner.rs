use jlox::lexer::invalid_decimal_message;
use jlox::lexer::Scanner;
use jlox::lexer::Token;
use jlox::lexer::TokenType;
use jlox::lox::Lox;
use jlox::token::Decimal;

fn number(whole: &[u8], fraction: &[u8]) -> TokenType {
    TokenType::Number(Decimal::new(whole.to_vec(), fraction.to_vec()).unwrap())
}

fn value(kind: &TokenType) -> f64 {
    match kind {
        TokenType::Number(d) => d.to_text().parse::<f64>().unwrap(),
        _ => panic!("not a number"),
    }
}

fn scan(source: &str) -> (Vec<Token>, Scanner) {
    let mut scanner = Scanner::new(source.to_string());
    let tokens = scanner.scan_tokens();
    (tokens, scanner)
}

fn kinds(source: &str) -> Vec<TokenType> {
    scan(source).0.iter().map(|t| t.token_type().clone()).collect()
}

#[test]
fn test_scanner() {
    let source = "(()){}!*+-/=<> <= >= == \"foo bar baz\" = 20 \n3.14 // ".to_string();

    let mut scanner = Scanner::new(source.clone());
    assert_eq!(scanner.start(), 0);
    assert_eq!(scanner.current(), 0);
    assert_eq!(scanner.line(), 1);

    let tokens = scanner.scan_tokens();
    assert_eq!(
        tokens,
        vec![
            Token::new(TokenType::LeftParen, "(".to_string(), 1),
            Token::new(TokenType::LeftParen, "(".to_string(), 1),
            Token::new(TokenType::RightParen, ")".to_string(), 1),
            Token::new(TokenType::RightParen, ")".to_string(), 1),
            Token::new(TokenType::LeftBrace, "{".to_string(), 1),
            Token::new(TokenType::RightBrace, "}".to_string(), 1),
            Token::new(TokenType::Bang, "!".to_string(), 1),
            Token::new(TokenType::Star, "*".to_string(), 1),
            Token::new(TokenType::Plus, "+".to_string(), 1),
            Token::new(TokenType::Minus, "-".to_string(), 1),
            Token::new(TokenType::Slash, "/".to_string(), 1),
            Token::new(TokenType::Equal, "=".to_string(), 1),
            Token::new(TokenType::Less, "<".to_string(), 1),
            Token::new(TokenType::Greater, ">".to_string(), 1),
            Token::new(TokenType::LessEqual, "<=".to_string(), 1),
            Token::new(TokenType::GreaterEqual, ">=".to_string(), 1),
            Token::new(TokenType::EqualEqual, "==".to_string(), 1),
            Token::new(
                TokenType::Str("foo bar baz".to_string()),
                "\"foo bar baz\"".to_string(),
                1
            ),
            Token::new(TokenType::Equal, "=".to_string(), 1),
            Token::new(number(&[2, 0], &[]), "20".to_string(), 1),
            Token::new(number(&[3], &[1, 4]), "3.14".to_string(), 2),
            Token::new(TokenType::Eof, "".to_string(), 2),
        ],
    );
    assert_eq!(value(tokens[19].token_type()), 20.0);
    assert_eq!(value(tokens[20].token_type()), 3.14);

    // The last lexeme seen was a three-character "// ", so the start cursor is 3 behind current.
    assert_eq!(scanner.start(), source.len() - 3);
    assert_eq!(scanner.current(), source.len());
    assert!(!scanner.lox().had_error);
    assert!(scanner.lox().reports.is_empty());
}

#[test]
fn punctuation_only_gives_one_token_per_character() {
    let source = "(){},.-+;*/(/)";
    let (tokens, _) = scan(source);
    assert_eq!(tokens.len(), source.len() + 1);
    assert_eq!(
        kinds(source),
        vec![
            TokenType::LeftParen,
            TokenType::RightParen,
            TokenType::LeftBrace,
            TokenType::RightBrace,
            TokenType::Comma,
            TokenType::Dot,
            TokenType::Minus,
            TokenType::Plus,
            TokenType::Semicolon,
            TokenType::Star,
            TokenType::Slash,
            TokenType::LeftParen,
            TokenType::Slash,
            TokenType::RightParen,
            TokenType::Eof,
        ]
    );
}

#[test]
fn empty_source_gives_end_of_input_alone() {
    let (tokens, scanner) = scan("");
    assert_eq!(tokens, vec![Token::new(TokenType::Eof, String::new(), 1)]);
    assert_eq!(scanner.line(), 1);
    assert_eq!(scanner.current(), 0);
}

#[test]
fn lexemes_are_the_source_between_the_cursors() {
    let source = "12.5<=\"a b\"!=7";
    let (tokens, _) = scan(source);
    let lexemes: Vec<&str> = tokens.iter().map(|t| t.lexeme().as_str()).collect();
    assert_eq!(lexemes, vec!["12.5", "<=", "\"a b\"", "!=", "7", ""]);
    let joined: String = lexemes.concat();
    assert_eq!(joined, source);
}

#[test]
fn two_character_operators() {
    assert_eq!(
        kinds("!= == <= >= ! = < >"),
        vec![
            TokenType::BangEqual,
            TokenType::EqualEqual,
            TokenType::LessEqual,
            TokenType::GreaterEqual,
            TokenType::Bang,
            TokenType::Equal,
            TokenType::Less,
            TokenType::Greater,
            TokenType::Eof,
        ]
    );
    assert_eq!(
        kinds("==="),
        vec![TokenType::EqualEqual, TokenType::Equal, TokenType::Eof]
    );
}

#[test]
fn line_comment_gives_no_token() {
    assert_eq!(kinds("// (( \"open 12 @"), vec![TokenType::Eof]);
    let (tokens, scanner) = scan("+ // minus - \n*");
    assert_eq!(
        tokens,
        vec![
            Token::new(TokenType::Plus, "+".to_string(), 1),
            Token::new(TokenType::Star, "*".to_string(), 2),
            Token::new(TokenType::Eof, String::new(), 2),
        ]
    );
    assert!(!scanner.lox().had_error);
}

#[test]
fn whitespace_is_skipped_and_newlines_counted() {
    let (tokens, scanner) = scan(" \t\r\n\n;");
    assert_eq!(
        tokens,
        vec![
            Token::new(TokenType::Semicolon, ";".to_string(), 3),
            Token::new(TokenType::Eof, String::new(), 3),
        ]
    );
    assert_eq!(scanner.line(), 3);
}

#[test]
fn string_value_excludes_the_quotes() {
    let (tokens, _) = scan("\"hi\"");
    assert_eq!(
        tokens,
        vec![
            Token::new(TokenType::Str("hi".to_string()), "\"hi\"".to_string(), 1),
            Token::new(TokenType::Eof, String::new(), 1),
        ]
    );
    let (tokens, _) = scan("\"\"");
    assert_eq!(tokens[0], Token::new(TokenType::Str(String::new()), "\"\"".to_string(), 1));
}

#[test]
fn string_over_several_lines_has_the_line_of_its_closing_quote() {
    let (tokens, _) = scan("\"a\nb\nc\" +");
    assert_eq!(
        tokens,
        vec![
            Token::new(TokenType::Str("a\nb\nc".to_string()), "\"a\nb\nc\"".to_string(), 3),
            Token::new(TokenType::Plus, "+".to_string(), 3),
            Token::new(TokenType::Eof, String::new(), 3),
        ]
    );
}

#[test]
fn unterminated_string_is_reported_and_gives_no_token() {
    let (tokens, scanner) = scan("+ \"abc\ndef");
    assert_eq!(
        tokens,
        vec![
            Token::new(TokenType::Plus, "+".to_string(), 1),
            Token::new(TokenType::Eof, String::new(), 2),
        ]
    );
    assert!(scanner.lox().had_error);
    let reports = &scanner.lox().reports;
    assert_eq!(reports.len(), 1);
    assert_eq!(reports[0].line(), 2);
    assert_eq!(reports[0].message(), "Unterminated string.");
    assert_eq!(reports[0].hint(), "");
    assert_eq!(reports[0].render(), "[line 2] Error : Unterminated string.");
    assert_eq!(scanner.current(), 10);
}

#[test]
fn number_with_trailing_dot() {
    let (tokens, scanner) = scan("123.");
    assert_eq!(
        tokens,
        vec![
            Token::new(number(&[1, 2, 3], &[]), "123".to_string(), 1),
            Token::new(TokenType::Dot, ".".to_string(), 1),
            Token::new(TokenType::Eof, String::new(), 1),
        ]
    );
    assert_eq!(value(tokens[0].token_type()), 123.0);
    assert!(!scanner.lox().had_error);
}

#[test]
fn number_forms() {
    assert_eq!(
        kinds("0 007 1.50 1.2.3 .5"),
        vec![
            number(&[0], &[]),
            number(&[0, 0, 7], &[]),
            number(&[1], &[5, 0]),
            number(&[1], &[2]),
            TokenType::Dot,
            number(&[3], &[]),
            TokenType::Dot,
            number(&[5], &[]),
            TokenType::Eof,
        ]
    );
    assert_eq!(value(&number(&[1], &[5, 0])), 1.5);
}

#[test]
fn unexpected_characters_are_reported_and_the_scan_goes_on() {
    let (tokens, scanner) = scan("@+\n#a1");
    assert_eq!(
        tokens,
        vec![
            Token::new(TokenType::Plus, "+".to_string(), 1),
            Token::new(number(&[1], &[]), "1".to_string(), 2),
            Token::new(TokenType::Eof, String::new(), 2),
        ]
    );
    let lox = scanner.lox();
    assert!(lox.had_error);
    let lines: Vec<String> = lox.reports.iter().map(|r| r.render()).collect();
    assert_eq!(
        lines,
        vec![
            "[line 1] Error : Unexpected character @.",
            "[line 2] Error : Unexpected character #.",
            "[line 2] Error : Unexpected character a.",
        ]
    );
}

#[test]
fn characters_beyond_ascii_are_single_characters() {
    let (tokens, scanner) = scan("\"h\u{e9}\"\u{3bb}+");
    assert_eq!(
        tokens,
        vec![
            Token::new(TokenType::Str("h\u{e9}".to_string()), "\"h\u{e9}\"".to_string(), 1),
            Token::new(TokenType::Plus, "+".to_string(), 1),
            Token::new(TokenType::Eof, String::new(), 1),
        ]
    );
    assert_eq!(scanner.current(), 6);
    assert_eq!(scanner.lox().reports[0].message(), "Unexpected character \u{3bb}.");
}

#[test]
fn scanning_twice_gives_the_same() {
    let source = "(1.5 <= \"x\ny\") @ // done\n\"open";
    let (first, a) = scan(source);
    let (second, b) = scan(source);
    assert_eq!(first, second);
    assert_eq!(a.lox().reports, b.lox().reports);
    assert_eq!(a.lox().had_error, b.lox().had_error);
    assert_eq!(a.line(), b.line());
}

#[test]
fn scanning_again_appends_another_end_of_input() {
    let mut scanner = Scanner::new("+".to_string());
    let first = scanner.scan_tokens();
    assert_eq!(first.len(), 2);
    let second = scanner.scan_tokens();
    assert_eq!(
        second,
        vec![
            Token::new(TokenType::Plus, "+".to_string(), 1),
            Token::new(TokenType::Eof, String::new(), 1),
            Token::new(TokenType::Eof, String::new(), 1),
        ]
    );
    assert_eq!(scanner.tokens(), &second);
}

#[test]
fn token_debugging_form() {
    assert_eq!(Token::new(TokenType::LeftBrace, "{".to_string(), 1).to_text(), "{ { ");
    assert_eq!(Token::new(TokenType::BangEqual, "!=".to_string(), 1).to_text(), "!= != ");
    assert_eq!(
        Token::new(TokenType::Str("a b".to_string()), "\"a b\"".to_string(), 1).to_text(),
        "STRING(a b) \"a b\" a b"
    );
    assert_eq!(
        Token::new(TokenType::Identifier("x".to_string()), "x".to_string(), 1).to_text(),
        "ID(x) x x"
    );
    assert_eq!(
        Token::new(number(&[3], &[1, 4]), "3.14".to_string(), 2).to_text(),
        "NUM(3.14) 3.14 3.14"
    );
    assert_eq!(Token::new(number(&[2, 0], &[]), "20".to_string(), 2).to_text(), "NUM(20) 20 20");
    assert_eq!(Token::new(TokenType::Eof, String::new(), 1).to_text(), "EOF  ");
    assert_eq!(TokenType::While.to_text(), "WHILE");
    assert_eq!(TokenType::And.to_text(), "AND");
    assert_eq!(TokenType::Nil.literal_to_text(), "");
}

#[test]
fn decimal_takes_digits_only() {
    assert!(Decimal::new(vec![1, 2], vec![3]).is_some());
    assert!(Decimal::new(vec![], vec![3]).is_none());
    assert!(Decimal::new(vec![10], vec![]).is_none());
    assert!(Decimal::new(vec![1], vec![0, 12]).is_none());
    let d = Decimal::new(vec![4, 5], vec![6, 7]).unwrap();
    assert_eq!(d.whole(), &vec![4, 5]);
    assert_eq!(d.fraction(), &vec![6, 7]);
    assert_eq!(d.to_text(), "45.67");
    assert_eq!(d.clone(), d);
}

#[test]
fn lox_records_errors() {
    let mut lox = Lox::default();
    assert!(!lox.had_error);
    assert!(lox.reports().is_empty());
    lox.error(1204, invalid_decimal_message());
    assert!(lox.had_error);
    assert_eq!(lox.reports().len(), 1);
    assert_eq!(lox.reports()[0].line(), 1204);
    assert_eq!(lox.reports()[0].render(), "[line 1204] Error : Invalid decimal literal.");
    lox.error(0, "x".to_string());
    assert_eq!(lox.reports()[1].render(), "[line 0] Error : x");
    lox.error(10, String::new());
    assert_eq!(lox.reports()[2].render(), "[line 10] Error : ");
}

#[test]
fn operator_at_the_end_of_input_stands_alone() {
    assert_eq!(kinds("!"), vec![TokenType::Bang, TokenType::Eof]);
    assert_eq!(kinds("/"), vec![TokenType::Slash, TokenType::Eof]);
    assert_eq!(kinds("<"), vec![TokenType::Less, TokenType::Eof]);
    assert_eq!(kinds("1."), vec![number(&[1], &[]), TokenType::Dot, TokenType::Eof]);
    assert_eq!(kinds("//"), vec![TokenType::Eof]);
}

#[test]
fn two_slashes_in_a_row_are_a_comment_and_no_tokens() {
    let (tokens, _) = scan("+//");
    assert_eq!(tokens.len(), 2);
}

#[test]
fn reserved_word_texts() {
    let words = vec![
        (TokenType::And, "AND"),
        (TokenType::Class, "CLASS"),
        (TokenType::Else, "ELSE"),
        (TokenType::False, "FALSE"),
        (TokenType::Fun, "FUN"),
        (TokenType::For, "FOR"),
        (TokenType::If, "IF"),
        (TokenType::Nil, "NIL"),
        (TokenType::Or, "OR"),
        (TokenType::Print, "PRINT"),
        (TokenType::Return, "RETURN"),
        (TokenType::Super, "SUPER"),
        (TokenType::This, "THIS"),
        (TokenType::True, "TRUE"),
        (TokenType::Var, "VAR"),
        (TokenType::While, "WHILE"),
        (TokenType::Eof, "EOF"),
        (TokenType::Semicolon, ";"),
        (TokenType::GreaterEqual, ">="),
    ];
    for (kind, text) in words {
        assert_eq!(kind.to_text(), text);
    }
}

#[test]
fn default_scanner_scans_the_empty_text() {
    let mut scanner = Scanner::default();
    assert_eq!(scanner.line(), 1);
    assert_eq!(scanner.scan_tokens(), vec![Token::new(TokenType::Eof, String::new(), 1)]);
}
