use clox::scanner::{Scanner, ScannerError};
use clox::token::{Identifier, Literal, Operator, Token, TokenSubType, TokenType, UnaryOperator};

fn scan(source: &str) -> Result<Vec<Token<TokenType>>, Vec<ScannerError>> {
    Scanner::new(source).scan_tokens()
}

fn kinds(source: &str) -> Vec<TokenType> {
    scan(source).unwrap().into_iter().map(|t| t.token_type).collect()
}

fn number(text: &str) -> TokenType {
    TokenType::Literal(Literal::Number(text.to_string()))
}

fn ident(name: &str) -> TokenType {
    TokenType::Identifier(Identifier { name: name.to_string() })
}

#[test]
fn scans_a_declaration_with_positions() {
    let tokens = scan("var x = 1;").unwrap();
    let expected = vec![
        Token::new(TokenType::Var, 1, 0),
        Token::new(ident("x"), 1, 4),
        Token::new(TokenType::Equal, 1, 6),
        Token::new(number("1"), 1, 8),
        Token::new(TokenType::Semicolon, 1, 9),
        Token::new(TokenType::Eof, 1, 10),
    ];
    assert_eq!(tokens, expected);
}

#[test]
fn empty_source_is_just_end_of_file() {
    assert_eq!(scan("").unwrap(), vec![Token::new(TokenType::Eof, 1, 0)]);
}

#[test]
fn one_and_two_character_operators() {
    assert_eq!(
        kinds("! != = == < <= > >= / * - +"),
        vec![
            TokenType::Bang,
            TokenType::Operator(Operator::BangEqual),
            TokenType::Equal,
            TokenType::Operator(Operator::EqualEqual),
            TokenType::Operator(Operator::Less),
            TokenType::Operator(Operator::LessEqual),
            TokenType::Operator(Operator::Greater),
            TokenType::Operator(Operator::GreaterEqual),
            TokenType::Operator(Operator::Slash),
            TokenType::Operator(Operator::Star),
            TokenType::Operator(Operator::Minus),
            TokenType::Operator(Operator::Plus),
            TokenType::Eof,
        ]
    );
}

#[test]
fn punctuation() {
    assert_eq!(
        kinds("(){},.;"),
        vec![
            TokenType::LeftParenthesis,
            TokenType::RightParenthesis,
            TokenType::LeftBrace,
            TokenType::RightBrace,
            TokenType::Comma,
            TokenType::Dot,
            TokenType::Semicolon,
            TokenType::Eof,
        ]
    );
}

#[test]
fn comment_runs_to_end_of_line() {
    let tokens = scan("1 // two three\n2").unwrap();
    assert_eq!(tokens[0], Token::new(number("1"), 1, 0));
    assert_eq!(tokens[1], Token::new(number("2"), 2, 15));
    assert_eq!(tokens.len(), 3);
}

#[test]
fn slash_not_followed_by_slash_is_division() {
    assert_eq!(
        kinds("1 +/ 2"),
        vec![
            number("1"),
            TokenType::Operator(Operator::Plus),
            TokenType::Operator(Operator::Slash),
            number("2"),
            TokenType::Eof,
        ]
    );
}

#[test]
fn numbers_with_and_without_fraction() {
    assert_eq!(kinds("12.5"), vec![number("12.5"), TokenType::Eof]);
    assert_eq!(kinds("7"), vec![number("7"), TokenType::Eof]);
}

#[test]
fn trailing_dot_is_not_part_of_a_number() {
    assert_eq!(kinds("1."), vec![number("1"), TokenType::Dot, TokenType::Eof]);
    assert_eq!(kinds("1.x"), vec![number("1"), TokenType::Dot, ident("x"), TokenType::Eof]);
}

#[test]
fn string_spanning_lines() {
    let tokens = scan("\"a\nb\" x").unwrap();
    assert_eq!(
        tokens[0],
        Token::new(TokenType::Literal(Literal::Str("a\nb".to_string())), 1, 0)
    );
    assert_eq!(tokens[1], Token::new(ident("x"), 2, 6));
}

#[test]
fn keywords_and_identifiers() {
    assert_eq!(
        kinds("and class else false for fun if nil or print return super this true var while"),
        vec![
            TokenType::And,
            TokenType::Class,
            TokenType::Else,
            TokenType::Literal(Literal::False),
            TokenType::For,
            TokenType::Fun,
            TokenType::If,
            TokenType::Literal(Literal::Nil),
            TokenType::Or,
            TokenType::Print,
            TokenType::Return,
            TokenType::Super,
            TokenType::This,
            TokenType::Literal(Literal::True),
            TokenType::Var,
            TokenType::While,
            TokenType::Eof,
        ]
    );
    assert_eq!(
        kinds("_a1 variable printer"),
        vec![ident("_a1"), ident("variable"), ident("printer"), TokenType::Eof]
    );
}

#[test]
fn unknown_character_is_collected_and_scanning_continues() {
    assert_eq!(scan("1 + ` 2"), Err(vec![ScannerError::UnknownToken('`', 1, 4)]));
    assert_eq!(
        scan("@a\n#"),
        Err(vec![
            ScannerError::UnknownToken('@', 1, 0),
            ScannerError::UnknownToken('#', 2, 3),
        ])
    );
}

#[test]
fn unterminated_string_is_an_error() {
    assert_eq!(
        scan("1 \"abc"),
        Err(vec![ScannerError::UnterminatedString(1, 2)])
    );
    assert_eq!(
        scan("` \"abc"),
        Err(vec![
            ScannerError::UnknownToken('`', 1, 0),
            ScannerError::UnterminatedString(1, 2),
        ])
    );
}

#[test]
fn is_same_type_ignores_text_only() {
    assert!(number("1").is_same_type(&number("2")));
    assert!(ident("a").is_same_type(&ident("b")));
    assert!(!number("1").is_same_type(&TokenType::Literal(Literal::Str("1".to_string()))));
    assert!(!TokenType::Operator(Operator::Plus).is_same_type(&TokenType::Operator(Operator::Minus)));
}

#[test]
fn offsets_count_bytes() {
    let tokens = scan("\"é\" x").unwrap();
    assert_eq!(
        tokens[0],
        Token::new(TokenType::Literal(Literal::Str("é".to_string())), 1, 0)
    );
    assert_eq!(tokens[1], Token::new(ident("x"), 1, 5));
    assert_eq!(tokens[2], Token::new(TokenType::Eof, 1, 6));
    assert_eq!(scan("a é b"), Err(vec![ScannerError::UnknownToken('é', 1, 2)]));
}

#[test]
fn token_sub_types() {
    let star = Token::new(TokenType::Operator(Operator::Star), 2, 5);
    assert_eq!(
        star.clone().to_token_sub_type(&Operator::Plus),
        Some(Token::new(Operator::Star, 2, 5))
    );
    assert_eq!(star.to_token_sub_type(&Literal::Nil), None);
    assert_eq!(
        Literal::from_token_type(&number("4")),
        Some(Literal::Number("4".to_string()))
    );
    assert_eq!(Identifier::from_token_type(&TokenType::Dot), None);
    assert!(UnaryOperator::from_token_type(&TokenType::Bang).is_some());
    assert_eq!(
        UnaryOperator::from_token_type(&TokenType::Operator(Operator::Plus)),
        None
    );
    let t: Token<TokenType> = Token::new(Literal::True, 1, 0).into();
    assert_eq!(t, Token::new(TokenType::Literal(Literal::True), 1, 0));
}
