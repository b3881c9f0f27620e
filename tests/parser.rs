use clox::ast::{Decl, Expression, Stmt};
use clox::ast_printer::ASTPrinter;
use clox::parser::{Parser, ParserError};
use clox::scanner::Scanner;
use clox::token::{Identifier, Literal, Token, TokenType};

fn parse(source: &str) -> (Vec<Decl>, Vec<ParserError>) {
    let tokens = Scanner::new(source).scan_tokens().unwrap();
    Parser::new(tokens).parse()
}

fn expression_of(source: &str) -> String {
    let (decls, errors) = parse(source);
    assert!(errors.is_empty());
    assert_eq!(decls.len(), 1);
    match &decls[0] {
        Decl::Statement(Stmt::Expression(e)) => ASTPrinter::new().print(e),
        _ => panic!("not an expression statement"),
    }
}

fn found_of(e: &ParserError) -> &Token<TokenType> {
    match e {
        ParserError::UnexpectedToken { found, .. } => found,
    }
}

fn expected_of(e: &ParserError) -> &Vec<TokenType> {
    match e {
        ParserError::UnexpectedToken { expected, .. } => expected,
    }
}

#[test]
fn multiplication_binds_tighter_than_addition() {
    assert_eq!(
        expression_of("1 + 2 * 3;"),
        "(Plus Number(1) (Star Number(2) Number(3)))"
    );
    assert_eq!(
        expression_of("1 * 2 + 3;"),
        "(Plus (Star Number(1) Number(2)) Number(3))"
    );
    assert_eq!(
        expression_of("1 + (2 * 3);"),
        "(Plus Number(1) (group (Star Number(2) Number(3))))"
    );
    assert_eq!(
        expression_of("(1 + 2) * 3;"),
        "(Star (group (Plus Number(1) Number(2))) Number(3))"
    );
}

#[test]
fn binary_operators_associate_to_the_left() {
    assert_eq!(
        expression_of("1 - 2 - 3;"),
        "(Minus (Minus Number(1) Number(2)) Number(3))"
    );
    assert_eq!(
        expression_of("8 / 4 / 2;"),
        "(Slash (Slash Number(8) Number(4)) Number(2))"
    );
}

#[test]
fn precedence_levels_from_equality_to_unary() {
    assert_eq!(
        expression_of("1 < 2 == !true;"),
        "(EqualEqual (Less Number(1) Number(2)) (Bang(Bang) True))"
    );
    assert_eq!(
        expression_of("-a * b >= c - d != nil;"),
        "(BangEqual (GreaterEqual (Star (Minus(Minus) Identifier { name: \"a\" }) \
         Identifier { name: \"b\" }) (Minus Identifier { name: \"c\" } \
         Identifier { name: \"d\" })) Nil)"
    );
    assert_eq!(expression_of("--\"s\";"), "(Minus(Minus) (Minus(Minus) Str(\"s\")))");
    assert_eq!(expression_of("false <= 1.5;"), "(LessEqual False Number(1.5))");
}

#[test]
fn print_and_var_declarations() {
    let (decls, errors) = parse("var a; var b = 2; print b;");
    assert!(errors.is_empty());
    assert_eq!(decls.len(), 3);
    match &decls[0] {
        Decl::Var { name, initializer } => {
            assert_eq!(name.token_type, Identifier { name: "a".to_string() });
            assert_eq!(name.start_index_in_source, 4);
            assert_eq!(*initializer, Expression::Literal(Literal::Nil));
        }
        _ => panic!("not a declaration"),
    }
    match &decls[1] {
        Decl::Var { initializer, .. } => {
            assert_eq!(*initializer, Expression::Literal(Literal::Number("2".to_string())));
        }
        _ => panic!("not a declaration"),
    }
    assert!(matches!(&decls[2], Decl::Statement(Stmt::Print(_))));
}

#[test]
fn missing_semicolon_reports_the_token_found() {
    let (decls, errors) = parse("print 1");
    assert!(decls.is_empty());
    assert_eq!(errors.len(), 1);
    assert_eq!(*expected_of(&errors[0]), vec![TokenType::Semicolon]);
    assert_eq!(*found_of(&errors[0]), Token::new(TokenType::Eof, 1, 7));
}

#[test]
fn missing_closing_parenthesis() {
    let (_, errors) = parse("(1;");
    assert_eq!(errors.len(), 1);
    assert_eq!(*expected_of(&errors[0]), vec![TokenType::RightParenthesis]);
    assert_eq!(*found_of(&errors[0]), Token::new(TokenType::Semicolon, 1, 2));
}

#[test]
fn missing_operand_lists_what_may_start_an_expression() {
    let (_, errors) = parse("1 + ;");
    assert_eq!(errors.len(), 1);
    assert_eq!(expected_of(&errors[0]).len(), 7);
    assert!(expected_of(&errors[0]).contains(&TokenType::LeftParenthesis));
    assert_eq!(*found_of(&errors[0]), Token::new(TokenType::Semicolon, 1, 4));
}

#[test]
fn var_without_name() {
    let (_, errors) = parse("var = 1;");
    assert_eq!(errors.len(), 1);
    assert_eq!(
        *expected_of(&errors[0]),
        vec![TokenType::Identifier(Identifier { name: String::new() })]
    );
    assert_eq!(*found_of(&errors[0]), Token::new(TokenType::Equal, 1, 4));
}

#[test]
fn two_malformed_statements_give_two_errors() {
    let (decls, errors) = parse("print ); print );");
    assert!(decls.is_empty());
    assert_eq!(errors.len(), 2);
    assert_eq!(found_of(&errors[0]).start_index_in_source, 6);
    assert_eq!(found_of(&errors[1]).start_index_in_source, 15);

    let (decls, errors) = parse("var = 1 2 3; 1 + + 2; print 3;");
    assert_eq!(errors.len(), 2);
    assert_eq!(decls.len(), 1);
}

#[test]
fn recovery_stops_before_a_keyword() {
    let (decls, errors) = parse("1 + ) var x = 2; print x;");
    assert_eq!(errors.len(), 1);
    assert_eq!(decls.len(), 2);
}

#[test]
fn printed_strings_escape_like_debug() {
    assert_eq!(expression_of("\"a\\b\tc\nd\";"), format!("Str({:?})", "a\\b\tc\nd"));
}
