use clox::environment::Environment;
use clox::interpreter::{Execution, Interpreter, RuntimeError};
use clox::token::{Operator, Token, TokenType, UnaryOperator, Minus};
use clox::value::{Arithmetic, Comparison, LoxObject, Number, Truth};
use clox::{run, RunOutcome};

fn number(n: &Number) -> f32 {
    match n {
        Number::Literal(text) => text.parse::<f32>().unwrap(),
        Number::Negate(x) => -number(x),
        Number::Arithmetic(l, op, r) => {
            let (a, b) = (number(l), number(r));
            match op {
                Arithmetic::Add => a + b,
                Arithmetic::Subtract => a - b,
                Arithmetic::Multiply => a * b,
                Arithmetic::Divide => a / b,
            }
        }
    }
}

fn truth(t: &Truth) -> bool {
    match t {
        Truth::Known(b) => *b,
        Truth::Not(x) => !truth(x),
        Truth::Compare(l, op, r) => {
            let (a, b) = (number(l), number(r));
            match op {
                Comparison::Greater => a > b,
                Comparison::GreaterEqual => a >= b,
                Comparison::Less => a < b,
                Comparison::LessEqual => a <= b,
            }
        }
        Truth::NumbersEqual(l, r) => number(l) == number(r),
        Truth::TruthsEqual(l, r) => truth(l) == truth(r),
    }
}

fn show(v: &LoxObject) -> String {
    match Interpreter::new().stringify(v) {
        Some(text) => text,
        None => match v {
            LoxObject::Number(n) => number(n).to_string(),
            LoxObject::Boolean(t) => truth(t).to_string(),
            _ => unreachable!(),
        },
    }
}

fn execute(source: &str) -> Execution {
    match run(source) {
        RunOutcome::Ran(errors, x) => {
            assert!(errors.is_empty());
            x
        }
        RunOutcome::ScanFailed(_) => panic!("scan failed"),
    }
}

fn output(source: &str) -> Vec<String> {
    let x = execute(source);
    assert!(x.error.is_none());
    x.printed.iter().map(show).collect()
}

fn error_of(source: &str) -> RuntimeError {
    execute(source).error.unwrap()
}

#[test]
fn number_literal_statement_is_silent() {
    for source in ["1;", "2.5;", "0;", "1; 2; 3;"] {
        let x = execute(source);
        assert!(x.printed.is_empty());
        assert!(x.error.is_none());
    }
}

#[test]
fn addition_and_concatenation() {
    assert_eq!(output("print 1 + 2;"), vec!["3"]);
    assert_eq!(output("print \"a\" + \"b\";"), vec!["ab"]);
}

#[test]
fn mixed_plus_is_a_type_error() {
    assert_eq!(
        error_of("print \"a\" + 1;"),
        RuntimeError::TypeError(
            "Operands to Plus need to be both numbers or both strings.".to_string(),
            Token::new(TokenType::Operator(Operator::Plus), 1, 10),
        )
    );
}

#[test]
fn equality_across_kinds_is_false() {
    assert_eq!(output("print 1 == \"1\";"), vec!["false"]);
    assert_eq!(output("print nil != false;"), vec!["true"]);
    assert_eq!(output("print \"a\" == \"a\";"), vec!["true"]);
    assert_eq!(output("print nil == nil;"), vec!["true"]);
    assert_eq!(output("print 1 == 1.0;"), vec!["true"]);
    assert_eq!(output("print (1 < 2) == true;"), vec!["true"]);
}

#[test]
fn truthiness_of_nil_and_zero() {
    assert_eq!(output("print !nil;"), vec!["true"]);
    assert_eq!(output("print !0;"), vec!["false"]);
    assert_eq!(output("print !\"\";"), vec!["false"]);
    assert_eq!(output("print !!false;"), vec!["false"]);
}

#[test]
fn variables_and_undefined_names() {
    assert_eq!(output("var x = 1; print x + 1;"), vec!["2"]);
    assert_eq!(
        error_of("print y;"),
        RuntimeError::UndefinedVariable("y".to_string())
    );
    assert_eq!(output("var a; print a;"), vec!["nil"]);
    assert_eq!(output("var a = 1; var a = \"s\"; print a;"), vec!["s"]);
}

#[test]
fn arithmetic_and_comparison() {
    assert_eq!(output("print 1 + 2 * 3;"), vec!["7"]);
    assert_eq!(output("print (1 + 2) * 3;"), vec!["9"]);
    assert_eq!(output("print 10 - 4 - 3;"), vec!["3"]);
    assert_eq!(output("print 7 / 2;"), vec!["3.5"]);
    assert_eq!(output("print -3 * -2;"), vec!["6"]);
    assert_eq!(output("print 2 > 1; print 2 <= 1;"), vec!["true", "false"]);
    assert_eq!(output("print 1 / 0;"), vec!["inf"]);
}

#[test]
fn type_errors_of_numeric_operators() {
    assert_eq!(
        error_of("print -\"a\";"),
        RuntimeError::TypeError(
            "Operand must be a number.".to_string(),
            Token::new(TokenType::Operator(Operator::Minus), 1, 6),
        )
    );
    assert_eq!(
        error_of("print \"a\" < \"b\";"),
        RuntimeError::TypeError(
            "Operands to Less need to be numbers.".to_string(),
            Token::new(TokenType::Operator(Operator::Less), 1, 10),
        )
    );
    assert_eq!(
        error_of("print true * 2;"),
        RuntimeError::TypeError(
            "Operands to Star need to be numbers.".to_string(),
            Token::new(TokenType::Operator(Operator::Star), 1, 11),
        )
    );
}

#[test]
fn runtime_error_stops_the_run() {
    let x = execute("print 1; print -\"a\"; print 2;");
    assert_eq!(x.printed.iter().map(show).collect::<Vec<_>>(), vec!["1"]);
    assert!(matches!(x.error, Some(RuntimeError::TypeError(_, _))));
}

#[test]
fn left_operand_is_evaluated_first() {
    assert_eq!(
        error_of("print y + z;"),
        RuntimeError::UndefinedVariable("y".to_string())
    );
}

#[test]
fn declarations_that_parsed_still_run() {
    match run("print 1; print ); print 2;") {
        RunOutcome::Ran(errors, x) => {
            assert_eq!(errors.len(), 1);
            assert_eq!(x.printed.iter().map(show).collect::<Vec<_>>(), vec!["1", "2"]);
        }
        RunOutcome::ScanFailed(_) => panic!("scan failed"),
    }
}

#[test]
fn lexical_errors_stop_before_parsing() {
    assert!(matches!(run("print 1; `"), RunOutcome::ScanFailed(e) if e.len() == 1));
}

#[test]
fn environment_define_and_get() {
    let mut env = Environment::new();
    assert_eq!(
        env.get("a"),
        Err(RuntimeError::UndefinedVariable("a".to_string()))
    );
    env.define("a", LoxObject::Nil);
    env.define("a", LoxObject::Str("v".to_string()));
    assert_eq!(env.get("a"), Ok(LoxObject::Str("v".to_string())));
}

#[test]
fn unary_token_converts_to_its_token_type() {
    let t: Token<TokenType> = Token::new(UnaryOperator::Minus(Minus {}), 3, 4).into();
    assert_eq!(t, Token::new(TokenType::Operator(Operator::Minus), 3, 4));
}
