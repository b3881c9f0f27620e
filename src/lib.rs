//! A scanner, parser and tree-walking evaluator for a small Lox-like
//! scripting language.
//!
//! Numbers of the language are single-precision floats. The library never
//! computes with them itself: a number is kept as the decimal literals and
//! operators that produce it (see [`value::Number`]), and every decision
//! the evaluator takes (kinds, type errors, truthiness, equality across kinds,
//! strings, variables) is made and verified here. The host folds those
//! expressions with its floating-point unit when it prints a value.

pub mod ast;
pub mod ast_printer;
pub mod environment;
pub mod error;
pub mod interpreter;
pub mod parser;
pub mod scanner;
pub mod token;
pub mod value;

use vstd::prelude::*;
use crate::ast::{Decl, Expression, Stmt};
use crate::interpreter::{execution_matches, run_program, Execution, Interpreter, Run};
use crate::parser::{
    binary, binary_tail, declaration, errors_match, expression, primary, program, terminated,
    unary, ParseErrorView, Parser, ParserError, Program,
};
use crate::scanner::{
    is_number_literal, lemma_scan_number_statement, scanned_errors, scanned_tokens, token_view,
    tokens_view, utf8_len, Scanner, ScannerError,
};
use crate::token::{Token, TokenType};

verus! {

/// What a run of a source text did.
#[derive(Debug, PartialEq)]
pub enum RunOutcome {
    /// The text holds lexical errors: all of them, in order. Nothing was
    /// parsed or run.
    ScanFailed(Vec<ScannerError>),
    /// The text was scanned: its syntax errors, in order, and what running
    /// the declarations that parsed did.
    Ran(Vec<ParserError>, Execution),
}

/// Whether an outcome is what the language gives for a text whose tokens are
/// `ts`.
pub open spec fn ran_on(ts: Seq<Token<TokenType>>, errors: Seq<ParserError>, x: Execution) -> bool {
    &&& errors_match(errors, program(ts, 0).errors, ts)
    &&& execution_matches(x, run_program(program(ts, 0).decls))
}

/// Scans, parses and runs a source text. Lexical errors stop it before
/// parsing; syntax errors are collected and the declarations that parsed are
/// run, up to the first runtime error.
pub fn run(source: &str) -> (r: RunOutcome)
    requires
        utf8_len(source@) < usize::MAX,
    ensures
        match r {
            RunOutcome::ScanFailed(errors) => scanned_errors(source@).len() > 0 && errors@
                == scanned_errors(source@),
            RunOutcome::Ran(errors, x) => scanned_errors(source@).len() == 0 && exists|
                ts: Seq<Token<TokenType>>,
            |
                #[trigger] tokens_view(ts) == scanned_tokens(source@) && ran_on(ts, errors@, x),
        },
{
    let scanner = Scanner::new(source);
    let tokens = match scanner.scan_tokens() {
        Ok(tokens) => tokens,
        Err(errors) => {
            return RunOutcome::ScanFailed(errors);
        },
    };
    let ghost ts = tokens@;
    assert(tokens_view(ts).last() == token_view(ts.last()));
    let mut parser = Parser::new(tokens);
    let (declarations, errors) = parser.parse();
    let interpreter = Interpreter::new();
    let x = interpreter.interpret(&declarations);
    assert(ran_on(ts, errors@, x));
    RunOutcome::Ran(errors, x)
}

/// A numeric literal alone as a statement is a no-op: `n;` scans and parses
/// without error, and running it prints nothing and fails nothing.
pub proof fn lemma_number_alone_is_silent(n: Seq<char>, ts: Seq<Token<TokenType>>)
    requires
        is_number_literal(n),
        tokens_view(ts) == scanned_tokens(n.push(';')),
    ensures
        scanned_errors(n.push(';')).len() == 0,
        program(ts, 0).errors.len() == 0,
        run_program(program(ts, 0).decls) == (Run { printed: seq![], error: None }),
{
    lemma_scan_number_statement(n);
    assert(tokens_view(ts).len() == ts.len());
    assert(scanned_tokens(n.push(';')).len() == 3);
    assert(ts.len() == 3);
    assert(tokens_view(ts)[0] == token_view(ts[0]));
    assert(tokens_view(ts)[1] == token_view(ts[1]));
    assert(tokens_view(ts)[2] == token_view(ts[2]));
    assert(ts[0].token_type is Literal);
    assert(ts[1].token_type is Semicolon);
    assert(ts[2].token_type is Eof);
    let lit = Expression::Literal(ts[0].token_type->Literal_0);
    assert(primary(ts, 0) == Ok::<(Expression, int), ParseErrorView>((lit, 1)));
    assert(unary(ts, 0) == Ok::<(Expression, int), ParseErrorView>((lit, 1)));
    assert(binary_tail(ts, 1, lit, 0) == Ok::<(Expression, int), ParseErrorView>((lit, 1)));
    assert(binary(ts, 0, 0) == Ok::<(Expression, int), ParseErrorView>((lit, 1)));
    assert(binary_tail(ts, 1, lit, 1) == Ok::<(Expression, int), ParseErrorView>((lit, 1)));
    assert(binary(ts, 0, 1) == Ok::<(Expression, int), ParseErrorView>((lit, 1)));
    assert(binary_tail(ts, 1, lit, 2) == Ok::<(Expression, int), ParseErrorView>((lit, 1)));
    assert(binary(ts, 0, 2) == Ok::<(Expression, int), ParseErrorView>((lit, 1)));
    assert(binary_tail(ts, 1, lit, 3) == Ok::<(Expression, int), ParseErrorView>((lit, 1)));
    assert(expression(ts, 0) == Ok::<(Expression, int), ParseErrorView>((lit, 1)));
    assert(terminated(ts, 0) == Ok::<(Expression, int), ParseErrorView>((lit, 2)));
    let d = Decl::Statement(Stmt::Expression(lit));
    assert(declaration(ts, 0) == Ok::<(Decl, int), ParseErrorView>((d, 2)));
    assert(program(ts, 2) == Program { decls: seq![], errors: seq![] });
    assert(program(ts, 0).decls =~= seq![d]);
    assert(program(ts, 0).errors =~= seq![]);
    assert(crate::interpreter::run_from(seq![d], 1, seq![]) == Run { printed: seq![], error: None });
}

} // verus!
