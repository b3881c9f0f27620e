//! The recursive-descent parser: tokens to declarations, with one error
//! reported per malformed declaration and panic-mode recovery after it.
//!
//! The grammar, from lowest to highest precedence:
//!
//! ```text
//! declaration → "var" IDENTIFIER ( "=" expression )? ";" | statement
//! statement   → "print" expression ";" | expression ";"
//! expression  → equality
//! equality    → comparison ( ( "!=" | "==" ) comparison )*
//! comparison  → term ( ( ">" | ">=" | "<" | "<=" ) term )*
//! term        → factor ( ( "-" | "+" ) factor )*
//! factor      → unary ( ( "/" | "*" ) unary )*
//! unary       → ( "!" | "-" ) unary | primary
//! primary     → NUMBER | STRING | "true" | "false" | "nil" | IDENTIFIER
//!             | "(" expression ")"
//! ```

use vstd::prelude::*;
use crate::ast::{Decl, Expression, Stmt};
use crate::token::{
    kind, unary_of, Identifier, Literal, Operator, Token, TokenSubType, TokenType, TokenTypeView,
    UnaryOperator,
};

verus! {

/// A syntax error: the token kinds that would have been accepted, and the
/// token found instead.
#[derive(Debug, Clone, PartialEq)]
pub enum ParserError {
    UnexpectedToken { expected: Vec<TokenType>, found: Token<TokenType> },
}

/// A syntax error as the grammar describes it: the kinds expected, and the
/// position of the token found instead.
pub struct ParseErrorView {
    pub expected: Seq<TokenTypeView>,
    pub at: int,
}

/// Whether a token sequence can be parsed: it is not empty and ends with an
/// end-of-file token.
pub open spec fn well_formed_tokens(ts: Seq<Token<TokenType>>) -> bool {
    ts.len() > 0 && ts.last().token_type is Eof
}

/// Whether the only end-of-file token of a sequence is its last, as in what
/// the scanner produces.
pub open spec fn single_end(ts: Seq<Token<TokenType>>) -> bool {
    forall|p: int| 0 <= p < ts.len() - 1 ==> !(#[trigger] ts[p].token_type is Eof)
}

pub open spec fn is_end(ts: Seq<Token<TokenType>>, i: int) -> bool {
    ts[i].token_type is Eof
}

/// Whether the token at `i` is of the kind of `k` (and not the end).
pub open spec fn check(ts: Seq<Token<TokenType>>, i: int, k: TokenTypeView) -> bool {
    0 <= i < ts.len() && !is_end(ts, i) && kind(ts[i].token_type@) == kind(k)
}

pub open spec fn error_at(expected: Seq<TokenTypeView>, at: int) -> ParseErrorView {
    ParseErrorView { expected, at }
}

/// Whether `op` belongs to a level of binary operators: 3 for equality, 2 for
/// comparison, 1 for terms and 0 for factors.
pub open spec fn level_operator(op: Operator, level: int) -> bool {
    if level >= 3 {
        op is EqualEqual || op is BangEqual
    } else if level == 2 {
        op is Greater || op is GreaterEqual || op is Less || op is LessEqual
    } else if level == 1 {
        op is Minus || op is Plus
    } else {
        op is Star || op is Slash
    }
}

/// The binary operator of the given level at `i`, if there is one.
pub open spec fn operator_at(ts: Seq<Token<TokenType>>, i: int, level: int) -> Option<Operator> {
    if 0 <= i < ts.len() {
        match ts[i].token_type {
            TokenType::Operator(op) => if level_operator(op, level) {
                Some(op)
            } else {
                None
            },
            _ => None,
        }
    } else {
        None
    }
}

/// The kinds that may start a primary expression.
pub open spec fn primary_expected() -> Seq<TokenTypeView> {
    seq![
        TokenTypeView::False,
        TokenTypeView::True,
        TokenTypeView::Nil,
        TokenTypeView::Number(Seq::empty()),
        TokenTypeView::Str(Seq::empty()),
        TokenTypeView::Identifier(Seq::empty()),
        TokenTypeView::LeftParenthesis,
    ]
}

/// An expression parsed from position `i`, with the position after it.
pub open spec fn expression(ts: Seq<Token<TokenType>>, i: int) -> Result<
    (Expression, int),
    ParseErrorView,
>
    decreases ts.len() - i, 10int,
{
    binary(ts, i, 3)
}

/// The operands of binary operators of a level: unary expressions for
/// factors, else expressions of the level above.
pub open spec fn binary(ts: Seq<Token<TokenType>>, i: int, level: int) -> Result<
    (Expression, int),
    ParseErrorView,
>
    decreases ts.len() - i, 2 * level + 3,
{
    if !(0 <= level <= 3) {
        Err(error_at(Seq::empty(), i))
    } else {
        let first = if level == 0 {
            unary(ts, i)
        } else {
            binary(ts, i, level - 1)
        };
        match first {
            Ok((e, j)) => if i < j < ts.len() {
                binary_tail(ts, j, e, level)
            } else {
                Ok((e, j))
            },
            Err(x) => Err(x),
        }
    }
}

/// The rest of a chain of binary operators of a level, folded to the left
/// onto `left`.
pub open spec fn binary_tail(
    ts: Seq<Token<TokenType>>,
    j: int,
    left: Expression,
    level: int,
) -> Result<(Expression, int), ParseErrorView>
    decreases ts.len() - j, 2 * level + 2,
{
    if !(0 <= level <= 3) || !(0 <= j < ts.len()) {
        Ok((left, j))
    } else {
        match operator_at(ts, j, level) {
            Some(op) => {
                let right = if level == 0 {
                    unary(ts, j + 1)
                } else {
                    binary(ts, j + 1, level - 1)
                };
                match right {
                    Ok((r, k)) => if j < k < ts.len() {
                        binary_tail(
                            ts,
                            k,
                            Expression::Binary {
                                left: Box::new(left),
                                operator: Token {
                                    token_type: op,
                                    line: ts[j].line,
                                    start_index_in_source: ts[j].start_index_in_source,
                                },
                                right: Box::new(r),
                            },
                            level,
                        )
                    } else {
                        Ok((left, j))
                    },
                    Err(x) => Err(x),
                }
            },
            None => Ok((left, j)),
        }
    }
}

/// A unary expression parsed from position `i`.
pub open spec fn unary(ts: Seq<Token<TokenType>>, i: int) -> Result<
    (Expression, int),
    ParseErrorView,
>
    decreases ts.len() - i, 1int,
{
    if 0 <= i < ts.len() && unary_of(ts[i].token_type) is Some {
        match unary(ts, i + 1) {
            Ok((r, j)) => Ok(
                (
                    Expression::Unary {
                        operator: Token {
                            token_type: unary_of(ts[i].token_type)->0,
                            line: ts[i].line,
                            start_index_in_source: ts[i].start_index_in_source,
                        },
                        right: Box::new(r),
                    },
                    j,
                ),
            ),
            Err(x) => Err(x),
        }
    } else {
        primary(ts, i)
    }
}

/// A primary expression parsed from position `i`.
pub open spec fn primary(ts: Seq<Token<TokenType>>, i: int) -> Result<
    (Expression, int),
    ParseErrorView,
>
    decreases ts.len() - i, 0int,
{
    if !(0 <= i < ts.len()) {
        Err(error_at(primary_expected(), i))
    } else {
        match ts[i].token_type {
            TokenType::Literal(l) => Ok((Expression::Literal(l), i + 1)),
            TokenType::Identifier(id) => Ok((Expression::Identifier(id), i + 1)),
            TokenType::LeftParenthesis => match expression(ts, i + 1) {
                Ok((e, j)) => if check(ts, j, TokenTypeView::RightParenthesis) {
                    Ok((Expression::Grouping(Box::new(e)), j + 1))
                } else {
                    Err(error_at(seq![TokenTypeView::RightParenthesis], j))
                },
                Err(x) => Err(x),
            },
            _ => Err(error_at(primary_expected(), i)),
        }
    }
}

/// The position after a required token of kind `k` at `j`.
pub open spec fn consume_at(ts: Seq<Token<TokenType>>, j: int, k: TokenTypeView) -> Result<
    int,
    ParseErrorView,
> {
    if check(ts, j, k) {
        Ok(j + 1)
    } else {
        Err(error_at(seq![k], j))
    }
}

/// An expression at `i` followed by a semicolon.
pub open spec fn terminated(ts: Seq<Token<TokenType>>, i: int) -> Result<
    (Expression, int),
    ParseErrorView,
> {
    match expression(ts, i) {
        Ok((e, j)) => match consume_at(ts, j, TokenTypeView::Semicolon) {
            Ok(k) => Ok((e, k)),
            Err(x) => Err(x),
        },
        Err(x) => Err(x),
    }
}

/// A statement parsed from position `i`.
pub open spec fn statement(ts: Seq<Token<TokenType>>, i: int) -> Result<
    (Stmt, int),
    ParseErrorView,
> {
    if check(ts, i, TokenTypeView::Print) {
        match terminated(ts, i + 1) {
            Ok((e, k)) => Ok((Stmt::Print(e), k)),
            Err(x) => Err(x),
        }
    } else {
        match terminated(ts, i) {
            Ok((e, k)) => Ok((Stmt::Expression(e), k)),
            Err(x) => Err(x),
        }
    }
}

/// A variable declaration whose `var` stands just before `i`.
pub open spec fn var_declaration(ts: Seq<Token<TokenType>>, i: int) -> Result<
    (Decl, int),
    ParseErrorView,
> {
    if check(ts, i, TokenTypeView::Identifier(Seq::empty())) {
        let name = Token {
            token_type: ts[i].token_type->Identifier_0,
            line: ts[i].line,
            start_index_in_source: ts[i].start_index_in_source,
        };
        if check(ts, i + 1, TokenTypeView::Equal) {
            match terminated(ts, i + 2) {
                Ok((e, k)) => Ok((Decl::Var { name, initializer: e }, k)),
                Err(x) => Err(x),
            }
        } else {
            match consume_at(ts, i + 1, TokenTypeView::Semicolon) {
                Ok(k) => Ok((Decl::Var { name, initializer: Expression::Literal(Literal::Nil) }, k)),
                Err(x) => Err(x),
            }
        }
    } else {
        Err(error_at(seq![TokenTypeView::Identifier(Seq::empty())], i))
    }
}

/// A declaration parsed from position `i`.
pub open spec fn declaration(ts: Seq<Token<TokenType>>, i: int) -> Result<
    (Decl, int),
    ParseErrorView,
> {
    if check(ts, i, TokenTypeView::Var) {
        var_declaration(ts, i + 1)
    } else {
        match statement(ts, i) {
            Ok((s, k)) => Ok((Decl::Statement(s), k)),
            Err(x) => Err(x),
        }
    }
}

/// Whether a token starts a declaration or statement, where recovery after an
/// error stops.
pub open spec fn starts_declaration(t: TokenType) -> bool {
    t is Class || t is Fun || t is Var || t is For || t is If || t is While || t is Print
        || t is Return
}

/// Where recovery that has reached `j` stops: at the end, after a semicolon,
/// or before a token that starts a declaration.
pub open spec fn sync_from(ts: Seq<Token<TokenType>>, j: int) -> int
    decreases ts.len() - j,
{
    if !(1 <= j < ts.len()) || is_end(ts, j) || ts[j - 1].token_type is Semicolon
        || starts_declaration(ts[j].token_type) {
        j
    } else {
        sync_from(ts, j + 1)
    }
}

/// Where parsing resumes after an error at `i`: the erroneous token is
/// skipped, then tokens up to a statement boundary.
pub open spec fn synchronize(ts: Seq<Token<TokenType>>, i: int) -> int {
    sync_from(ts, if is_end(ts, i) { i } else { i + 1 })
}

/// The declarations of a program and its syntax errors, in order.
pub struct Program {
    pub decls: Seq<Decl>,
    pub errors: Seq<ParseErrorView>,
}

/// The program parsed from position `i` to the end.
pub open spec fn program(ts: Seq<Token<TokenType>>, i: int) -> Program
    decreases ts.len() - i,
{
    if !(0 <= i < ts.len()) || is_end(ts, i) {
        Program { decls: seq![], errors: seq![] }
    } else {
        match declaration(ts, i) {
            Ok((d, j)) => if i < j < ts.len() {
                let rest = program(ts, j);
                Program { decls: seq![d] + rest.decls, errors: rest.errors }
            } else {
                Program { decls: seq![], errors: seq![] }
            },
            Err(x) => {
                let k: int = synchronize(ts, x.at);
                if i < k < ts.len() {
                    let rest = program(ts, k);
                    Program { decls: rest.decls, errors: seq![x] + rest.errors }
                } else {
                    Program { decls: seq![], errors: seq![] }
                }
            },
        }
    }
}

/// Whether a syntax error is the one the grammar describes.
pub open spec fn error_matches(e: ParserError, x: ParseErrorView, ts: Seq<Token<TokenType>>) -> bool {
    match e {
        ParserError::UnexpectedToken { expected, found } => {
            &&& expected@.map_values(|t: TokenType| t@) == x.expected
            &&& 0 <= x.at < ts.len()
            &&& found == ts[x.at]
        },
    }
}

/// Whether syntax errors are, one for one, those the grammar describes.
pub open spec fn errors_match(
    es: Seq<ParserError>,
    xs: Seq<ParseErrorView>,
    ts: Seq<Token<TokenType>>,
) -> bool {
    es.len() == xs.len() && forall|k: int| 0 <= k < es.len() ==> error_matches(es[k], xs[k], ts)
}

/// Whether a result of parsing from `start`, which left the parser at `pos`,
/// is what the grammar gives: the same value with `pos` after it, or the same
/// error with `pos` at the offending token.
pub open spec fn agrees<T>(
    r: Result<T, ParserError>,
    g: Result<(T, int), ParseErrorView>,
    ts: Seq<Token<TokenType>>,
    start: int,
    pos: int,
) -> bool {
    match g {
        Ok((v, j)) => r is Ok && r->Ok_0 == v && pos == j && start < j < ts.len(),
        Err(x) => r is Err && error_matches(r->Err_0, x, ts) && pos == x.at && start <= x.at,
    }
}

fn level_operator_exec(op: Operator, level: u8) -> (r: bool)
    ensures
        r == level_operator(op, level as int),
{
    if level >= 3 {
        op == Operator::EqualEqual || op == Operator::BangEqual
    } else if level == 2 {
        op == Operator::Greater || op == Operator::GreaterEqual || op == Operator::Less || op
            == Operator::LessEqual
    } else if level == 1 {
        op == Operator::Minus || op == Operator::Plus
    } else {
        op == Operator::Star || op == Operator::Slash
    }
}

fn starts_declaration_exec(t: &TokenType) -> (r: bool)
    ensures
        r == starts_declaration(*t),
{
    match t {
        TokenType::Class | TokenType::Fun | TokenType::Var | TokenType::For | TokenType::If
        | TokenType::While | TokenType::Print | TokenType::Return => true,
        _ => false,
    }
}

fn primary_expected_exec() -> (r: Vec<TokenType>)
    ensures
        r@.map_values(|t: TokenType| t@) == primary_expected(),
{
    let r = vec![
        TokenType::Literal(Literal::False),
        TokenType::Literal(Literal::True),
        TokenType::Literal(Literal::Nil),
        TokenType::Literal(Literal::Number(String::new())),
        TokenType::Literal(Literal::Str(String::new())),
        TokenType::Identifier(Identifier { name: String::new() }),
        TokenType::LeftParenthesis,
    ];
    assert(r@.map_values(|t: TokenType| t@) =~= primary_expected());
    r
}

/// The expression that a literal token is.
pub open spec fn literal_expression(t: Token<TokenType>) -> Expression {
    Expression::Literal(t.token_type->Literal_0)
}

/// The operator token that a token is.
pub open spec fn operator_of(t: Token<TokenType>) -> Token<Operator> {
    Token {
        token_type: t.token_type->Operator_0,
        line: t.line,
        start_index_in_source: t.start_index_in_source,
    }
}

/// Whether a token is a binary operator of a level.
pub open spec fn is_operator_of_level(t: Token<TokenType>, level: int) -> bool {
    t.token_type is Operator && level_operator(t.token_type->Operator_0, level)
}

/// Multiplication and division bind tighter than addition and subtraction:
/// `a + b * c ;`, for any literals and any operators of those two levels,
/// parses as one statement whose expression is `a + (b * c)`.
pub proof fn lemma_factor_binds_tighter_than_term(ts: Seq<Token<TokenType>>)
    requires
        ts.len() == 7,
        ts[0].token_type is Literal,
        is_operator_of_level(ts[1], 1),
        ts[2].token_type is Literal,
        is_operator_of_level(ts[3], 0),
        ts[4].token_type is Literal,
        ts[5].token_type is Semicolon,
        ts[6].token_type is Eof,
    ensures
        ({
            let product = Expression::Binary {
                left: Box::new(literal_expression(ts[2])),
                operator: operator_of(ts[3]),
                right: Box::new(literal_expression(ts[4])),
            };
            let sum = Expression::Binary {
                left: Box::new(literal_expression(ts[0])),
                operator: operator_of(ts[1]),
                right: Box::new(product),
            };
            &&& expression(ts, 0) == Ok::<(Expression, int), ParseErrorView>((sum, 5))
            &&& program(ts, 0).decls == seq![Decl::Statement(Stmt::Expression(sum))]
            &&& program(ts, 0).errors.len() == 0
        }),
{
    let a = literal_expression(ts[0]);
    let b = literal_expression(ts[2]);
    let c = literal_expression(ts[4]);
    let product = Expression::Binary {
        left: Box::new(b),
        operator: operator_of(ts[3]),
        right: Box::new(c),
    };
    let sum = Expression::Binary {
        left: Box::new(a),
        operator: operator_of(ts[1]),
        right: Box::new(product),
    };
    assert(unary(ts, 0) == Ok::<(Expression, int), ParseErrorView>((a, 1)));
    assert(binary_tail(ts, 1, a, 0) == Ok::<(Expression, int), ParseErrorView>((a, 1)));
    assert(binary(ts, 0, 0) == Ok::<(Expression, int), ParseErrorView>((a, 1)));
    assert(primary(ts, 2) == Ok::<(Expression, int), ParseErrorView>((b, 3)));
    assert(unary(ts, 2) == Ok::<(Expression, int), ParseErrorView>((b, 3)));
    assert(primary(ts, 4) == Ok::<(Expression, int), ParseErrorView>((c, 5)));
    assert(unary(ts, 4) == Ok::<(Expression, int), ParseErrorView>((c, 5)));
    assert(binary_tail(ts, 5, product, 0) == Ok::<(Expression, int), ParseErrorView>((product, 5)));
    assert(binary_tail(ts, 3, b, 0) == Ok::<(Expression, int), ParseErrorView>((product, 5)));
    assert(binary(ts, 2, 0) == Ok::<(Expression, int), ParseErrorView>((product, 5)));
    assert(binary_tail(ts, 5, sum, 1) == Ok::<(Expression, int), ParseErrorView>((sum, 5)));
    assert(binary_tail(ts, 1, a, 1) == Ok::<(Expression, int), ParseErrorView>((sum, 5)));
    assert(binary(ts, 0, 1) == Ok::<(Expression, int), ParseErrorView>((sum, 5)));
    assert(binary_tail(ts, 5, sum, 2) == Ok::<(Expression, int), ParseErrorView>((sum, 5)));
    assert(binary(ts, 0, 2) == Ok::<(Expression, int), ParseErrorView>((sum, 5)));
    assert(binary_tail(ts, 5, sum, 3) == Ok::<(Expression, int), ParseErrorView>((sum, 5)));
    assert(binary(ts, 0, 3) == Ok::<(Expression, int), ParseErrorView>((sum, 5)));
    assert(terminated(ts, 0) == Ok::<(Expression, int), ParseErrorView>((sum, 6)));
    assert(declaration(ts, 0) == Ok::<(Decl, int), ParseErrorView>(
        (Decl::Statement(Stmt::Expression(sum)), 6),
    ));
    assert(program(ts, 6) == Program { decls: seq![], errors: seq![] });
    assert(program(ts, 0).decls =~= seq![Decl::Statement(Stmt::Expression(sum))]);
}

/// Whether a parse from `i` ended after `i`, or failed at or after `i`.
pub open spec fn moved_on<T>(r: Result<(T, int), ParseErrorView>, i: int) -> bool {
    match r {
        Ok((_, j)) => j > i,
        Err(x) => x.at >= i,
    }
}

proof fn lemma_expression_moves_on(ts: Seq<Token<TokenType>>, i: int)
    ensures
        moved_on(expression(ts, i), i),
    decreases ts.len() - i, 10int,
{
    lemma_binary_moves_on(ts, i, 3);
}

proof fn lemma_binary_moves_on(ts: Seq<Token<TokenType>>, i: int, level: int)
    ensures
        moved_on(binary(ts, i, level), i),
    decreases ts.len() - i, 2 * level + 3,
{
    if 0 <= level <= 3 {
        if level == 0 {
            lemma_unary_moves_on(ts, i);
        } else {
            lemma_binary_moves_on(ts, i, level - 1);
        }
        let first = if level == 0 {
            unary(ts, i)
        } else {
            binary(ts, i, level - 1)
        };
        if let Ok((e, j)) = first {
            if i < j < ts.len() {
                lemma_binary_tail_moves_on(ts, j, e, level);
            }
        }
    }
}

proof fn lemma_binary_tail_moves_on(
    ts: Seq<Token<TokenType>>,
    j: int,
    left: Expression,
    level: int,
)
    ensures
        match binary_tail(ts, j, left, level) {
            Ok((_, k)) => k >= j,
            Err(x) => x.at >= j,
        },
    decreases ts.len() - j, 2 * level + 2,
{
    if 0 <= level <= 3 && 0 <= j < ts.len() {
        if let Some(op) = operator_at(ts, j, level) {
            if level == 0 {
                lemma_unary_moves_on(ts, j + 1);
            } else {
                lemma_binary_moves_on(ts, j + 1, level - 1);
            }
            let right = if level == 0 {
                unary(ts, j + 1)
            } else {
                binary(ts, j + 1, level - 1)
            };
            if let Ok((r, k)) = right {
                if j < k < ts.len() {
                    lemma_binary_tail_moves_on(
                        ts,
                        k,
                        Expression::Binary {
                            left: Box::new(left),
                            operator: Token {
                                token_type: op,
                                line: ts[j].line,
                                start_index_in_source: ts[j].start_index_in_source,
                            },
                            right: Box::new(r),
                        },
                        level,
                    );
                }
            }
        }
    }
}

proof fn lemma_unary_moves_on(ts: Seq<Token<TokenType>>, i: int)
    ensures
        moved_on(unary(ts, i), i),
    decreases ts.len() - i, 1int,
{
    if 0 <= i < ts.len() && unary_of(ts[i].token_type) is Some {
        lemma_unary_moves_on(ts, i + 1);
    } else {
        lemma_primary_moves_on(ts, i);
    }
}

proof fn lemma_primary_moves_on(ts: Seq<Token<TokenType>>, i: int)
    ensures
        moved_on(primary(ts, i), i),
    decreases ts.len() - i, 0int,
{
    if 0 <= i < ts.len() && ts[i].token_type is LeftParenthesis {
        lemma_expression_moves_on(ts, i + 1);
    }
}

proof fn lemma_declaration_moves_on(ts: Seq<Token<TokenType>>, i: int)
    ensures
        moved_on(declaration(ts, i), i),
{
    lemma_expression_moves_on(ts, i);
    lemma_expression_moves_on(ts, i + 1);
    lemma_expression_moves_on(ts, i + 3);
}

proof fn lemma_sync_to_semicolon(ts: Seq<Token<TokenType>>, j: int, k: int)
    requires
        1 <= j <= k + 1,
        k + 1 < ts.len(),
        ts[k].token_type is Semicolon,
        forall|p: int| j - 1 <= p < k ==> !(#[trigger] ts[p].token_type is Semicolon),
        forall|p: int|
            j <= p <= k ==> !starts_declaration(#[trigger] ts[p].token_type) && !is_end(ts, p),
    ensures
        sync_from(ts, j) == k + 1,
    decreases k + 1 - j,
{
    if j <= k {
        lemma_sync_to_semicolon(ts, j + 1, k);
    }
}

/// Recovery after a syntax error: where a declaration fails at a token that
/// a semicolon ends, with nothing between them that starts a declaration,
/// that one error is reported and parsing resumes after the semicolon.
pub proof fn lemma_recovery_after_semicolon(ts: Seq<Token<TokenType>>, i: int, k: int)
    requires
        well_formed_tokens(ts),
        single_end(ts),
        0 <= i < ts.len(),
        !is_end(ts, i),
        declaration(ts, i) is Err,
        declaration(ts, i)->Err_0.at <= k < ts.len(),
        ts[k].token_type is Semicolon,
        forall|p: int|
            declaration(ts, i)->Err_0.at <= p < k ==> !(#[trigger] ts[p].token_type is Semicolon),
        forall|p: int|
            declaration(ts, i)->Err_0.at < p <= k ==> !starts_declaration(
                #[trigger] ts[p].token_type,
            ),
    ensures
        program(ts, i) == (Program {
            decls: program(ts, k + 1).decls,
            errors: seq![declaration(ts, i)->Err_0] + program(ts, k + 1).errors,
        }),
{
    let x = declaration(ts, i)->Err_0;
    lemma_declaration_moves_on(ts, i);
    assert(k < ts.len() - 1);
    assert forall|p: int| x.at <= p <= k implies !is_end(ts, p) by {
        assert(!(ts[p].token_type is Eof));
    }
    lemma_sync_to_semicolon(ts, x.at + 1, k);
    assert(synchronize(ts, x.at) == k + 1);
}

/// Two malformed statements, each ended by a semicolon with nothing after
/// its error that starts a declaration, give exactly two syntax errors and
/// no declaration.
pub proof fn lemma_two_malformed_statements(ts: Seq<Token<TokenType>>, k1: int, k2: int)
    requires
        well_formed_tokens(ts),
        single_end(ts),
        !is_end(ts, 0),
        declaration(ts, 0) is Err,
        declaration(ts, 0)->Err_0.at <= k1 < ts.len(),
        ts[k1].token_type is Semicolon,
        forall|p: int|
            declaration(ts, 0)->Err_0.at <= p < k1 ==> !(#[trigger] ts[p].token_type is Semicolon),
        forall|p: int|
            declaration(ts, 0)->Err_0.at < p <= k1 ==> !starts_declaration(
                #[trigger] ts[p].token_type,
            ),
        k1 + 1 < ts.len(),
        !is_end(ts, k1 + 1),
        declaration(ts, k1 + 1) is Err,
        declaration(ts, k1 + 1)->Err_0.at <= k2,
        ts[k2].token_type is Semicolon,
        forall|p: int|
            declaration(ts, k1 + 1)->Err_0.at <= p < k2 ==> !(
            #[trigger] ts[p].token_type is Semicolon),
        forall|p: int|
            declaration(ts, k1 + 1)->Err_0.at < p <= k2 ==> !starts_declaration(
                #[trigger] ts[p].token_type,
            ),
        k2 + 1 == ts.len() - 1,
    ensures
        program(ts, 0).errors.len() == 2,
        program(ts, 0).decls.len() == 0,
{
    lemma_recovery_after_semicolon(ts, 0, k1);
    lemma_recovery_after_semicolon(ts, k1 + 1, k2);
    assert(program(ts, k2 + 1).errors.len() == 0);
}

/// The precedence level of a binary operator: 3 for equality, 2 for
/// comparison, 1 for terms, 0 for factors (which bind tightest).
pub open spec fn operator_level(op: Operator) -> int {
    if op is EqualEqual || op is BangEqual {
        3
    } else if op is Greater || op is GreaterEqual || op is Less || op is LessEqual {
        2
    } else if op is Minus || op is Plus {
        1
    } else {
        0
    }
}

/// The level of an expression's outermost operator: that of a binary
/// operator, and -1 for anything else, which binds tighter than any.
pub open spec fn top_level(e: Expression) -> int {
    match e {
        Expression::Binary { operator, .. } => operator_level(operator.token_type),
        _ => -1,
    }
}

/// Whether an expression groups its operators by precedence and to the left:
/// the left operand of a binary operator binds at least as tightly as it, its
/// right operand more tightly, and the operand of a prefix operator holds no
/// binary operator outside parentheses.
pub open spec fn respects_precedence(e: Expression) -> bool
    decreases e,
{
    match e {
        Expression::Binary { left, operator, right } => {
            &&& top_level(*left) <= operator_level(operator.token_type)
            &&& top_level(*right) < operator_level(operator.token_type)
            &&& respects_precedence(*left)
            &&& respects_precedence(*right)
        },
        Expression::Unary { right, .. } => top_level(*right) == -1 && respects_precedence(*right),
        Expression::Grouping(inner) => respects_precedence(*inner),
        _ => true,
    }
}

/// Whether a parse result, where it succeeded, respects precedence with its
/// outermost operator at most at `level`.
pub open spec fn parsed_within<T>(r: Result<(Expression, int), T>, level: int) -> bool {
    match r {
        Ok((e, _)) => respects_precedence(e) && top_level(e) <= level,
        Err(_) => true,
    }
}

/// Every expression the parser produces groups its operators by precedence
/// and associates them to the left, so that its canonical form shows the
/// grouping the precedence rules give.
pub proof fn lemma_expression_respects_precedence(ts: Seq<Token<TokenType>>, i: int)
    ensures
        parsed_within(expression(ts, i), 3),
    decreases ts.len() - i, 10int,
{
    lemma_binary_respects_precedence(ts, i, 3);
}

proof fn lemma_binary_respects_precedence(ts: Seq<Token<TokenType>>, i: int, level: int)
    ensures
        0 <= level <= 3 ==> parsed_within(binary(ts, i, level), level),
    decreases ts.len() - i, 2 * level + 3,
{
    if 0 <= level <= 3 {
        if level == 0 {
            lemma_unary_respects_precedence(ts, i);
        } else {
            lemma_binary_respects_precedence(ts, i, level - 1);
        }
        let first = if level == 0 {
            unary(ts, i)
        } else {
            binary(ts, i, level - 1)
        };
        if let Ok((e, j)) = first {
            if i < j < ts.len() {
                lemma_binary_tail_respects_precedence(ts, j, e, level);
            }
        }
    }
}

proof fn lemma_binary_tail_respects_precedence(
    ts: Seq<Token<TokenType>>,
    j: int,
    left: Expression,
    level: int,
)
    requires
        0 <= level <= 3,
        respects_precedence(left),
        top_level(left) <= level,
    ensures
        parsed_within(binary_tail(ts, j, left, level), level),
    decreases ts.len() - j, 2 * level + 2,
{
    if 0 <= j < ts.len() {
        if let Some(op) = operator_at(ts, j, level) {
            if level == 0 {
                lemma_unary_respects_precedence(ts, j + 1);
            } else {
                lemma_binary_respects_precedence(ts, j + 1, level - 1);
            }
            let right = if level == 0 {
                unary(ts, j + 1)
            } else {
                binary(ts, j + 1, level - 1)
            };
            if let Ok((r, k)) = right {
                if j < k < ts.len() {
                    let e = Expression::Binary {
                        left: Box::new(left),
                        operator: Token {
                            token_type: op,
                            line: ts[j].line,
                            start_index_in_source: ts[j].start_index_in_source,
                        },
                        right: Box::new(r),
                    };
                    assert(operator_level(op) == level);
                    assert(respects_precedence(e));
                    lemma_binary_tail_respects_precedence(ts, k, e, level);
                }
            }
        }
    }
}

proof fn lemma_unary_respects_precedence(ts: Seq<Token<TokenType>>, i: int)
    ensures
        parsed_within(unary(ts, i), -1),
    decreases ts.len() - i, 1int,
{
    if 0 <= i < ts.len() && unary_of(ts[i].token_type) is Some {
        lemma_unary_respects_precedence(ts, i + 1);
    } else {
        lemma_primary_respects_precedence(ts, i);
    }
}

proof fn lemma_primary_respects_precedence(ts: Seq<Token<TokenType>>, i: int)
    ensures
        parsed_within(primary(ts, i), -1),
    decreases ts.len() - i, 0int,
{
    if 0 <= i < ts.len() && ts[i].token_type is LeftParenthesis {
        lemma_expression_respects_precedence(ts, i + 1);
    }
}

/// A parser over a token sequence that ends with an end-of-file token.
pub struct Parser {
    /// The tokens to parse.
    tokens: Vec<Token<TokenType>>,
    /// The position of the next token to look at.
    current: usize,
}

impl Parser {
    /// The tokens this parser reads.
    pub closed spec fn tokens(&self) -> Seq<Token<TokenType>> {
        self.tokens@
    }

    /// The position of the next token to read.
    pub closed spec fn position(&self) -> int {
        self.current as int
    }

    pub closed spec fn wf(&self) -> bool {
        well_formed_tokens(self.tokens@) && self.current < self.tokens@.len()
    }

    /// A parser at the start of `tokens`.
    pub fn new(tokens: Vec<Token<TokenType>>) -> (r: Parser)
        requires
            well_formed_tokens(tokens@),
        ensures
            r.wf(),
            r.tokens() == tokens@,
            r.position() == 0,
    {
        Parser { tokens, current: 0 }
    }

    /// Parses declarations up to the end. A declaration with a syntax error
    /// yields that error, and parsing resumes after the next statement
    /// boundary.
    pub fn parse(&mut self) -> (r: (Vec<Decl>, Vec<ParserError>))
        requires
            old(self).wf(),
        ensures
            final(self).wf(),
            final(self).tokens() == old(self).tokens(),
            r.0@ == program(old(self).tokens(), old(self).position()).decls,
            errors_match(r.1@, program(old(self).tokens(), old(self).position()).errors, old(self).tokens()),
    {
        let ghost ts = self.tokens@;
        let ghost first = self.current as int;
        let mut declarations: Vec<Decl> = Vec::new();
        let mut errors: Vec<ParserError> = Vec::new();
        let ghost mut seen: Seq<ParseErrorView> = seq![];
        while !self.is_at_end()
            invariant
                self.wf(),
                self.tokens@ == ts,
                program(ts, first).decls == declarations@ + program(ts, self.current as int).decls,
                program(ts, first).errors == seen + program(ts, self.current as int).errors,
                errors_match(errors@, seen, ts),
            decreases ts.len() - self.current,
        {
            let ghost i = self.current as int;
            let ghost g = declaration(ts, i);
            match self.parse_declaration() {
                Ok(d) => {
                    assert(declarations@ + (seq![d] + program(ts, self.current as int).decls)
                        =~= declarations@.push(d) + program(ts, self.current as int).decls);
                    declarations.push(d);
                },
                Err(e) => {
                    let ghost x = g->Err_0;
                    self.synchronize();
                    proof {
                        assert(seen + (seq![x] + program(ts, self.current as int).errors)
                            =~= seen.push(x) + program(ts, self.current as int).errors);
                        seen = seen.push(x);
                    }
                    let ghost before = errors@;
                    errors.push(e);
                    assert(forall|k: int| 0 <= k < before.len() ==> errors@[k] == before[k]);
                },
            }
        }
        assert(declarations@ + program(ts, self.current as int).decls =~= declarations@);
        assert(seen + program(ts, self.current as int).errors =~= seen);
        (declarations, errors)
    }

    fn is_at_end(&self) -> (r: bool)
        requires
            self.wf(),
        ensures
            r == is_end(self.tokens@, self.current as int),
    {
        match self.tokens[self.current].token_type {
            TokenType::Eof => true,
            _ => false,
        }
    }

    /// Whether the current token is of the kind of `token_type`, and not the
    /// end.
    fn check(&self, token_type: &TokenType) -> (r: bool)
        requires
            self.wf(),
        ensures
            r == check(self.tokens@, self.current as int, token_type@),
    {
        !self.is_at_end() && self.tokens[self.current].token_type.is_same_type(token_type)
    }

    /// Moves past the current token, unless it is the end, and returns it.
    fn advance(&mut self) -> (r: Token<TokenType>)
        requires
            old(self).wf(),
        ensures
            final(self).wf(),
            final(self).tokens@ == old(self).tokens@,
            r == old(self).tokens@[old(self).current as int],
            final(self).current == if is_end(old(self).tokens@, old(self).current as int) {
                old(self).current as int
            } else {
                old(self).current + 1
            },
    {
        let t = self.tokens[self.current].duplicate();
        if !self.is_at_end() {
            assert(self.current + 1 < self.tokens.len());
            self.current = self.current + 1;
        }
        t
    }

    /// Moves past the current token if it is of the kind of `expected`;
    /// otherwise reports what was found.
    fn consume(&mut self, expected: TokenType) -> (r: Result<Token<TokenType>, ParserError>)
        requires
            old(self).wf(),
        ensures
            final(self).wf(),
            final(self).tokens@ == old(self).tokens@,
            match consume_at(old(self).tokens@, old(self).current as int, expected@) {
                Ok(k) => r == Ok::<Token<TokenType>, ParserError>(
                    old(self).tokens@[old(self).current as int],
                ) && final(self).current == k,
                Err(x) => r is Err && error_matches(r->Err_0, x, old(self).tokens@) && final(self).current == old(self).current,
            },
    {
        if self.check(&expected) {
            Ok(self.advance())
        } else {
            let found = self.tokens[self.current].duplicate();
            let v = vec![expected];
            assert(v@.map_values(|t: TokenType| t@) =~= seq![v@[0]@]);
            Err(ParserError::UnexpectedToken { expected: v, found })
        }
    }

    /// Moves past the current token if it is a binary operator of the given
    /// level, and returns it.
    fn match_operator(&mut self, level: u8) -> (r: Option<Token<Operator>>)
        requires
            old(self).wf(),
        ensures
            final(self).wf(),
            final(self).tokens@ == old(self).tokens@,
            match operator_at(old(self).tokens@, old(self).current as int, level as int) {
                Some(op) => r == Some(
                    Token {
                        token_type: op,
                        line: old(self).tokens@[old(self).current as int].line,
                        start_index_in_source: old(self).tokens@[old(self).current as int].start_index_in_source,
                    },
                ) && final(self).current == old(self).current + 1,
                None => r is None && final(self).current == old(self).current,
            },
    {
        match self.tokens[self.current].token_type {
            TokenType::Operator(op) => {
                if level_operator_exec(op, level) {
                    let t = self.advance();
                    Some(Token::new(op, t.line, t.start_index_in_source))
                } else {
                    None
                }
            },
            _ => None,
        }
    }

    /// Moves past the current token if it is a prefix operator, and returns it.
    fn match_unary(&mut self) -> (r: Option<Token<UnaryOperator>>)
        requires
            old(self).wf(),
        ensures
            final(self).wf(),
            final(self).tokens@ == old(self).tokens@,
            match unary_of(old(self).tokens@[old(self).current as int].token_type) {
                Some(u) => r == Some(
                    Token {
                        token_type: u,
                        line: old(self).tokens@[old(self).current as int].line,
                        start_index_in_source: old(self).tokens@[old(self).current as int].start_index_in_source,
                    },
                ) && final(self).current == old(self).current + 1,
                None => r is None && final(self).current == old(self).current,
            },
    {
        match UnaryOperator::from_token_type(&self.tokens[self.current].token_type) {
            Some(u) => {
                let t = self.advance();
                Some(Token::new(u, t.line, t.start_index_in_source))
            },
            None => None,
        }
    }

    /// Skips tokens after a syntax error up to a statement boundary: past a
    /// semicolon, or before a token that starts a declaration.
    fn synchronize(&mut self)
        requires
            old(self).wf(),
        ensures
            final(self).wf(),
            final(self).tokens@ == old(self).tokens@,
            final(self).current == synchronize(old(self).tokens@, old(self).current as int),
            final(self).current >= old(self).current,
            !is_end(old(self).tokens@, old(self).current as int) ==> final(self).current > old(self).current,
    {
        let ghost ts = self.tokens@;
        let ghost c0 = self.current;
        self.advance();
        while !self.is_at_end()
            invariant
                self.wf(),
                self.tokens@ == ts,
                ts == old(self).tokens@,
                c0 == old(self).current,
                self.current >= c0,
                !is_end(ts, c0 as int) ==> self.current > c0,
                self.current >= 1 || is_end(ts, self.current as int),
                synchronize(ts, c0 as int) == sync_from(ts, self.current as int),
            decreases ts.len() - self.current,
        {
            match self.tokens[self.current - 1].token_type {
                TokenType::Semicolon => {
                    return ;
                },
                _ => {},
            }
            if starts_declaration_exec(&self.tokens[self.current].token_type) {
                return ;
            }
            self.advance();
        }
    }
}

impl Parser {
    /// Parses a declaration at the current token.
    fn parse_declaration(&mut self) -> (r: Result<Decl, ParserError>)
        requires
            old(self).wf(),
        ensures
            final(self).wf(),
            final(self).tokens@ == old(self).tokens@,
            agrees(
                r,
                declaration(old(self).tokens@, old(self).current as int),
                old(self).tokens@,
                old(self).current as int,
                final(self).current as int,
            ),
    {
        if self.check(&TokenType::Var) {
            self.advance();
            self.parse_var_declaration()
        } else {
            match self.parse_statement() {
                Ok(s) => Ok(Decl::Statement(s)),
                Err(e) => Err(e),
            }
        }
    }

    /// Parses a variable declaration whose `var` was just consumed.
    fn parse_var_declaration(&mut self) -> (r: Result<Decl, ParserError>)
        requires
            old(self).wf(),
        ensures
            final(self).wf(),
            final(self).tokens@ == old(self).tokens@,
            agrees(
                r,
                var_declaration(old(self).tokens@, old(self).current as int),
                old(self).tokens@,
                old(self).current as int,
                final(self).current as int,
            ),
    {
        let name_type = Identifier::from_token_type(&self.tokens[self.current].token_type);
        match name_type {
            Some(id) => {
                let t = self.advance();
                let name = Token::new(id, t.line, t.start_index_in_source);
                if self.check(&TokenType::Equal) {
                    self.advance();
                    match self.parse_terminated() {
                        Ok(initializer) => Ok(Decl::Var { name, initializer }),
                        Err(e) => Err(e),
                    }
                } else {
                    match self.consume(TokenType::Semicolon) {
                        Ok(_) => Ok(
                            Decl::Var { name, initializer: Expression::Literal(Literal::Nil) },
                        ),
                        Err(e) => Err(e),
                    }
                }
            },
            None => {
                let found = self.tokens[self.current].duplicate();
                let v = vec![TokenType::Identifier(Identifier { name: String::new() })];
                assert(v@.map_values(|t: TokenType| t@) =~= seq![
                    TokenTypeView::Identifier(Seq::empty()),
                ]);
                Err(ParserError::UnexpectedToken { expected: v, found })
            },
        }
    }

    /// Parses a statement at the current token.
    fn parse_statement(&mut self) -> (r: Result<Stmt, ParserError>)
        requires
            old(self).wf(),
        ensures
            final(self).wf(),
            final(self).tokens@ == old(self).tokens@,
            agrees(
                r,
                statement(old(self).tokens@, old(self).current as int),
                old(self).tokens@,
                old(self).current as int,
                final(self).current as int,
            ),
    {
        if self.check(&TokenType::Print) {
            self.advance();
            self.parse_print_statement()
        } else {
            self.parse_expression_statement()
        }
    }

    /// Parses the rest of a print statement whose `print` was just consumed.
    fn parse_print_statement(&mut self) -> (r: Result<Stmt, ParserError>)
        requires
            old(self).wf(),
        ensures
            final(self).wf(),
            final(self).tokens@ == old(self).tokens@,
            agrees(
                r,
                match terminated(old(self).tokens@, old(self).current as int) {
                    Ok((e, k)) => Ok((Stmt::Print(e), k)),
                    Err(x) => Err(x),
                },
                old(self).tokens@,
                old(self).current as int,
                final(self).current as int,
            ),
    {
        match self.parse_terminated() {
            Ok(e) => Ok(Stmt::Print(e)),
            Err(e) => Err(e),
        }
    }

    /// Parses an expression statement.
    fn parse_expression_statement(&mut self) -> (r: Result<Stmt, ParserError>)
        requires
            old(self).wf(),
        ensures
            final(self).wf(),
            final(self).tokens@ == old(self).tokens@,
            agrees(
                r,
                match terminated(old(self).tokens@, old(self).current as int) {
                    Ok((e, k)) => Ok((Stmt::Expression(e), k)),
                    Err(x) => Err(x),
                },
                old(self).tokens@,
                old(self).current as int,
                final(self).current as int,
            ),
    {
        match self.parse_terminated() {
            Ok(e) => Ok(Stmt::Expression(e)),
            Err(e) => Err(e),
        }
    }

    /// Parses an expression followed by a semicolon.
    fn parse_terminated(&mut self) -> (r: Result<Expression, ParserError>)
        requires
            old(self).wf(),
        ensures
            final(self).wf(),
            final(self).tokens@ == old(self).tokens@,
            agrees(
                r,
                terminated(old(self).tokens@, old(self).current as int),
                old(self).tokens@,
                old(self).current as int,
                final(self).current as int,
            ),
    {
        match self.parse_expression() {
            Ok(e) => match self.consume(TokenType::Semicolon) {
                Ok(_) => Ok(e),
                Err(x) => Err(x),
            },
            Err(x) => Err(x),
        }
    }

    /// Parses an expression at the current token.
    fn parse_expression(&mut self) -> (r: Result<Expression, ParserError>)
        requires
            old(self).wf(),
        ensures
            final(self).wf(),
            final(self).tokens@ == old(self).tokens@,
            agrees(
                r,
                expression(old(self).tokens@, old(self).current as int),
                old(self).tokens@,
                old(self).current as int,
                final(self).current as int,
            ),
        decreases old(self).tokens@.len() - old(self).current, 10int,
    {
        self.parse_binary(3)
    }

    /// Parses a chain of binary operators of a level (3 for equality, 2 for
    /// comparison, 1 for terms, 0 for factors), folded to the left.
    fn parse_binary(&mut self, level: u8) -> (r: Result<Expression, ParserError>)
        requires
            old(self).wf(),
            level <= 3,
        ensures
            final(self).wf(),
            final(self).tokens@ == old(self).tokens@,
            agrees(
                r,
                binary(old(self).tokens@, old(self).current as int, level as int),
                old(self).tokens@,
                old(self).current as int,
                final(self).current as int,
            ),
        decreases old(self).tokens@.len() - old(self).current, 2 * level + 3,
    {
        let ghost ts = self.tokens@;
        let ghost i = self.current as int;
        let first = if level == 0 {
            self.parse_unary()
        } else {
            self.parse_binary(level - 1)
        };
        let mut expr = match first {
            Ok(e) => e,
            Err(x) => {
                return Err(x);
            },
        };
        loop
            invariant
                self.wf(),
                self.tokens@ == ts,
                ts == old(self).tokens@,
                i == old(self).current,
                level <= 3,
                i < self.current,
                binary(ts, i, level as int) == binary_tail(
                    ts,
                    self.current as int,
                    expr,
                    level as int,
                ),
            decreases ts.len() - self.current,
        {
            let ghost j = self.current as int;
            match self.match_operator(level) {
                Some(operator) => {
                    assert(self.current > i);
                    let right = if level == 0 {
                        self.parse_unary()
                    } else {
                        self.parse_binary(level - 1)
                    };
                    match right {
                        Ok(r) => {
                            expr = Expression::Binary {
                                left: Box::new(expr),
                                operator,
                                right: Box::new(r),
                            };
                        },
                        Err(x) => {
                            return Err(x);
                        },
                    }
                },
                None => {
                    return Ok(expr);
                },
            }
        }
    }

    /// Parses a unary expression at the current token.
    fn parse_unary(&mut self) -> (r: Result<Expression, ParserError>)
        requires
            old(self).wf(),
        ensures
            final(self).wf(),
            final(self).tokens@ == old(self).tokens@,
            agrees(
                r,
                unary(old(self).tokens@, old(self).current as int),
                old(self).tokens@,
                old(self).current as int,
                final(self).current as int,
            ),
        decreases old(self).tokens@.len() - old(self).current, 1int,
    {
        match self.match_unary() {
            Some(operator) => match self.parse_unary() {
                Ok(right) => Ok(Expression::Unary { operator, right: Box::new(right) }),
                Err(x) => Err(x),
            },
            None => self.parse_primary(),
        }
    }

    /// Parses a primary expression at the current token.
    fn parse_primary(&mut self) -> (r: Result<Expression, ParserError>)
        requires
            old(self).wf(),
        ensures
            final(self).wf(),
            final(self).tokens@ == old(self).tokens@,
            agrees(
                r,
                primary(old(self).tokens@, old(self).current as int),
                old(self).tokens@,
                old(self).current as int,
                final(self).current as int,
            ),
        decreases old(self).tokens@.len() - old(self).current, 0int,
    {
        match &self.tokens[self.current].token_type {
            TokenType::Literal(l) => {
                let literal = l.duplicate();
                self.advance();
                Ok(Expression::Literal(literal))
            },
            TokenType::Identifier(id) => {
                let name = id.duplicate();
                self.advance();
                Ok(Expression::Identifier(name))
            },
            TokenType::LeftParenthesis => {
                self.advance();
                match self.parse_expression() {
                    Ok(e) => match self.consume(TokenType::RightParenthesis) {
                        Ok(_) => Ok(Expression::Grouping(Box::new(e))),
                        Err(x) => Err(x),
                    },
                    Err(x) => Err(x),
                }
            },
            _ => {
                let found = self.tokens[self.current].duplicate();
                Err(ParserError::UnexpectedToken { expected: primary_expected_exec(), found })
            },
        }
    }
}

} // verus!
