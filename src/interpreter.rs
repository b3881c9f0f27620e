//! The tree-walking evaluator.

use vstd::prelude::*;
use vstd::string::*;
use crate::ast::{Decl, Expression, Stmt};
use crate::environment::{lookup, Environment};
use crate::token::{unary_token, Identifier, Literal, Operator, Token, TokenType, UnaryOperator};
use crate::value::{equal, negate, same_kind, truth, Arithmetic, Comparison, LoxObject, LoxValue, Number, Truth};

verus! {

/// An error while running a program.
#[derive(Debug, PartialEq)]
pub enum RuntimeError {
    /// An operator met an operand of the wrong kind: the message and the
    /// operator's token.
    TypeError(String, Token<TokenType>),
    /// A name that no definition binds.
    UndefinedVariable(String),
}

/// A runtime error with its texts as sequences of characters.
pub enum RuntimeErrorView {
    TypeError(Seq<char>, Token<TokenType>),
    UndefinedVariable(Seq<char>),
}

impl View for RuntimeError {
    type V = RuntimeErrorView;

    open spec fn view(&self) -> RuntimeErrorView {
        match self {
            RuntimeError::TypeError(m, t) => RuntimeErrorView::TypeError(m@, *t),
            RuntimeError::UndefinedVariable(n) => RuntimeErrorView::UndefinedVariable(n@),
        }
    }
}

/// The view of an evaluation result.
pub open spec fn result_view(r: Result<LoxObject, RuntimeError>) -> Result<LoxValue, RuntimeErrorView> {
    match r {
        Ok(v) => Ok(v@),
        Err(e) => Err(e@),
    }
}

/// The value of a literal.
pub open spec fn literal_value(l: Literal) -> LoxValue {
    match l {
        Literal::Number(n) => LoxValue::Number(Number::Literal(n)),
        Literal::Str(s) => LoxValue::Str(s@),
        Literal::True => LoxValue::Boolean(Truth::Known(true)),
        Literal::False => LoxValue::Boolean(Truth::Known(false)),
        Literal::Nil => LoxValue::Nil,
    }
}

/// The token of a binary operator, as a token of the language.
pub open spec fn operator_token(op: Token<Operator>) -> Token<TokenType> {
    Token {
        token_type: TokenType::Operator(op.token_type),
        line: op.line,
        start_index_in_source: op.start_index_in_source,
    }
}

/// The token of a prefix operator, as a token of the language.
pub open spec fn unary_operator_token(op: Token<UnaryOperator>) -> Token<TokenType> {
    Token {
        token_type: unary_token(op.token_type),
        line: op.line,
        start_index_in_source: op.start_index_in_source,
    }
}

/// The message of a type error of a binary operator.
pub open spec fn operands_message(op: Operator) -> Seq<char> {
    match op {
        Operator::Minus => "Operands to Minus need to be numbers."@,
        Operator::Plus => "Operands to Plus need to be both numbers or both strings."@,
        Operator::Star => "Operands to Star need to be numbers."@,
        Operator::Slash => "Operands to Slash need to be numbers."@,
        Operator::Greater => "Operands to Greater need to be numbers."@,
        Operator::GreaterEqual => "Operands to GreaterEqual need to be numbers."@,
        Operator::Less => "Operands to Less need to be numbers."@,
        Operator::LessEqual => "Operands to LessEqual need to be numbers."@,
        Operator::EqualEqual => "Operands to EqualEqual need to be numbers."@,
        Operator::BangEqual => "Operands to BangEqual need to be numbers."@,
    }
}

/// The message of a type error of the `-` prefix operator.
pub open spec fn operand_message() -> Seq<char> {
    "Operand must be a number."@
}

/// The arithmetic a binary operator performs, if it performs one.
pub open spec fn arithmetic_of(op: Operator) -> Option<Arithmetic> {
    match op {
        Operator::Plus => Some(Arithmetic::Add),
        Operator::Minus => Some(Arithmetic::Subtract),
        Operator::Star => Some(Arithmetic::Multiply),
        Operator::Slash => Some(Arithmetic::Divide),
        _ => None,
    }
}

/// The ordering test a binary operator performs, if it performs one.
pub open spec fn comparison_of(op: Operator) -> Option<Comparison> {
    match op {
        Operator::Greater => Some(Comparison::Greater),
        Operator::GreaterEqual => Some(Comparison::GreaterEqual),
        Operator::Less => Some(Comparison::Less),
        Operator::LessEqual => Some(Comparison::LessEqual),
        _ => None,
    }
}

/// What a prefix operator gives on a value.
pub open spec fn unary_value(op: Token<UnaryOperator>, v: LoxValue) -> Result<
    LoxValue,
    RuntimeErrorView,
> {
    match op.token_type {
        UnaryOperator::Minus(_) => match v {
            LoxValue::Number(n) => Ok(LoxValue::Number(Number::Negate(Box::new(n)))),
            _ => Err(RuntimeErrorView::TypeError(operand_message(), unary_operator_token(op))),
        },
        UnaryOperator::Bang(_) => Ok(LoxValue::Boolean(negate(truth(v)))),
    }
}

/// What a binary operator gives on two values.
pub open spec fn binary_value(l: LoxValue, op: Token<Operator>, r: LoxValue) -> Result<
    LoxValue,
    RuntimeErrorView,
> {
    let error = Err(
        RuntimeErrorView::TypeError(operands_message(op.token_type), operator_token(op)),
    );
    match op.token_type {
        Operator::EqualEqual => Ok(LoxValue::Boolean(equal(l, r))),
        Operator::BangEqual => Ok(LoxValue::Boolean(negate(equal(l, r)))),
        _ => match (l, r) {
            (LoxValue::Number(x), LoxValue::Number(y)) => match arithmetic_of(op.token_type) {
                Some(a) => Ok(LoxValue::Number(Number::Arithmetic(Box::new(x), a, Box::new(y)))),
                None => Ok(
                    LoxValue::Boolean(
                        Truth::Compare(Box::new(x), comparison_of(op.token_type)->0, Box::new(y)),
                    ),
                ),
            },
            (LoxValue::Str(x), LoxValue::Str(y)) => if op.token_type is Plus {
                Ok(LoxValue::Str(x + y))
            } else {
                error
            },
            _ => error,
        },
    }
}

/// The value of an expression in an environment, evaluating operands left
/// to right and stopping at the first error.
pub open spec fn eval(e: Expression, env: Seq<(Seq<char>, LoxValue)>) -> Result<
    LoxValue,
    RuntimeErrorView,
>
    decreases e,
{
    match e {
        Expression::Literal(l) => Ok(literal_value(l)),
        Expression::Grouping(inner) => eval(*inner, env),
        Expression::Unary { operator, right } => match eval(*right, env) {
            Ok(v) => unary_value(operator, v),
            Err(x) => Err(x),
        },
        Expression::Binary { left, operator, right } => match eval(*left, env) {
            Ok(a) => match eval(*right, env) {
                Ok(b) => binary_value(a, operator, b),
                Err(x) => Err(x),
            },
            Err(x) => Err(x),
        },
        Expression::Identifier(id) => match lookup(env, id.name@) {
            Some(v) => Ok(v),
            None => Err(RuntimeErrorView::UndefinedVariable(id.name@)),
        },
    }
}

/// What a run of declarations does: the values printed, in order, and the
/// error that stopped it, if one did.
pub struct Run {
    pub printed: Seq<LoxValue>,
    pub error: Option<RuntimeErrorView>,
}

/// The run of the declarations from position `i` on, in an environment.
pub open spec fn run_from(decls: Seq<Decl>, i: int, env: Seq<(Seq<char>, LoxValue)>) -> Run
    decreases decls.len() - i,
{
    if !(0 <= i < decls.len()) {
        Run { printed: seq![], error: None }
    } else {
        match decls[i] {
            Decl::Var { name, initializer } => match eval(initializer, env) {
                Ok(v) => run_from(decls, i + 1, env.push((name.token_type.name@, v))),
                Err(x) => Run { printed: seq![], error: Some(x) },
            },
            Decl::Statement(Stmt::Expression(e)) => match eval(e, env) {
                Ok(_) => run_from(decls, i + 1, env),
                Err(x) => Run { printed: seq![], error: Some(x) },
            },
            Decl::Statement(Stmt::Print(e)) => match eval(e, env) {
                Ok(v) => {
                    let rest = run_from(decls, i + 1, env);
                    Run { printed: seq![v] + rest.printed, error: rest.error }
                },
                Err(x) => Run { printed: seq![], error: Some(x) },
            },
        }
    }
}

/// The run of a whole program, from a fresh environment.
pub open spec fn run_program(decls: Seq<Decl>) -> Run {
    run_from(decls, 0, seq![])
}

/// What running declarations did: the values printed, in order, and the
/// error that stopped the run, if one did.
#[derive(Debug, PartialEq)]
pub struct Execution {
    pub printed: Vec<LoxObject>,
    pub error: Option<RuntimeError>,
}

/// Whether an execution is the run described.
pub open spec fn execution_matches(x: Execution, run: Run) -> bool {
    &&& x.printed@.map_values(|v: LoxObject| v@) == run.printed
    &&& match run.error {
        Some(e) => x.error is Some && x.error->0@ == e,
        None => x.error is None,
    }
}

/// The interpreter: runs declarations for their effects.
pub struct Interpreter {}

impl Interpreter {
    pub fn new() -> (r: Interpreter) {
        Interpreter {  }
    }

    /// Runs `declarations` in order in a fresh environment, stopping at the
    /// first runtime error.
    pub fn interpret(&self, declarations: &Vec<Decl>) -> (r: Execution)
        ensures
            execution_matches(r, run_program(declarations@)),
    {
        let ghost ds = declarations@;
        let mut env = Environment::new();
        let mut printed: Vec<LoxObject> = Vec::new();
        let mut i: usize = 0;
        assert(printed@.map_values(|v: LoxObject| v@) =~= seq![]);
        while i < declarations.len()
            invariant
                i <= ds.len(),
                ds == declarations@,
                run_program(ds).error == run_from(ds, i as int, env@).error,
                run_program(ds).printed == printed@.map_values(|v: LoxObject| v@) + run_from(
                    ds,
                    i as int,
                    env@,
                ).printed,
            decreases ds.len() - i,
        {
            let ghost before = printed@.map_values(|v: LoxObject| v@);
            match self.execute(&declarations[i], &mut env) {
                Ok(Some(v)) => {
                    printed.push(v);
                    assert(printed@.map_values(|v: LoxObject| v@) =~= before.push(
                        printed@.last()@,
                    ));
                    assert(before + (seq![printed@.last()@] + run_from(ds, i + 1, env@).printed)
                        =~= before.push(printed@.last()@) + run_from(ds, i + 1, env@).printed);
                },
                Ok(None) => {},
                Err(e) => {
                    assert(before + seq![] =~= before);
                    return Execution { printed, error: Some(e) };
                },
            }
            i = i + 1;
        }
        assert(printed@.map_values(|v: LoxObject| v@) + seq![] =~= printed@.map_values(
            |v: LoxObject| v@,
        ));
        Execution { printed, error: None }
    }

    /// Executes one declaration: a variable declaration binds its name, a
    /// print statement returns the value to print.
    fn execute(&self, declaration: &Decl, env: &mut Environment) -> (r: Result<
        Option<LoxObject>,
        RuntimeError,
    >)
        ensures
            match declaration {
                Decl::Var { name, initializer } => match eval(*initializer, old(env)@) {
                    Ok(v) => r is Ok && r->Ok_0 is None && final(env)@ == old(env)@.push(
                        (name.token_type.name@, v),
                    ),
                    Err(x) => r is Err && r->Err_0@ == x,
                },
                Decl::Statement(Stmt::Expression(e)) => match eval(*e, old(env)@) {
                    Ok(_) => r is Ok && r->Ok_0 is None && final(env)@ == old(env)@,
                    Err(x) => r is Err && r->Err_0@ == x,
                },
                Decl::Statement(Stmt::Print(e)) => match eval(*e, old(env)@) {
                    Ok(v) => r is Ok && r->Ok_0 is Some && r->Ok_0->0@ == v && final(env)@ == old(
                        env,
                    )@,
                    Err(x) => r is Err && r->Err_0@ == x,
                },
            },
    {
        match declaration {
            Decl::Var { name, initializer } => match self.evaluate(initializer, env) {
                Ok(v) => {
                    env.define(name.token_type.name.as_str(), v);
                    Ok(None)
                },
                Err(e) => Err(e),
            },
            Decl::Statement(Stmt::Expression(e)) => match self.evaluate(e, env) {
                Ok(_) => Ok(None),
                Err(x) => Err(x),
            },
            Decl::Statement(Stmt::Print(e)) => match self.evaluate(e, env) {
                Ok(v) => Ok(Some(v)),
                Err(x) => Err(x),
            },
        }
    }

    /// Evaluates an expression in an environment.
    pub fn evaluate(&self, expr: &Expression, env: &Environment) -> (r: Result<
        LoxObject,
        RuntimeError,
    >)
        ensures
            result_view(r) == eval(*expr, env@),
        decreases expr,
    {
        match expr {
            Expression::Literal(l) => Ok(self.visit_literal(l)),
            Expression::Grouping(inner) => self.evaluate(inner, env),
            Expression::Unary { operator, right } => match self.evaluate(right, env) {
                Ok(v) => self.visit_unary(operator, v),
                Err(x) => Err(x),
            },
            Expression::Binary { left, operator, right } => match self.evaluate(left, env) {
                Ok(a) => match self.evaluate(right, env) {
                    Ok(b) => self.visit_binary(a, operator, b),
                    Err(x) => Err(x),
                },
                Err(x) => Err(x),
            },
            Expression::Identifier(id) => env.get(id.name.as_str()),
        }
    }

    /// The value of a literal.
    fn visit_literal(&self, l: &Literal) -> (r: LoxObject)
        ensures
            r@ == literal_value(*l),
    {
        match l {
            Literal::Number(n) => LoxObject::Number(Number::Literal(n.clone())),
            Literal::Str(s) => LoxObject::Str(s.clone()),
            Literal::True => LoxObject::Boolean(Truth::Known(true)),
            Literal::False => LoxObject::Boolean(Truth::Known(false)),
            Literal::Nil => LoxObject::Nil,
        }
    }

    /// Applies a prefix operator to a value.
    fn visit_unary(&self, operator: &Token<UnaryOperator>, v: LoxObject) -> (r: Result<
        LoxObject,
        RuntimeError,
    >)
        ensures
            result_view(r) == unary_value(*operator, v@),
    {
        match operator.token_type {
            UnaryOperator::Minus(_) => match v {
                LoxObject::Number(n) => Ok(LoxObject::Number(Number::Negate(Box::new(n)))),
                _ => Err(
                    RuntimeError::TypeError(
                        String::from_str("Operand must be a number."),
                        Token::from(*operator),
                    ),
                ),
            },
            UnaryOperator::Bang(_) => Ok(LoxObject::Boolean(v.truth().negated())),
        }
    }

    /// Applies a binary operator to two values.
    fn visit_binary(&self, l: LoxObject, operator: &Token<Operator>, r: LoxObject) -> (res: Result<
        LoxObject,
        RuntimeError,
    >)
        ensures
            result_view(res) == binary_value(l@, *operator, r@),
    {
        let op = operator.token_type;
        match op {
            Operator::EqualEqual => {
                return Ok(LoxObject::Boolean(l.equals(r)));
            },
            Operator::BangEqual => {
                return Ok(LoxObject::Boolean(l.equals(r).negated()));
            },
            _ => {},
        }
        match (l, r) {
            (LoxObject::Number(x), LoxObject::Number(y)) => {
                let a = match op {
                    Operator::Plus => Some(Arithmetic::Add),
                    Operator::Minus => Some(Arithmetic::Subtract),
                    Operator::Star => Some(Arithmetic::Multiply),
                    Operator::Slash => Some(Arithmetic::Divide),
                    _ => None,
                };
                match a {
                    Some(a) => Ok(
                        LoxObject::Number(Number::Arithmetic(Box::new(x), a, Box::new(y))),
                    ),
                    None => {
                        let c = match op {
                            Operator::Greater => Comparison::Greater,
                            Operator::GreaterEqual => Comparison::GreaterEqual,
                            Operator::Less => Comparison::Less,
                            _ => Comparison::LessEqual,
                        };
                        Ok(LoxObject::Boolean(Truth::Compare(Box::new(x), c, Box::new(y))))
                    },
                }
            },
            (LoxObject::Str(x), LoxObject::Str(y)) => {
                if op == Operator::Plus {
                    Ok(LoxObject::Str(x.concat(y.as_str())))
                } else {
                    Err(RuntimeError::TypeError(operands_message_exec(op), Token::from(*operator)))
                }
            },
            _ => Err(RuntimeError::TypeError(operands_message_exec(op), Token::from(*operator))),
        }
    }

    /// The text a value prints as, where it does not depend on numbers:
    /// a string prints as itself, `nil` as `nil`, a known boolean as `true`
    /// or `false`. Numbers, and booleans decided by numbers, give `None`.
    pub fn stringify(&self, obj: &LoxObject) -> (r: Option<String>)
        ensures
            match obj@ {
                LoxValue::Str(s) => r is Some && r->0@ == s,
                LoxValue::Nil => r is Some && r->0@ == "nil"@,
                LoxValue::Boolean(Truth::Known(true)) => r is Some && r->0@ == "true"@,
                LoxValue::Boolean(Truth::Known(false)) => r is Some && r->0@ == "false"@,
                _ => r is None,
            },
    {
        match obj {
            LoxObject::Str(s) => Some(s.clone()),
            LoxObject::Nil => Some(String::from_str("nil")),
            LoxObject::Boolean(Truth::Known(true)) => Some(String::from_str("true")),
            LoxObject::Boolean(Truth::Known(false)) => Some(String::from_str("false")),
            _ => None,
        }
    }
}

/// Equality never fails: `==` on values of different kinds is false and `!=`
/// on them is true.
pub proof fn lemma_equality_across_kinds(a: LoxValue, op: Token<Operator>, b: LoxValue)
    requires
        op.token_type is EqualEqual || op.token_type is BangEqual,
    ensures
        binary_value(a, op, b) is Ok,
        !same_kind(a, b) ==> binary_value(a, op, b) == Ok::<LoxValue, RuntimeErrorView>(
            LoxValue::Boolean(Truth::Known(op.token_type is BangEqual)),
        ),
{
}

/// `+` adds two numbers and joins two strings; on any other pair of operands
/// it is a type error.
pub proof fn lemma_plus_operands(a: LoxValue, op: Token<Operator>, b: LoxValue)
    requires
        op.token_type is Plus,
    ensures
        binary_value(a, op, b) is Err <==> !((a is Number && b is Number) || (a is Str
            && b is Str)),
        binary_value(a, op, b) is Err ==> binary_value(a, op, b)->Err_0
            == RuntimeErrorView::TypeError(operands_message(Operator::Plus), operator_token(op)),
        (a is Str && b is Str) ==> binary_value(a, op, b) == Ok::<LoxValue, RuntimeErrorView>(
            LoxValue::Str(a->Str_0 + b->Str_0),
        ),
{
}

/// `!` never fails: `!nil` and `!false` are true, and `!` of any number,
/// string or `true` is false.
pub proof fn lemma_not_truthiness(op: Token<UnaryOperator>, v: LoxValue)
    requires
        op.token_type is Bang,
    ensures
        unary_value(op, v) is Ok,
        (v is Nil || v == LoxValue::Boolean(Truth::Known(false))) ==> unary_value(op, v)
            == Ok::<LoxValue, RuntimeErrorView>(LoxValue::Boolean(Truth::Known(true))),
        (v is Number || v is Str || v == LoxValue::Boolean(Truth::Known(true))) ==> unary_value(
            op,
            v,
        ) == Ok::<LoxValue, RuntimeErrorView>(LoxValue::Boolean(Truth::Known(false))),
{
}

/// A name reads as the value of its latest definition, and a name that no
/// definition binds is an undefined-variable error.
pub proof fn lemma_variables(id: Identifier, env: Seq<(Seq<char>, LoxValue)>, v: LoxValue)
    ensures
        eval(Expression::Identifier(id), env.push((id.name@, v))) == Ok::<
            LoxValue,
            RuntimeErrorView,
        >(v),
        lookup(env, id.name@) is None ==> eval(Expression::Identifier(id), env) == Err::<
            LoxValue,
            RuntimeErrorView,
        >(RuntimeErrorView::UndefinedVariable(id.name@)),
{
    assert(env.push((id.name@, v)).drop_last() =~= env);
}

/// A statement that is a number literal alone prints nothing and fails
/// nothing: the run goes on with the next declaration, in the same
/// environment.
pub proof fn lemma_number_statement_is_silent(
    decls: Seq<Decl>,
    i: int,
    env: Seq<(Seq<char>, LoxValue)>,
)
    requires
        0 <= i < decls.len(),
        decls[i] matches Decl::Statement(Stmt::Expression(Expression::Literal(Literal::Number(_)))),
    ensures
        run_from(decls, i, env) == run_from(decls, i + 1, env),
{
}

fn operands_message_exec(op: Operator) -> (r: String)
    ensures
        r@ == operands_message(op),
{
    match op {
        Operator::Minus => String::from_str("Operands to Minus need to be numbers."),
        Operator::Plus => String::from_str(
            "Operands to Plus need to be both numbers or both strings.",
        ),
        Operator::Star => String::from_str("Operands to Star need to be numbers."),
        Operator::Slash => String::from_str("Operands to Slash need to be numbers."),
        Operator::Greater => String::from_str("Operands to Greater need to be numbers."),
        Operator::GreaterEqual => String::from_str("Operands to GreaterEqual need to be numbers."),
        Operator::Less => String::from_str("Operands to Less need to be numbers."),
        Operator::LessEqual => String::from_str("Operands to LessEqual need to be numbers."),
        Operator::EqualEqual => String::from_str("Operands to EqualEqual need to be numbers."),
        Operator::BangEqual => String::from_str("Operands to BangEqual need to be numbers."),
    }
}

} // verus!
