//! A canonical, fully parenthesized rendering of expressions, which shows how
//! the parser grouped operators. Operators and literals appear under their
//! names (`Plus`, `Minus(Minus)`, `Str("a")`, `True`, ...). A number appears
//! as `Number(..)` around the literal's own decimal text, since this library
//! holds no floating-point value to print.

use vstd::prelude::*;
use vstd::string::*;
use crate::ast::Expression;
use crate::scanner::chars_of;
use crate::token::{Literal, Operator, UnaryOperator};

verus! {

/// The name of a binary operator.
pub open spec fn operator_name(op: Operator) -> Seq<char> {
    match op {
        Operator::EqualEqual => "EqualEqual"@,
        Operator::BangEqual => "BangEqual"@,
        Operator::Less => "Less"@,
        Operator::LessEqual => "LessEqual"@,
        Operator::Greater => "Greater"@,
        Operator::GreaterEqual => "GreaterEqual"@,
        Operator::Plus => "Plus"@,
        Operator::Minus => "Minus"@,
        Operator::Star => "Star"@,
        Operator::Slash => "Slash"@,
    }
}

/// The name of a prefix operator.
pub open spec fn unary_name(op: UnaryOperator) -> Seq<char> {
    match op {
        UnaryOperator::Minus(_) => "Minus(Minus)"@,
        UnaryOperator::Bang(_) => "Bang(Bang)"@,
    }
}

/// Whether a character is written with a backslash inside quotes.
pub open spec fn needs_escape(c: char) -> bool {
    c == '\\' || c == '"' || c == '\n' || c == '\r' || c == '\t' || c == '\0'
}

/// How a character is written inside quotes: backslash, quote, newline,
/// carriage return, tab and NUL with a backslash, others as they are.
pub open spec fn escape_char(c: char) -> Seq<char> {
    if c == '\\' {
        "\\\\"@
    } else if c == '"' {
        "\\\""@
    } else if c == '\n' {
        "\\n"@
    } else if c == '\r' {
        "\\r"@
    } else if c == '\t' {
        "\\t"@
    } else if c == '\0' {
        "\\0"@
    } else {
        seq![c]
    }
}

/// A text as written inside quotes.
pub open spec fn escaped(s: Seq<char>) -> Seq<char>
    decreases s.len(),
{
    if s.len() == 0 {
        seq![]
    } else {
        escaped(s.drop_last()) + escape_char(s.last())
    }
}

/// The canonical form of an expression: `Number(text)`, `Str("text")`,
/// `True`, `False`, `Nil` and `Identifier { name: "text" }` for literals and
/// names, `(group e)` for parentheses, and `(Op a)` / `(Op a b)` for
/// operators.
pub open spec fn canonical(e: Expression) -> Seq<char>
    decreases e,
{
    match e {
        Expression::Literal(Literal::Number(n)) => "Number("@ + n@ + ")"@,
        Expression::Literal(Literal::Str(s)) => "Str(\""@ + escaped(s@) + "\")"@,
        Expression::Literal(Literal::True) => "True"@,
        Expression::Literal(Literal::False) => "False"@,
        Expression::Literal(Literal::Nil) => "Nil"@,
        Expression::Grouping(inner) => "(group "@ + canonical(*inner) + ")"@,
        Expression::Unary { operator, right } => "("@ + unary_name(operator.token_type) + " "@
            + canonical(*right) + ")"@,
        Expression::Binary { left, operator, right } => "("@ + operator_name(operator.token_type)
            + " "@ + canonical(*left) + " "@ + canonical(*right) + ")"@,
        Expression::Identifier(id) => "Identifier { name: \""@ + escaped(id.name@) + "\" }"@,
    }
}

fn operator_name_exec(op: Operator) -> (r: &'static str)
    ensures
        r@ == operator_name(op),
{
    match op {
        Operator::EqualEqual => "EqualEqual",
        Operator::BangEqual => "BangEqual",
        Operator::Less => "Less",
        Operator::LessEqual => "LessEqual",
        Operator::Greater => "Greater",
        Operator::GreaterEqual => "GreaterEqual",
        Operator::Plus => "Plus",
        Operator::Minus => "Minus",
        Operator::Star => "Star",
        Operator::Slash => "Slash",
    }
}

fn escape_char_exec(c: char) -> (r: &'static str)
    requires
        needs_escape(c),
    ensures
        r@ == escape_char(c),
{
    if c == '\\' {
        "\\\\"
    } else if c == '"' {
        "\\\""
    } else if c == '\n' {
        "\\n"
    } else if c == '\r' {
        "\\r"
    } else if c == '\t' {
        "\\t"
    } else {
        "\\0"
    }
}

/// `text` as written inside quotes.
fn escape(text: &str) -> (r: String)
    ensures
        r@ == escaped(text@),
{
    let s = chars_of(text);
    let mut out = String::new();
    let mut seg: usize = 0;
    let mut i: usize = 0;
    assert(text@.take(0) =~= Seq::<char>::empty());
    assert(text@.subrange(0, 0) =~= Seq::<char>::empty());
    while i < s.len()
        invariant
            seg <= i <= s@.len(),
            s@ == text@,
            out@ + text@.subrange(seg as int, i as int) == escaped(text@.take(i as int)),
        decreases s@.len() - i,
    {
        let c = s[i];
        assert(text@.take(i + 1).drop_last() =~= text@.take(i as int));
        assert(text@.take(i + 1).last() == c);
        if c == '\\' || c == '"' || c == '\n' || c == '\r' || c == '\t' || c == '\0' {
            out.append(text.substring_char(seg, i));
            out.append(escape_char_exec(c));
            seg = i + 1;
            assert(text@.subrange(seg as int, i + 1) =~= Seq::<char>::empty());
        } else {
            assert(text@.subrange(seg as int, i + 1) =~= text@.subrange(seg as int, i as int).push(c));
        }
        i = i + 1;
    }
    out.append(text.substring_char(seg, i));
    assert(text@.take(i as int) =~= text@);
    out
}

/// Renders expressions in their canonical form.
pub struct ASTPrinter {}

impl ASTPrinter {
    pub fn new() -> (r: ASTPrinter) {
        ASTPrinter {  }
    }

    /// The canonical form of `expr`.
    pub fn print(&self, expr: &Expression) -> (r: String)
        ensures
            r@ == canonical(*expr),
        decreases expr,
    {
        match expr {
            Expression::Literal(Literal::Number(n)) => {
                let mut out = String::from_str("Number(");
                out.append(n.as_str());
                out.append(")");
                out
            },
            Expression::Literal(Literal::Str(s)) => {
                let mut out = String::from_str("Str(\"");
                out.append(escape(s.as_str()).as_str());
                out.append("\")");
                out
            },
            Expression::Literal(Literal::True) => String::from_str("True"),
            Expression::Literal(Literal::False) => String::from_str("False"),
            Expression::Literal(Literal::Nil) => String::from_str("Nil"),
            Expression::Grouping(inner) => {
                let mut out = String::from_str("(group ");
                out.append(self.print(inner).as_str());
                out.append(")");
                out
            },
            Expression::Unary { operator, right } => {
                let mut out = String::from_str("(");
                match operator.token_type {
                    UnaryOperator::Minus(_) => out.append("Minus(Minus)"),
                    UnaryOperator::Bang(_) => out.append("Bang(Bang)"),
                }
                out.append(" ");
                out.append(self.print(right).as_str());
                out.append(")");
                out
            },
            Expression::Binary { left, operator, right } => {
                let mut out = String::from_str("(");
                out.append(operator_name_exec(operator.token_type));
                out.append(" ");
                out.append(self.print(left).as_str());
                out.append(" ");
                out.append(self.print(right).as_str());
                out.append(")");
                out
            },
            Expression::Identifier(id) => {
                let mut out = String::from_str("Identifier { name: \"");
                out.append(escape(id.name.as_str()).as_str());
                out.append("\" }");
                out
            },
        }
    }
}

} // verus!
