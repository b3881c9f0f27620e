//! Runtime values.
//!
//! Numbers are single-precision floats. This library does not compute with
//! them: a number is kept as the expression over decimal literals that
//! produces it, and a boolean whose value depends on numbers is kept as the
//! comparison that decides it. Everything else about a value (its kind, the
//! text of a string, a boolean known without numbers) is exact.

use vstd::prelude::*;

verus! {

/// An arithmetic operation on numbers.
#[derive(Debug, Clone, Copy, PartialEq, Eq, Structural)]
pub enum Arithmetic {
    Add,
    Subtract,
    Multiply,
    Divide,
}

/// An ordering test on numbers.
#[derive(Debug, Clone, Copy, PartialEq, Eq, Structural)]
pub enum Comparison {
    Greater,
    GreaterEqual,
    Less,
    LessEqual,
}

/// A number, as the decimal literals and operations that produce it.
#[derive(Debug, PartialEq)]
pub enum Number {
    /// The number a decimal literal denotes.
    Literal(String),
    Negate(Box<Number>),
    Arithmetic(Box<Number>, Arithmetic, Box<Number>),
}

/// A boolean: known, or decided by numbers.
#[derive(Debug, PartialEq)]
pub enum Truth {
    Known(bool),
    Not(Box<Truth>),
    Compare(Box<Number>, Comparison, Box<Number>),
    /// Whether two numbers are equal.
    NumbersEqual(Box<Number>, Box<Number>),
    /// Whether two booleans are equal.
    TruthsEqual(Box<Truth>, Box<Truth>),
}

/// A runtime value.
#[derive(Debug, PartialEq)]
pub enum LoxObject {
    Number(Number),
    Str(String),
    Boolean(Truth),
    Nil,
}

/// A runtime value with the text of a string as a sequence of characters.
pub enum LoxValue {
    Number(Number),
    Str(Seq<char>),
    Boolean(Truth),
    Nil,
}

impl View for LoxObject {
    type V = LoxValue;

    open spec fn view(&self) -> LoxValue {
        match self {
            LoxObject::Number(n) => LoxValue::Number(*n),
            LoxObject::Str(s) => LoxValue::Str(s@),
            LoxObject::Boolean(t) => LoxValue::Boolean(*t),
            LoxObject::Nil => LoxValue::Nil,
        }
    }
}

/// The negation of a boolean: known where the boolean is.
pub open spec fn negate(t: Truth) -> Truth {
    match t {
        Truth::Known(b) => Truth::Known(!b),
        _ => Truth::Not(Box::new(t)),
    }
}

/// Truthiness: `nil` and `false` are false, every other value is true.
pub open spec fn truth(v: LoxValue) -> Truth {
    match v {
        LoxValue::Nil => Truth::Known(false),
        LoxValue::Boolean(t) => t,
        _ => Truth::Known(true),
    }
}

/// Whether two values are equal: values of different kinds never are.
pub open spec fn equal(a: LoxValue, b: LoxValue) -> Truth {
    match (a, b) {
        (LoxValue::Number(x), LoxValue::Number(y)) => Truth::NumbersEqual(Box::new(x), Box::new(y)),
        (LoxValue::Str(x), LoxValue::Str(y)) => Truth::Known(x == y),
        (LoxValue::Boolean(x), LoxValue::Boolean(y)) => match (x, y) {
            (Truth::Known(p), Truth::Known(q)) => Truth::Known(p == q),
            _ => Truth::TruthsEqual(Box::new(x), Box::new(y)),
        },
        (LoxValue::Nil, LoxValue::Nil) => Truth::Known(true),
        _ => Truth::Known(false),
    }
}

/// Whether a value is of the same kind as another.
pub open spec fn same_kind(a: LoxValue, b: LoxValue) -> bool {
    (a is Number && b is Number) || (a is Str && b is Str) || (a is Boolean && b is Boolean) || (
    a is Nil && b is Nil)
}

impl Number {
    /// A copy of this number.
    pub fn duplicate(&self) -> (r: Number)
        ensures
            r == *self,
        decreases self,
    {
        match self {
            Number::Literal(s) => Number::Literal(s.clone()),
            Number::Negate(n) => Number::Negate(Box::new((**n).duplicate())),
            Number::Arithmetic(l, op, r) => Number::Arithmetic(
                Box::new((**l).duplicate()),
                *op,
                Box::new((**r).duplicate()),
            ),
        }
    }
}

impl Truth {
    /// A copy of this boolean.
    pub fn duplicate(&self) -> (r: Truth)
        ensures
            r == *self,
        decreases self,
    {
        match self {
            Truth::Known(b) => Truth::Known(*b),
            Truth::Not(t) => Truth::Not(Box::new((**t).duplicate())),
            Truth::Compare(l, op, r) => Truth::Compare(
                Box::new((**l).duplicate()),
                *op,
                Box::new((**r).duplicate()),
            ),
            Truth::NumbersEqual(l, r) => Truth::NumbersEqual(
                Box::new((**l).duplicate()),
                Box::new((**r).duplicate()),
            ),
            Truth::TruthsEqual(l, r) => Truth::TruthsEqual(
                Box::new((**l).duplicate()),
                Box::new((**r).duplicate()),
            ),
        }
    }

    /// The negation of this boolean.
    pub fn negated(self) -> (r: Truth)
        ensures
            r == negate(self),
    {
        match self {
            Truth::Known(b) => Truth::Known(!b),
            t => Truth::Not(Box::new(t)),
        }
    }
}

impl LoxObject {
    /// A copy of this value.
    pub fn duplicate(&self) -> (r: LoxObject)
        ensures
            r@ == self@,
    {
        match self {
            LoxObject::Number(n) => LoxObject::Number(n.duplicate()),
            LoxObject::Str(s) => LoxObject::Str(s.clone()),
            LoxObject::Boolean(t) => LoxObject::Boolean(t.duplicate()),
            LoxObject::Nil => LoxObject::Nil,
        }
    }

    /// The truthiness of this value.
    pub fn truth(self) -> (r: Truth)
        ensures
            r == truth(self@),
    {
        match self {
            LoxObject::Nil => Truth::Known(false),
            LoxObject::Boolean(t) => t,
            _ => Truth::Known(true),
        }
    }

    /// Whether this value equals another.
    pub fn equals(self, other: LoxObject) -> (r: Truth)
        ensures
            r == equal(self@, other@),
    {
        match (self, other) {
            (LoxObject::Number(x), LoxObject::Number(y)) => Truth::NumbersEqual(
                Box::new(x),
                Box::new(y),
            ),
            (LoxObject::Str(x), LoxObject::Str(y)) => Truth::Known(x == y),
            (LoxObject::Boolean(x), LoxObject::Boolean(y)) => match (x, y) {
                (Truth::Known(p), Truth::Known(q)) => Truth::Known(p == q),
                (x, y) => Truth::TruthsEqual(Box::new(x), Box::new(y)),
            },
            (LoxObject::Nil, LoxObject::Nil) => Truth::Known(true),
            _ => Truth::Known(false),
        }
    }
}

} // verus!
