//! The environment: the variables of one program run and their values.

use vstd::prelude::*;
use vstd::string::*;
use crate::interpreter::{RuntimeError, RuntimeErrorView};
use crate::value::{LoxObject, LoxValue};

verus! {

/// The value bound to `name` by the latest of `bindings` that names it.
pub open spec fn lookup(bindings: Seq<(Seq<char>, LoxValue)>, name: Seq<char>) -> Option<LoxValue>
    decreases bindings.len(),
{
    if bindings.len() == 0 {
        None
    } else if bindings.last().0 == name {
        Some(bindings.last().1)
    } else {
        lookup(bindings.drop_last(), name)
    }
}

/// The variables of a program run. Its view is the sequence of definitions
/// made, in order; a later definition of a name replaces an earlier one.
pub struct Environment {
    variables: Vec<(String, LoxObject)>,
}

impl View for Environment {
    type V = Seq<(Seq<char>, LoxValue)>;

    closed spec fn view(&self) -> Seq<(Seq<char>, LoxValue)> {
        self.variables@.map_values(|b: (String, LoxObject)| (b.0@, b.1@))
    }
}

impl Environment {
    /// An environment with no variables.
    pub fn new() -> (r: Environment)
        ensures
            r@ == Seq::<(Seq<char>, LoxValue)>::empty(),
    {
        let r = Environment { variables: Vec::new() };
        assert(r@ =~= Seq::<(Seq<char>, LoxValue)>::empty());
        r
    }

    /// Binds `name` to `value`, replacing any earlier binding of it.
    pub fn define(&mut self, name: &str, value: LoxObject)
        ensures
            final(self)@ == old(self)@.push((name@, value@)),
    {
        self.variables.push((String::from_str(name), value));
        assert(self@ =~= old(self)@.push((name@, value@)));
    }

    /// The value bound to `name`; an undefined-variable error where no
    /// definition names it.
    pub fn get(&self, name: &str) -> (r: Result<LoxObject, RuntimeError>)
        ensures
            match lookup(self@, name@) {
                Some(v) => r is Ok && r->Ok_0@ == v,
                None => r is Err && r->Err_0@ == RuntimeErrorView::UndefinedVariable(name@),
            },
    {
        let ghost s = self@;
        let key = String::from_str(name);
        let mut k: usize = self.variables.len();
        assert(s.take(k as int) =~= s);
        while k > 0
            invariant
                k <= self.variables@.len(),
                s == self@,
                key@ == name@,
                lookup(s, name@) == lookup(s.take(k as int), name@),
            decreases k,
        {
            assert(s.take(k as int).drop_last() =~= s.take(k - 1));
            if self.variables[k - 1].0 == key {
                return Ok(self.variables[k - 1].1.duplicate());
            }
            k = k - 1;
        }
        Err(RuntimeError::UndefinedVariable(key))
    }
}

} // verus!
