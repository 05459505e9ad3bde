//! The symbol environment: lexical bindings from a name to a storage
//! location and its resolved type, looked up newest-binding-first.
use crate::resolver::Type;
use crate::util::str_eq;
use vstd::prelude::*;

verus! {

/// A storage location: currently always a function-local slot.
#[derive(Debug, Clone, Copy, PartialEq, Eq, Structural)]
pub enum Pointer {
    Local(u8),
}

/// A bound variable: where it lives and what type it has.
#[derive(Debug, Clone, Copy, PartialEq, Eq, Structural)]
pub struct Variable {
    pub pointer: Pointer,
    pub t: Type,
}

/// The scope of one function being emitted: its bindings in the order they
/// were made. A lookup walks newest to oldest, so a later binding shadows an
/// earlier one of the same name.
#[derive(Debug)]
pub struct Env {
    pub bindings: Vec<(String, Variable)>,
}

/// The variable `name` is bound to, the newest binding winning.
pub open spec fn spec_env_lookup(env: Seq<(Seq<char>, Variable)>, name: Seq<char>) -> Option<
    Variable,
>
    decreases env.len(),
{
    if env.len() == 0 {
        None
    } else if env.last().0 == name {
        Some(env.last().1)
    } else {
        spec_env_lookup(env.drop_last(), name)
    }
}

impl View for Env {
    type V = Seq<(Seq<char>, Variable)>;

    open spec fn view(&self) -> Seq<(Seq<char>, Variable)> {
        self.bindings@.map_values(|p: (String, Variable)| (p.0@, p.1))
    }
}

impl Env {
    /// An empty environment: the top level binds nothing.
    pub fn new() -> (r: Env)
        ensures
            r@ =~= Seq::<(Seq<char>, Variable)>::empty(),
    {
        Env { bindings: Vec::new() }
    }

    /// Binds `name` to `v`, shadowing any earlier binding of the name.
    pub fn set(&mut self, name: String, v: Variable)
        ensures
            final(self)@ =~= old(self)@.push((name@, v)),
    {
        self.bindings.push((name, v));
    }

    /// Looks `name` up, newest binding first.
    pub fn get(&self, name: &str) -> (r: Option<Variable>)
        ensures
            r == spec_env_lookup(self@, name@),
    {
        let mut i: usize = self.bindings.len();
        proof {
            assert(self@.take(i as int) =~= self@);
        }
        while i > 0
            invariant
                i <= self.bindings@.len(),
                spec_env_lookup(self@, name@) == spec_env_lookup(
                    self@.take(i as int),
                    name@,
                ),
            decreases i,
        {
            i = i - 1;
            let entry = &self.bindings[i];
            if str_eq(entry.0.as_str(), name) {
                proof {
                    assert(self@.take(i + 1).last() == (entry.0@, entry.1));
                }
                return Some(entry.1);
            }
            proof {
                assert(self@.take(i + 1).drop_last() =~= self@.take(i as int));
            }
        }
        proof {
            assert(self@.take(0) =~= Seq::<(Seq<char>, Variable)>::empty());
        }
        None
    }
}

} // verus!
