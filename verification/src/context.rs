//! The extensions that a service call is made in.
use crate::extensions::{contents, held_clone, Held};
use vstd::prelude::*;

verus! {

/// What travels with a call beside its message.
pub struct Context {
    pub extensions: http::Extensions,
}

impl Context {
    /// A context with the given extensions.
    pub fn new(extensions: http::Extensions) -> (context: Self)
        ensures
            context.extensions == extensions,
    {
        Self { extensions }
    }
}

impl Default for Context {
    /// A context without extensions.
    fn default() -> (context: Self)
        ensures
            contents(context.extensions) == Held::empty(),
    {
        Context { extensions: http::Extensions::new() }
    }
}

impl Clone for Context {
    /// A context with a clone of every extension.
    fn clone(&self) -> (copy: Self)
        ensures
            held_clone(contents(self.extensions), contents(copy.extensions)),
    {
        Context { extensions: self.extensions.clone() }
    }
}

} // verus!
