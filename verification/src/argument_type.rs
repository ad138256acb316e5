use vstd::prelude::*;

use crate::general::{spec_string_to_bool, string_to_bool};

verus! {

/// The kinds of argument an action can ask the user for.
#[derive(Eq, Hash, PartialEq, PartialOrd, Ord, Debug, Clone)]
pub enum ArgumentType {
    /// A boolean argument, read with [`string_to_bool`], which accepts
    /// the usual human spellings of yes and no in any ASCII letter case.
    Boolean,
    /// A free-text argument; the only demand is that it is non-empty.
    String,
    /// The name of a record already in the store; the store lookup
    /// itself happens later, so here the only demand is non-emptiness.
    ExistingTodo,
}

impl ArgumentType {
    /// Whether the given input text is acceptable for this kind of
    /// argument.
    pub fn validate(&self, input: &str) -> (r: bool)
        ensures
            *self == ArgumentType::Boolean ==> r == (spec_string_to_bool(input@) is Some),
            *self == ArgumentType::String ==> r == (input@.len() > 0),
            *self == ArgumentType::ExistingTodo ==> r == (input@.len() > 0),
    {
        match self {
            ArgumentType::Boolean => string_to_bool(input).is_some(),
            ArgumentType::String => !input.is_empty(),
            ArgumentType::ExistingTodo => !input.is_empty(),
        }
    }
}

} // verus!
