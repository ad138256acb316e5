use vstd::prelude::*;

use crate::argument_type::ArgumentType;
use crate::general::spec_string_to_bool;

verus! {

/// Describes one argument an action expects: a display name, the kind
/// of value wanted, and its position among the action's arguments.
/// Used when validating input and when prompting the user.
#[derive(Eq, Hash, PartialEq, PartialOrd, Ord, Debug, Clone)]
pub struct ActionArgument {
    pub name: String,
    pub arg_type: ArgumentType,
    pub order: usize,
}

impl ActionArgument {
    /// Whether the given input text is acceptable for this argument;
    /// forwards to the argument kind's own check.
    pub fn validate(&self, input: &str) -> (r: bool)
        ensures
            self.arg_type == ArgumentType::Boolean ==> r == (spec_string_to_bool(input@) is Some),
            self.arg_type == ArgumentType::String ==> r == (input@.len() > 0),
            self.arg_type == ArgumentType::ExistingTodo ==> r == (input@.len() > 0),
    {
        self.arg_type.validate(input)
    }

    /// An argument naming a record already in the store.
    pub fn existing(name: &str, order: usize) -> (r: Self)
        ensures
            r.name@ == name@,
            r.arg_type == ArgumentType::ExistingTodo,
            r.order == order,
    {
        ActionArgument { name: name.to_owned(), arg_type: ArgumentType::ExistingTodo, order }
    }

    /// A free-text argument.
    pub fn string(name: &str, order: usize) -> (r: Self)
        ensures
            r.name@ == name@,
            r.arg_type == ArgumentType::String,
            r.order == order,
    {
        ActionArgument { name: name.to_owned(), arg_type: ArgumentType::String, order }
    }

    /// A boolean argument.
    pub fn boolean(name: &str, order: usize) -> (r: Self)
        ensures
            r.name@ == name@,
            r.arg_type == ArgumentType::Boolean,
            r.order == order,
    {
        ActionArgument { name: name.to_owned(), arg_type: ArgumentType::Boolean, order }
    }
}

} // verus!
