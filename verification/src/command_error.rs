use vstd::prelude::*;

verus! {

/// A typed error produced when a store command cannot be applied.
#[derive(Eq, Hash, PartialEq, PartialOrd, Ord, Debug, Clone)]
pub enum CommandError {
    TodoAlreadyExists,
    TodoNotFound,
    InputInvalid(String),
}

impl CommandError {
    /// Renders this error as display text.
    pub fn to_string(&self) -> (r: String)
        ensures
            *self == CommandError::TodoAlreadyExists ==> r@ == "Todo already exists with that name"@,
            *self == CommandError::TodoNotFound ==> r@ == "Todo with that name not found"@,
            self matches CommandError::InputInvalid(m) ==> r@ == "Input invalid, "@ + m@,
    {
        match self {
            CommandError::TodoAlreadyExists => String::from_str("Todo already exists with that name"),
            CommandError::TodoNotFound => String::from_str("Todo with that name not found"),
            CommandError::InputInvalid(msg) => {
                let mut r = String::from_str("Input invalid, ");
                r.append(msg.as_str());
                r
            },
        }
    }
}

} // verus!
