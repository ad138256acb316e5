use vstd::prelude::*;

use crate::text::dec_rep;

verus! {

/// The ways user input can fail before it reaches the store.
#[derive(Eq, Hash, PartialEq, PartialOrd, Ord, Debug, Clone)]
pub enum InputError {
    /// The command entered was empty or not recognized; carries an
    /// optional message with more detail.
    InvalidCommand(Option<String>),
    /// The arguments given do not fit the command requested; carries
    /// an optional message with more detail.
    InvalidArgument(Option<String>),
}

impl InputError {
    /// An `InvalidCommand` explaining that a command cannot be empty.
    pub fn cmd_empty() -> (r: InputError)
        ensures
            r matches InputError::InvalidCommand(m) && m matches Some(t) && t@
                == "Command cannot be empty!"@,
    {
        InputError::bad_cmd_str("Command cannot be empty!")
    }

    /// An `InvalidCommand` naming the unrecognized command entered.
    pub fn cmd_unknown(input: &str) -> (r: InputError)
        ensures
            r matches InputError::InvalidCommand(m) && m matches Some(t) && t@
                == "Unknown command \""@ + input@ + "\""@,
    {
        let mut msg = String::from_str("Unknown command \"");
        msg.append(input);
        msg.append("\"");
        InputError::bad_cmd_with(msg)
    }

    /// An `InvalidArgument` contrasting the received argument count
    /// with the expected one.
    pub fn bad_arg_count(received: usize, expected: usize) -> (r: InputError)
        ensures
            r matches InputError::InvalidArgument(m) && m matches Some(t) && t@
                == "Invalid number of arguments given! Given = "@ + dec_rep(received as nat)
                + " Expected = "@ + dec_rep(expected as nat),
    {
        let mut msg = String::from_str("Invalid number of arguments given! Given = ");
        msg.append(crate::text::u64_to_dec(received as u64).as_str());
        msg.append(" Expected = ");
        msg.append(crate::text::u64_to_dec(expected as u64).as_str());
        InputError::bad_arg_with(msg)
    }

    /// A bare `InvalidCommand` with no message.
    pub fn bad_cmd() -> (r: InputError)
        ensures
            r == InputError::InvalidCommand(None),
    {
        InputError::InvalidCommand(None)
    }

    /// An `InvalidCommand` with the given message.
    pub fn bad_cmd_with(msg: String) -> (r: InputError)
        ensures
            r == InputError::InvalidCommand(Some(msg)),
    {
        InputError::InvalidCommand(Some(msg))
    }

    /// An `InvalidCommand` with the given message text.
    pub fn bad_cmd_str(msg: &str) -> (r: InputError)
        ensures
            r matches InputError::InvalidCommand(m) && m matches Some(t) && t@ == msg@,
    {
        InputError::InvalidCommand(Some(msg.to_owned()))
    }

    /// A bare `InvalidArgument` with no message.
    pub fn bad_arg() -> (r: InputError)
        ensures
            r == InputError::InvalidArgument(None),
    {
        InputError::InvalidArgument(None)
    }

    /// An `InvalidArgument` with the given message.
    pub fn bad_arg_with(msg: String) -> (r: InputError)
        ensures
            r == InputError::InvalidArgument(Some(msg)),
    {
        InputError::InvalidArgument(Some(msg))
    }

    /// An `InvalidArgument` with the given message text.
    pub fn bad_arg_str(msg: &str) -> (r: InputError)
        ensures
            r matches InputError::InvalidArgument(m) && m matches Some(t) && t@ == msg@,
    {
        InputError::InvalidArgument(Some(msg.to_owned()))
    }

    /// Renders this error as display text.
    pub fn to_string(&self) -> (r: String)
        ensures
            *self == InputError::InvalidCommand(None::<String>) ==> r@ == "Invalid Command"@,
            self matches InputError::InvalidCommand(Some(m)) ==> r@ == "Invalid Command: "@ + m@,
            *self == InputError::InvalidArgument(None::<String>) ==> r@ == "Invalid Argument"@,
            self matches InputError::InvalidArgument(Some(m)) ==> r@ == "Invalid Argument: "@
                + m@,
    {
        match self {
            InputError::InvalidCommand(msg) => match msg {
                Some(m) => {
                    let mut r = String::from_str("Invalid Command: ");
                    r.append(m.as_str());
                    r
                },
                None => String::from_str("Invalid Command"),
            },
            InputError::InvalidArgument(msg) => match msg {
                Some(m) => {
                    let mut r = String::from_str("Invalid Argument: ");
                    r.append(m.as_str());
                    r
                },
                None => String::from_str("Invalid Argument"),
            },
        }
    }
}

} // verus!
