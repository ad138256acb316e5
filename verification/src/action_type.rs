use vstd::prelude::*;

use crate::action_argument::ActionArgument;
use crate::action_payload::ActionPayload;
use crate::argument_type::ArgumentType;
use crate::general::{spec_string_to_bool, string_to_bool};
use crate::input_error::InputError;
use crate::text::{dec_rep, str_cmp, u64_to_dec, KeyOrder};

verus! {

/// The actions that can be asked of the record store.
#[derive(Eq, Hash, PartialEq, PartialOrd, Ord, Debug, Clone, Copy, Structural)]
pub enum ActionType {
    Add,
    Clear,
    Edit,
    List,
    ListType,
    Remove,
    SetStatus,
    Other,
}

/// The display name of each action.
pub open spec fn spec_action_name(a: ActionType) -> Seq<char> {
    match a {
        ActionType::Add => "Add"@,
        ActionType::Clear => "Clear"@,
        ActionType::Edit => "Edit"@,
        ActionType::List => "List"@,
        ActionType::ListType => "ListType"@,
        ActionType::Remove => "Remove"@,
        ActionType::SetStatus => "Set"@,
        ActionType::Other => "Other"@,
    }
}

/// The command word a user types for each action.
pub open spec fn spec_input_string(a: ActionType) -> Seq<char> {
    match a {
        ActionType::Add => "add"@,
        ActionType::Clear => "clear"@,
        ActionType::Edit => "edit"@,
        ActionType::List => "ls"@,
        ActionType::ListType => "lss"@,
        ActionType::Remove => "rm"@,
        ActionType::SetStatus => "set"@,
        ActionType::Other => "secret"@,
    }
}

/// Every action, in presentation order.
pub open spec fn spec_all_actions() -> Seq<ActionType> {
    seq![
        ActionType::Add,
        ActionType::Clear,
        ActionType::Edit,
        ActionType::List,
        ActionType::ListType,
        ActionType::Remove,
        ActionType::SetStatus,
        ActionType::Other,
    ]
}

impl ActionType {
    /// How many arguments each action expects.
    pub open spec fn spec_arg_count(&self) -> usize {
        match self {
            ActionType::Add => 1,
            ActionType::Clear => 0,
            ActionType::Edit => 2,
            ActionType::List => 0,
            ActionType::ListType => 1,
            ActionType::Remove => 1,
            ActionType::SetStatus => 2,
            ActionType::Other => 1,
        }
    }

    /// Reads a typed command word. An empty word and an unknown word
    /// fail as invalid commands, each with its own message.
    pub fn try_parse_cmd(s: &str) -> (r: Result<Self, InputError>)
        ensures
            s@ == "add"@ ==> r == Ok::<ActionType, InputError>(ActionType::Add),
            s@ == "clear"@ ==> r == Ok::<ActionType, InputError>(ActionType::Clear),
            s@ == "edit"@ ==> r == Ok::<ActionType, InputError>(ActionType::Edit),
            s@ == "ls"@ ==> r == Ok::<ActionType, InputError>(ActionType::List),
            s@ == "lss"@ ==> r == Ok::<ActionType, InputError>(ActionType::ListType),
            s@ == "rm"@ ==> r == Ok::<ActionType, InputError>(ActionType::Remove),
            s@ == "set"@ ==> r == Ok::<ActionType, InputError>(ActionType::SetStatus),
            s@.len() == 0 ==> (r matches Err(e) && e matches InputError::InvalidCommand(m)
                && m matches Some(t) && t@ == "Command cannot be empty!"@),
            s@ != "add"@ && s@ != "clear"@ && s@ != "edit"@ && s@ != "ls"@ && s@ != "lss"@ && s@
                != "rm"@ && s@ != "set"@ && s@.len() > 0 ==> (r matches Err(e) && e matches
                InputError::InvalidCommand(m) && m matches Some(t) && t@ == "Unknown command \""@
                + s@ + "\""@),
    {
        proof {
            reveal_strlit("add");
            reveal_strlit("clear");
            reveal_strlit("edit");
            reveal_strlit("ls");
            reveal_strlit("lss");
            reveal_strlit("rm");
            reveal_strlit("set");
        }
        if str_cmp(s, "add") == KeyOrder::Equal {
            Ok(ActionType::Add)
        } else if str_cmp(s, "clear") == KeyOrder::Equal {
            Ok(ActionType::Clear)
        } else if str_cmp(s, "edit") == KeyOrder::Equal {
            Ok(ActionType::Edit)
        } else if str_cmp(s, "ls") == KeyOrder::Equal {
            Ok(ActionType::List)
        } else if str_cmp(s, "lss") == KeyOrder::Equal {
            Ok(ActionType::ListType)
        } else if str_cmp(s, "rm") == KeyOrder::Equal {
            Ok(ActionType::Remove)
        } else if str_cmp(s, "set") == KeyOrder::Equal {
            Ok(ActionType::SetStatus)
        } else if s.is_empty() {
            Err(InputError::cmd_empty())
        } else {
            Err(InputError::cmd_unknown(s))
        }
    }

    /// Reads a typed action name, as `get_action_name` renders it; an
    /// unknown name fails as an invalid command.
    pub fn try_parse_name(s: &str) -> (r: Result<Self, InputError>)
        ensures
            s@ == "Add"@ ==> r == Ok::<ActionType, InputError>(ActionType::Add),
            s@ == "Clear"@ ==> r == Ok::<ActionType, InputError>(ActionType::Clear),
            s@ == "Edit"@ ==> r == Ok::<ActionType, InputError>(ActionType::Edit),
            s@ == "List"@ ==> r == Ok::<ActionType, InputError>(ActionType::List),
            s@ == "ListType"@ ==> r == Ok::<ActionType, InputError>(ActionType::ListType),
            s@ == "Remove"@ ==> r == Ok::<ActionType, InputError>(ActionType::Remove),
            s@ == "Set"@ ==> r == Ok::<ActionType, InputError>(ActionType::SetStatus),
            s@ != "Add"@ && s@ != "Clear"@ && s@ != "Edit"@ && s@ != "List"@ && s@ != "ListType"@
                && s@ != "Remove"@ && s@ != "Set"@ ==> (r matches Err(e) && e matches
                InputError::InvalidCommand(m) && m matches Some(t) && t@ == "Unknown action type \""@
                + s@ + "\""@),
    {
        proof {
            reveal_strlit("Add");
            reveal_strlit("Clear");
            reveal_strlit("Edit");
            reveal_strlit("List");
            reveal_strlit("ListType");
            reveal_strlit("Remove");
            reveal_strlit("Set");
        }
        if str_cmp(s, "Add") == KeyOrder::Equal {
            Ok(ActionType::Add)
        } else if str_cmp(s, "Clear") == KeyOrder::Equal {
            Ok(ActionType::Clear)
        } else if str_cmp(s, "Edit") == KeyOrder::Equal {
            Ok(ActionType::Edit)
        } else if str_cmp(s, "List") == KeyOrder::Equal {
            Ok(ActionType::List)
        } else if str_cmp(s, "ListType") == KeyOrder::Equal {
            Ok(ActionType::ListType)
        } else if str_cmp(s, "Remove") == KeyOrder::Equal {
            Ok(ActionType::Remove)
        } else if str_cmp(s, "Set") == KeyOrder::Equal {
            Ok(ActionType::SetStatus)
        } else {
            let mut msg = String::from_str("Unknown action type \"");
            msg.append(s);
            msg.append("\"");
            Err(InputError::bad_cmd_with(msg))
        }
    }

    /// Builds the validated payload for this action from raw argument
    /// text. Fails as an invalid argument when the count is wrong,
    /// when a required text is empty, or when a boolean does not
    /// parse; each failure carries its own message.
    pub fn try_create_payload(&self, args: &Vec<String>) -> (r: Result<ActionPayload, InputError>)
        ensures
            args@.len() != self.spec_arg_count() ==> (r matches Err(e) && e matches
                InputError::InvalidArgument(m) && m matches Some(t) && t@
                == "Invalid argument count - the \""@ + spec_input_string(*self)
                + "\" command expects "@ + dec_rep(self.spec_arg_count() as nat) + " argument"@ + (
            if self.spec_arg_count() > 1 {
                "s"@
            } else {
                Seq::<char>::empty()
            }) + ", but "@ + dec_rep(args@.len() as nat) + (if args@.len() == 1 {
                " was received."@
            } else {
                " were received."@
            })),
            *self == ActionType::Add && args@.len() == 1 && args@[0]@.len() == 0 ==> r == Err::<
                ActionPayload,
                InputError,
            >(InputError::InvalidArgument(None)),
            *self == ActionType::Add && args@.len() == 1 && args@[0]@.len() > 0 ==> (r matches Ok(
                p,
            ) && p matches ActionPayload::Add(t) && t@ == args@[0]@),
            *self == ActionType::Clear && args@.len() == 0 ==> r == Ok::<ActionPayload, InputError>(
                ActionPayload::Clear,
            ),
            *self == ActionType::Edit && args@.len() == 2 && (args@[0]@.len() == 0 || args@[1]@.len()
                == 0) ==> (r matches Err(e) && e matches InputError::InvalidArgument(m)
                && m matches Some(t) && t@ == "Edit cannot be passed empty strings"@),
            *self == ActionType::Edit && args@.len() == 2 && args@[0]@.len() > 0 && args@[1]@.len()
                > 0 ==> (r matches Ok(p) && p matches ActionPayload::Edit(a, b) && a@ == args@[0]@
                && b@ == args@[1]@),
            *self == ActionType::List && args@.len() == 0 ==> r == Ok::<ActionPayload, InputError>(
                ActionPayload::List,
            ),
            *self == ActionType::ListType && args@.len() == 1 ==> (match spec_string_to_bool(
                args@[0]@,
            ) {
                Some(b) => r == Ok::<ActionPayload, InputError>(ActionPayload::ListWithStatus(b)),
                None => (r matches Err(e) && e matches InputError::InvalidArgument(m)
                    && m matches Some(t) && t@ == "Unable to parse \""@ + args@[0]@
                    + "\" to valid boolean value."@),
            }),
            *self == ActionType::Remove && args@.len() == 1 && args@[0]@.len() == 0 ==> r == Err::<
                ActionPayload,
                InputError,
            >(InputError::InvalidArgument(None)),
            *self == ActionType::Remove && args@.len() == 1 && args@[0]@.len() > 0 ==> (r matches Ok(
                p,
            ) && p matches ActionPayload::Remove(t) && t@ == args@[0]@),
            *self == ActionType::SetStatus && args@.len() == 2 ==> (match spec_string_to_bool(
                args@[1]@,
            ) {
                Some(b) => (r matches Ok(p) && p matches ActionPayload::SetStatus(k, v) && k@
                    == args@[0]@ && v == b),
                None => (r matches Err(e) && e matches InputError::InvalidArgument(m)
                    && m matches Some(t) && t@ == "Unable to parse \""@ + args@[1]@
                    + "\" to valid boolean value."@),
            }),
            *self == ActionType::Other && args@.len() == 1 ==> (r matches Ok(p) && p matches
                ActionPayload::Other(t) && t@ == args@[0]@),
    {
        if self.get_arg_count() != args.len() {
            return Err(self.arg_count_error(args.len()));
        }
        match self {
            ActionType::Add => {
                if args[0].as_str().is_empty() {
                    Err(InputError::bad_arg())
                } else {
                    Ok(ActionPayload::Add(args[0].clone()))
                }
            },
            ActionType::Clear => Ok(ActionPayload::Clear),
            ActionType::Edit => {
                if args[0].as_str().is_empty() || args[1].as_str().is_empty() {
                    Err(InputError::bad_arg_str("Edit cannot be passed empty strings"))
                } else {
                    Ok(ActionPayload::Edit(args[0].clone(), args[1].clone()))
                }
            },
            ActionType::List => Ok(ActionPayload::List),
            ActionType::ListType => match string_to_bool(args[0].as_str()) {
                Some(lss_value) => Ok(ActionPayload::ListWithStatus(lss_value)),
                None => {
                    let mut msg = String::from_str("Unable to parse \"");
                    msg.append(args[0].as_str());
                    msg.append("\" to valid boolean value.");
                    Err(InputError::bad_arg_with(msg))
                },
            },
            ActionType::Remove => {
                if args[0].as_str().is_empty() {
                    Err(InputError::bad_arg())
                } else {
                    Ok(ActionPayload::Remove(args[0].clone()))
                }
            },
            ActionType::SetStatus => match string_to_bool(args[1].as_str()) {
                Some(set_value) => Ok(ActionPayload::SetStatus(args[0].clone(), set_value)),
                None => {
                    let mut msg = String::from_str("Unable to parse \"");
                    msg.append(args[1].as_str());
                    msg.append("\" to valid boolean value.");
                    Err(InputError::bad_arg_with(msg))
                },
            },
            ActionType::Other => Ok(ActionPayload::Other(args[0].clone())),
        }
    }

    /// The arguments this action asks the user for, in order.
    pub fn get_arguments(&self) -> (r: Vec<ActionArgument>)
        ensures
            r@.len() == self.spec_arg_count(),
            forall|i: int| 0 <= i < r@.len() ==> r@[i].order == i,
            *self == ActionType::Add ==> r@[0].arg_type == ArgumentType::String && r@[0].name@
                == "todo"@,
            *self == ActionType::Edit ==> r@[0].arg_type == ArgumentType::ExistingTodo
                && r@[0].name@ == "todo"@ && r@[1].arg_type == ArgumentType::String && r@[1].name@
                == "new text"@,
            *self == ActionType::ListType ==> r@[0].arg_type == ArgumentType::Boolean
                && r@[0].name@ == "status"@,
            *self == ActionType::Remove ==> r@[0].arg_type == ArgumentType::ExistingTodo
                && r@[0].name@ == "todo"@,
            *self == ActionType::SetStatus ==> r@[0].arg_type == ArgumentType::ExistingTodo
                && r@[0].name@ == "todo"@ && r@[1].arg_type == ArgumentType::Boolean && r@[1].name@
                == "status"@,
            *self == ActionType::Other ==> r@[0].arg_type == ArgumentType::String && r@[0].name@
                == "input"@,
    {
        let mut r: Vec<ActionArgument> = Vec::new();
        match self {
            ActionType::Add => {
                r.push(ActionArgument::string("todo", 0));
            },
            ActionType::Clear => {},
            ActionType::Edit => {
                r.push(ActionArgument::existing("todo", 0));
                r.push(ActionArgument::string("new text", 1));
            },
            ActionType::List => {},
            ActionType::ListType => {
                r.push(ActionArgument::boolean("status", 0));
            },
            ActionType::Remove => {
                r.push(ActionArgument::existing("todo", 0));
            },
            ActionType::SetStatus => {
                r.push(ActionArgument::existing("todo", 0));
                r.push(ActionArgument::boolean("status", 1));
            },
            ActionType::Other => {
                r.push(ActionArgument::string("input", 0));
            },
        }
        r
    }

    /// The display name of this action.
    pub fn get_action_name(&self) -> (r: String)
        ensures
            r@ == spec_action_name(*self),
    {
        match self {
            ActionType::Add => String::from_str("Add"),
            ActionType::Clear => String::from_str("Clear"),
            ActionType::Edit => String::from_str("Edit"),
            ActionType::List => String::from_str("List"),
            ActionType::ListType => String::from_str("ListType"),
            ActionType::Remove => String::from_str("Remove"),
            ActionType::SetStatus => String::from_str("Set"),
            ActionType::Other => String::from_str("Other"),
        }
    }

    /// The command word a user types for this action.
    pub fn get_input_string(&self) -> (r: String)
        ensures
            r@ == spec_input_string(*self),
    {
        match self {
            ActionType::Add => String::from_str("add"),
            ActionType::Clear => String::from_str("clear"),
            ActionType::Edit => String::from_str("edit"),
            ActionType::List => String::from_str("ls"),
            ActionType::ListType => String::from_str("lss"),
            ActionType::Remove => String::from_str("rm"),
            ActionType::SetStatus => String::from_str("set"),
            ActionType::Other => String::from_str("secret"),
        }
    }

    /// How many arguments this action expects.
    pub fn get_arg_count(&self) -> (r: usize)
        ensures
            r == self.spec_arg_count(),
    {
        match self {
            ActionType::Add => 1,
            ActionType::Clear => 0,
            ActionType::Edit => 2,
            ActionType::List => 0,
            ActionType::ListType => 1,
            ActionType::Remove => 1,
            ActionType::SetStatus => 2,
            ActionType::Other => 1,
        }
    }

    /// An `InvalidArgument` contrasting this action's expected
    /// argument count with the count received.
    pub fn arg_count_error(&self, input_count: usize) -> (r: InputError)
        ensures
            r matches InputError::InvalidArgument(m) && m matches Some(t) && t@
                == "Invalid argument count - the \""@ + spec_input_string(*self)
                + "\" command expects "@ + dec_rep(self.spec_arg_count() as nat) + " argument"@ + (
            if self.spec_arg_count() > 1 {
                "s"@
            } else {
                Seq::<char>::empty()
            }) + ", but "@ + dec_rep(input_count as nat) + (if input_count == 1 {
                " was received."@
            } else {
                " were received."@
            }),
    {
        let mut msg = String::from_str("Invalid argument count - the \"");
        msg.append(self.get_input_string().as_str());
        msg.append("\" command expects ");
        let count = self.get_arg_count();
        msg.append(u64_to_dec(count as u64).as_str());
        msg.append(" argument");
        if count > 1 {
            msg.append("s");
        } else {
            proof {
                assert(msg@ + Seq::<char>::empty() =~= msg@);
            }
        }
        msg.append(", but ");
        msg.append(u64_to_dec(input_count as u64).as_str());
        if input_count == 1 {
            msg.append(" was received.");
        } else {
            msg.append(" were received.");
        }
        InputError::bad_arg_with(msg)
    }

    /// Every action, in presentation order.
    pub fn all_actions() -> (r: Vec<ActionType>)
        ensures
            r@ == spec_all_actions(),
    {
        let mut r: Vec<ActionType> = Vec::new();
        r.push(ActionType::Add);
        r.push(ActionType::Clear);
        r.push(ActionType::Edit);
        r.push(ActionType::List);
        r.push(ActionType::ListType);
        r.push(ActionType::Remove);
        r.push(ActionType::SetStatus);
        r.push(ActionType::Other);
        proof {
            assert(r@ =~= spec_all_actions());
        }
        r
    }

    /// The display name of every action, in presentation order.
    pub fn all_action_names() -> (r: Vec<String>)
        ensures
            r@.len() == spec_all_actions().len(),
            forall|i: int| #![auto]
                0 <= i < r@.len() ==> r@[i]@ == spec_action_name(spec_all_actions()[i]),
    {
        let actions = ActionType::all_actions();
        let mut r: Vec<String> = Vec::new();
        let mut i: usize = 0;
        while i < actions.len()
            invariant
                actions@ == spec_all_actions(),
                i <= actions@.len(),
                r@.len() == i,
                forall|j: int| #![auto]
                    0 <= j < i ==> r@[j]@ == spec_action_name(spec_all_actions()[j]),
            decreases actions@.len() - i,
        {
            r.push(actions[i].get_action_name());
            i += 1;
        }
        r
    }
}

} // verus!
