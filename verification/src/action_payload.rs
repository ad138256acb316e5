use vstd::prelude::*;

use crate::action_type::{spec_input_string, ActionType};

verus! {

/// A validated user intent, ready for the store to apply: the action
/// together with its already-checked arguments.
#[derive(Eq, Hash, PartialEq, PartialOrd, Ord, Debug, Clone)]
pub enum ActionPayload {
    Add(String),
    Clear,
    Edit(String, String),
    List,
    ListWithStatus(bool),
    Remove(String),
    SetStatus(String, bool),
    Other(String),
}

impl ActionPayload {
    /// The action this payload carries arguments for.
    pub fn get_action_type(&self) -> (r: ActionType)
        ensures
            r == self.spec_action_type(),
    {
        match self {
            ActionPayload::Add(_) => ActionType::Add,
            ActionPayload::Clear => ActionType::Clear,
            ActionPayload::Edit(_, _) => ActionType::Edit,
            ActionPayload::List => ActionType::List,
            ActionPayload::ListWithStatus(_) => ActionType::ListType,
            ActionPayload::Remove(_) => ActionType::Remove,
            ActionPayload::SetStatus(_, _) => ActionType::SetStatus,
            ActionPayload::Other(_) => ActionType::Other,
        }
    }

    /// The action this payload carries arguments for.
    pub open spec fn spec_action_type(&self) -> ActionType {
        match self {
            ActionPayload::Add(_) => ActionType::Add,
            ActionPayload::Clear => ActionType::Clear,
            ActionPayload::Edit(_, _) => ActionType::Edit,
            ActionPayload::List => ActionType::List,
            ActionPayload::ListWithStatus(_) => ActionType::ListType,
            ActionPayload::Remove(_) => ActionType::Remove,
            ActionPayload::SetStatus(_, _) => ActionType::SetStatus,
            ActionPayload::Other(_) => ActionType::Other,
        }
    }

    /// The command word a user types for this payload's action.
    pub fn input_cmd_string(&self) -> (r: String)
        ensures
            r@ == spec_input_string(self.spec_action_type()),
    {
        self.get_action_type().get_input_string()
    }

    /// How many arguments this payload's action expects.
    pub fn expected_arg_count(&self) -> (r: usize)
        ensures
            r == self.spec_action_type().spec_arg_count(),
    {
        self.get_action_type().get_arg_count()
    }
}

} // verus!
