use things_todo::action_argument::ActionArgument;
use things_todo::action_payload::ActionPayload;
use things_todo::action_type::ActionType;
use things_todo::argument_type::ArgumentType;
use things_todo::general::{s, string_to_bool};
use things_todo::input_error::InputError;

#[test]
fn command_words_parse() {
    assert_eq!(ActionType::try_parse_cmd("add"), Ok(ActionType::Add));
    assert_eq!(ActionType::try_parse_cmd("clear"), Ok(ActionType::Clear));
    assert_eq!(ActionType::try_parse_cmd("edit"), Ok(ActionType::Edit));
    assert_eq!(ActionType::try_parse_cmd("ls"), Ok(ActionType::List));
    assert_eq!(ActionType::try_parse_cmd("lss"), Ok(ActionType::ListType));
    assert_eq!(ActionType::try_parse_cmd("rm"), Ok(ActionType::Remove));
    assert_eq!(ActionType::try_parse_cmd("set"), Ok(ActionType::SetStatus));
}

#[test]
fn empty_and_unknown_commands_fail() {
    assert_eq!(
        ActionType::try_parse_cmd(""),
        Err(InputError::InvalidCommand(Some(
            "Command cannot be empty!".to_string()
        )))
    );
    assert_eq!(
        ActionType::try_parse_cmd("frobnicate"),
        Err(InputError::InvalidCommand(Some(
            "Unknown command \"frobnicate\"".to_string()
        )))
    );
}

#[test]
fn action_names_parse() {
    assert_eq!(ActionType::try_parse_name("Add"), Ok(ActionType::Add));
    assert_eq!(ActionType::try_parse_name("ListType"), Ok(ActionType::ListType));
    assert_eq!(ActionType::try_parse_name("Set"), Ok(ActionType::SetStatus));
    assert_eq!(
        ActionType::try_parse_name("Nonsense"),
        Err(InputError::InvalidCommand(Some(
            "Unknown action type \"Nonsense\"".to_string()
        )))
    );
}

#[test]
fn payloads_carry_their_arguments() {
    assert_eq!(
        ActionType::Add.try_create_payload(&vec!["todo text".to_string()]),
        Ok(ActionPayload::Add("todo text".to_string()))
    );
    assert_eq!(
        ActionType::Clear.try_create_payload(&vec![]),
        Ok(ActionPayload::Clear)
    );
    assert_eq!(
        ActionType::Edit.try_create_payload(&vec!["a".to_string(), "b".to_string()]),
        Ok(ActionPayload::Edit("a".to_string(), "b".to_string()))
    );
    assert_eq!(
        ActionType::List.try_create_payload(&vec![]),
        Ok(ActionPayload::List)
    );
    assert_eq!(
        ActionType::ListType.try_create_payload(&vec!["yes".to_string()]),
        Ok(ActionPayload::ListWithStatus(true))
    );
    assert_eq!(
        ActionType::Remove.try_create_payload(&vec!["a".to_string()]),
        Ok(ActionPayload::Remove("a".to_string()))
    );
    assert_eq!(
        ActionType::SetStatus.try_create_payload(&vec!["a".to_string(), "no".to_string()]),
        Ok(ActionPayload::SetStatus("a".to_string(), false))
    );
    assert_eq!(
        ActionType::Other.try_create_payload(&vec!["encoding".to_string()]),
        Ok(ActionPayload::Other("encoding".to_string()))
    );
}

#[test]
fn bad_payload_arguments_fail() {
    assert_eq!(
        ActionType::Add.try_create_payload(&vec!["".to_string()]),
        Err(InputError::InvalidArgument(None))
    );
    assert_eq!(
        ActionType::Edit.try_create_payload(&vec!["a".to_string(), "".to_string()]),
        Err(InputError::InvalidArgument(Some(
            "Edit cannot be passed empty strings".to_string()
        )))
    );
    assert_eq!(
        ActionType::ListType.try_create_payload(&vec!["maybe".to_string()]),
        Err(InputError::InvalidArgument(Some(
            "Unable to parse \"maybe\" to valid boolean value.".to_string()
        )))
    );
    assert_eq!(
        ActionType::SetStatus.try_create_payload(&vec!["a".to_string(), "soon".to_string()]),
        Err(InputError::InvalidArgument(Some(
            "Unable to parse \"soon\" to valid boolean value.".to_string()
        )))
    );
}

#[test]
fn wrong_argument_count_is_reported_with_detail() {
    assert_eq!(
        ActionType::Add.try_create_payload(&vec![]),
        Err(InputError::InvalidArgument(Some(
            "Invalid argument count - the \"add\" command expects 1 argument, but 0 were received."
                .to_string()
        )))
    );
    assert_eq!(
        ActionType::Edit.try_create_payload(&vec!["a".to_string()]),
        Err(InputError::InvalidArgument(Some(
            "Invalid argument count - the \"edit\" command expects 2 arguments, but 1 was received."
                .to_string()
        )))
    );
}

#[test]
fn actions_know_their_shape() {
    assert_eq!(ActionType::Add.get_arg_count(), 1);
    assert_eq!(ActionType::Clear.get_arg_count(), 0);
    assert_eq!(ActionType::Edit.get_arg_count(), 2);
    assert_eq!(ActionType::SetStatus.get_arg_count(), 2);
    assert_eq!(ActionType::Add.get_action_name(), "Add");
    assert_eq!(ActionType::SetStatus.get_action_name(), "Set");
    assert_eq!(ActionType::SetStatus.get_input_string(), "set");
    assert_eq!(ActionType::Other.get_input_string(), "secret");
    let edit_args = ActionType::Edit.get_arguments();
    assert_eq!(edit_args.len(), 2);
    assert_eq!(edit_args[0].name, "todo");
    assert_eq!(edit_args[0].arg_type, ArgumentType::ExistingTodo);
    assert_eq!(edit_args[0].order, 0);
    assert_eq!(edit_args[1].name, "new text");
    assert_eq!(edit_args[1].arg_type, ArgumentType::String);
    assert_eq!(edit_args[1].order, 1);
}

#[test]
fn the_action_list_is_complete() {
    let actions = ActionType::all_actions();
    assert_eq!(
        actions,
        vec![
            ActionType::Add,
            ActionType::Clear,
            ActionType::Edit,
            ActionType::List,
            ActionType::ListType,
            ActionType::Remove,
            ActionType::SetStatus,
            ActionType::Other,
        ]
    );
    let names = ActionType::all_action_names();
    assert_eq!(
        names,
        vec!["Add", "Clear", "Edit", "List", "ListType", "Remove", "Set", "Other"]
    );
}

#[test]
fn payloads_report_their_action() {
    let payload = ActionPayload::SetStatus("a".to_string(), true);
    assert_eq!(payload.get_action_type(), ActionType::SetStatus);
    assert_eq!(payload.input_cmd_string(), "set");
    assert_eq!(payload.expected_arg_count(), 2);
    assert_eq!(ActionPayload::Clear.expected_arg_count(), 0);
}

#[test]
fn booleans_read_the_usual_spellings() {
    assert_eq!(string_to_bool("true"), Some(true));
    assert_eq!(string_to_bool("TRUE"), Some(true));
    assert_eq!(string_to_bool("t"), Some(true));
    assert_eq!(string_to_bool("Y"), Some(true));
    assert_eq!(string_to_bool("yes"), Some(true));
    assert_eq!(string_to_bool("false"), Some(false));
    assert_eq!(string_to_bool("F"), Some(false));
    assert_eq!(string_to_bool("n"), Some(false));
    assert_eq!(string_to_bool("No"), Some(false));
    assert_eq!(string_to_bool("maybe"), None);
    assert_eq!(string_to_bool(""), None);
}

#[test]
fn arguments_validate_their_inputs() {
    assert!(ArgumentType::Boolean.validate("yes"));
    assert!(!ArgumentType::Boolean.validate("dunno"));
    assert!(ArgumentType::String.validate("anything"));
    assert!(!ArgumentType::String.validate(""));
    assert!(ArgumentType::ExistingTodo.validate("a"));
    assert!(!ArgumentType::ExistingTodo.validate(""));

    let arg = ActionArgument::boolean("status", 0);
    assert!(arg.validate("no"));
    assert!(!arg.validate("x"));
    assert_eq!(ActionArgument::existing("todo", 1).arg_type, ArgumentType::ExistingTodo);
    assert_eq!(ActionArgument::string("todo", 2).order, 2);
}

#[test]
fn owned_copy_helper_copies() {
    assert_eq!(s("hello"), "hello".to_string());
}

#[test]
fn input_errors_render_as_text() {
    assert_eq!(InputError::bad_cmd().to_string(), "Invalid Command");
    assert_eq!(InputError::bad_arg().to_string(), "Invalid Argument");
    assert_eq!(
        InputError::bad_cmd_str("oops").to_string(),
        "Invalid Command: oops"
    );
    assert_eq!(
        InputError::bad_arg_str("oops").to_string(),
        "Invalid Argument: oops"
    );
    assert_eq!(
        InputError::bad_arg_count(3, 1).to_string(),
        "Invalid Argument: Invalid number of arguments given! Given = 3 Expected = 1"
    );
    assert_eq!(
        InputError::cmd_unknown("zap").to_string(),
        "Invalid Command: Unknown command \"zap\""
    );
    assert_eq!(
        InputError::cmd_empty().to_string(),
        "Invalid Command: Command cannot be empty!"
    );
}
