use things_todo::action_payload::ActionPayload;
use things_todo::command_error::CommandError;
use things_todo::todolist::{ActionOutcome, TodoList};

#[test]
fn new_store_is_empty() {
    let list = TodoList::new();
    assert!(list.is_empty());
    assert_eq!(list.len(), 0);
    assert_eq!(list.count(), 0);
}

#[test]
fn add_then_len() {
    let mut list = TodoList::new();
    assert!(list.add_todo("buy milk", false).is_ok());
    assert!(list.add_todo("walk dog", true).is_ok());
    assert_eq!(list.len(), 2);
    assert!(!list.is_empty());
}

#[test]
fn duplicate_add_fails_and_leaves_length() {
    let mut list = TodoList::new();
    assert_eq!(list.add_todo("x", false), Ok(()));
    assert_eq!(list.add_todo("x", false), Err(CommandError::TodoAlreadyExists));
    assert_eq!(list.len(), 1);
}

#[test]
fn empty_name_add_is_invalid() {
    let mut list = TodoList::new();
    match list.add_todo("", false) {
        Err(CommandError::InputInvalid(msg)) => assert_eq!(msg, "Todo is empty"),
        other => panic!("expected InputInvalid, got {:?}", other),
    }
    assert!(list.is_empty());
}

#[test]
fn remove_returns_the_pair() {
    let mut list = TodoList::new();
    list.add_todo("a", true).unwrap();
    assert_eq!(list.remove_todo("a"), Some(("a".to_string(), true)));
    assert_eq!(list.remove_todo("a"), None);
    assert!(list.is_empty());
}

#[test]
fn remove_missing_on_empty_store_is_not_found() {
    let mut list = TodoList::new();
    let r = list.apply_action(ActionPayload::Remove("missing".to_string()));
    assert_eq!(r.unwrap_err(), CommandError::TodoNotFound);
}

#[test]
fn edit_moves_status_and_overwrites() {
    let mut list = TodoList::new();
    list.add_todo("a", true).unwrap();
    assert_eq!(list.edit_todo("a", "b"), Ok(()));
    assert_eq!(list.get_todos(), vec![("b".to_string(), true)]);

    let mut list2 = TodoList::new();
    list2.add_todo("a", true).unwrap();
    list2.add_todo("b", false).unwrap();
    assert_eq!(list2.edit_todo("a", "b"), Ok(()));
    assert_eq!(list2.get_todos(), vec![("b".to_string(), true)]);
}

#[test]
fn edit_missing_is_not_found() {
    let mut list = TodoList::new();
    assert_eq!(list.edit_todo("nope", "b"), Err(CommandError::TodoNotFound));
}

#[test]
fn set_status_is_an_upsert() {
    let mut list = TodoList::new();
    assert_eq!(list.set_status("a", true), Ok(()));
    assert_eq!(list.get_todos(), vec![("a".to_string(), true)]);
    assert_eq!(list.set_status("a", false), Ok(()));
    assert_eq!(list.get_todos(), vec![("a".to_string(), false)]);
    assert_eq!(list.len(), 1);
}

#[test]
fn clear_empties_and_is_idempotent() {
    let mut list = TodoList::new();
    list.add_todo("a", false).unwrap();
    list.clear_todos();
    assert!(list.is_empty());
    list.clear_todos();
    assert!(list.is_empty());
}

#[test]
fn any_with_status_looks_at_values() {
    let mut list = TodoList::new();
    assert!(!list.any_with_status(true));
    assert!(!list.any_with_status(false));
    list.add_todo("a", true).unwrap();
    assert!(list.any_with_status(true));
    assert!(!list.any_with_status(false));
}

#[test]
fn listings_come_name_sorted() {
    let mut list = TodoList::new();
    list.add_todo("pear", true).unwrap();
    list.add_todo("apple", false).unwrap();
    list.add_todo("mango", true).unwrap();
    assert_eq!(
        list.get_todos_text(),
        vec!["apple".to_string(), "mango".to_string(), "pear".to_string()]
    );
    assert_eq!(
        list.get_todos(),
        vec![
            ("apple".to_string(), false),
            ("mango".to_string(), true),
            ("pear".to_string(), true)
        ]
    );
    assert_eq!(
        list.get_todos_with_status(true),
        vec!["mango".to_string(), "pear".to_string()]
    );
    assert_eq!(list.get_todos_with_status(false), vec!["apple".to_string()]);
    assert_eq!(list.nth_todo(0), ("apple".to_string(), false));
    assert_eq!(list.nth_todo(2), ("pear".to_string(), true));
}

#[test]
fn clone_matches_original() {
    let mut list = TodoList::new();
    list.add_todo("a", true).unwrap();
    list.add_todo("b", false).unwrap();
    let copy = list.clone();
    assert_eq!(copy.get_todos(), list.get_todos());
}

#[test]
fn apply_action_covers_each_command() {
    let mut list = TodoList::new();
    assert!(matches!(
        list.apply_action(ActionPayload::Add("a".to_string())),
        Ok(ActionOutcome::Done)
    ));
    assert!(matches!(
        list.apply_action(ActionPayload::SetStatus("a".to_string(), true)),
        Ok(ActionOutcome::Done)
    ));
    match list.apply_action(ActionPayload::List) {
        Ok(ActionOutcome::Listed(v)) => assert_eq!(v, vec![("a".to_string(), true)]),
        other => panic!("expected a listing, got {:?}", other),
    }
    match list.apply_action(ActionPayload::ListWithStatus(false)) {
        Ok(ActionOutcome::ListedWithStatus(status, v)) => {
            assert!(!status);
            assert!(v.is_empty());
        },
        other => panic!("expected a filtered listing, got {:?}", other),
    }
    assert!(matches!(
        list.apply_action(ActionPayload::Edit("a".to_string(), "b".to_string())),
        Ok(ActionOutcome::Done)
    ));
    assert!(matches!(
        list.apply_action(ActionPayload::Remove("b".to_string())),
        Ok(ActionOutcome::Done)
    ));
    assert!(matches!(
        list.apply_action(ActionPayload::Clear),
        Ok(ActionOutcome::Done)
    ));
    assert!(list.is_empty());
}

#[test]
fn from_pairs_round_trips_sorted_pairs() {
    let pairs = vec![("a".to_string(), true), ("b".to_string(), false)];
    let list = TodoList::from_pairs(&pairs);
    assert_eq!(list.get_todos(), pairs);
}

#[test]
fn from_pairs_upserts_and_drops_empty_names() {
    let pairs = vec![
        ("b".to_string(), false),
        ("".to_string(), true),
        ("a".to_string(), false),
        ("b".to_string(), true),
    ];
    let list = TodoList::from_pairs(&pairs);
    assert_eq!(
        list.get_todos(),
        vec![("a".to_string(), false), ("b".to_string(), true)]
    );
}
