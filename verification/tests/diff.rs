use things_todo::todolist::{DiffEntry, DiffResult, TodoList};

#[test]
fn diff_of_equal_stores_is_same() {
    let empty = TodoList::new();
    assert_eq!(empty.diff_with(&TodoList::new()), DiffResult::Same);

    let mut list = TodoList::new();
    list.add_todo("buy milk", false).unwrap();
    list.add_todo("walk dog", true).unwrap();
    let copy = list.clone();
    assert_eq!(list.diff_with(&copy), DiffResult::Same);
}

#[test]
fn two_empty_stores_are_identical() {
    let a = TodoList::new();
    let b = TodoList::new();
    assert_eq!(a.diff_with(&b), DiffResult::Same);
}

#[test]
fn flipped_status_and_added_record_yield_two_entries() {
    let mut list = TodoList::new();
    list.add_todo("buy milk", false).unwrap();
    list.add_todo("walk dog", true).unwrap();

    let mut other = list.clone();
    other.set_status("buy milk", true).unwrap();
    other.add_todo("call mom", false).unwrap();

    match list.diff_with(&other) {
        DiffResult::Changes(entries) => {
            assert_eq!(
                entries,
                vec![
                    DiffEntry::TodoStatusMistake {
                        todo: "buy milk".to_string(),
                        this_status: false,
                        that_status: true,
                    },
                    DiffEntry::TodoNotFound {
                        todo: "call mom".to_string(),
                        this_has: false,
                        that_has: true,
                    },
                ]
            );
        },
        DiffResult::Same => panic!("diff missed the two changes"),
    }
}

#[test]
fn missing_on_this_side_is_reported() {
    let mut list = TodoList::new();
    list.add_todo("only here", false).unwrap();
    let empty = TodoList::new();
    match list.diff_with(&empty) {
        DiffResult::Changes(entries) => {
            assert_eq!(
                entries,
                vec![DiffEntry::TodoNotFound {
                    todo: "only here".to_string(),
                    this_has: true,
                    that_has: false,
                }]
            );
        },
        DiffResult::Same => panic!("diff missed the missing record"),
    }
}

#[test]
fn entries_come_name_sorted() {
    let mut list = TodoList::new();
    list.add_todo("b", false).unwrap();
    let mut other = TodoList::new();
    other.add_todo("a", false).unwrap();
    other.add_todo("c", true).unwrap();
    match list.diff_with(&other) {
        DiffResult::Changes(entries) => {
            assert_eq!(entries.len(), 3);
            let names: Vec<String> = entries
                .iter()
                .map(|e| match e {
                    DiffEntry::TodoNotFound { todo, .. } => todo.clone(),
                    DiffEntry::TodoStatusMistake { todo, .. } => todo.clone(),
                })
                .collect();
            assert_eq!(names, vec!["a".to_string(), "b".to_string(), "c".to_string()]);
        },
        DiffResult::Same => panic!("diff missed all three changes"),
    }
}

#[test]
fn diff_entry_text_names_the_side() {
    let absent = DiffEntry::TodoNotFound {
        todo: "call mom".to_string(),
        this_has: false,
        that_has: true,
    };
    assert_eq!(absent.to_string(), "Todo \"call mom\" is in that but not this.");
    let flipped = DiffEntry::TodoStatusMistake {
        todo: "buy milk".to_string(),
        this_status: false,
        that_status: true,
    };
    assert_eq!(
        flipped.to_string(),
        "Todo \"buy milk\" is marked as incomplete in this but complete in that."
    );
}

#[test]
fn diff_entry_text_escapes_the_name() {
    let tricky = DiffEntry::TodoNotFound {
        todo: "say \"hi\"\\now".to_string(),
        this_has: true,
        that_has: false,
    };
    assert_eq!(
        tricky.to_string(),
        "Todo \"say \\\"hi\\\"\\\\now\" is in this but not that."
    );
    let spaced = DiffEntry::TodoNotFound {
        todo: "line\none".to_string(),
        this_has: true,
        that_has: false,
    };
    assert_eq!(spaced.to_string(), "Todo \"line\\none\" is in this but not that.");
}
