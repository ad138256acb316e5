use things_todo::command_error::CommandError;
use things_todo::harness::DebugOutcome;
use things_todo::settings::AppSettings;
use things_todo::todolist::{DiffResult, TodoList};

fn sample_store() -> TodoList {
    let mut list = TodoList::new();
    list.add_todo("buy milk", false).unwrap();
    list.add_todo("walk dog", true).unwrap();
    list.add_todo("call mom", false).unwrap();
    list
}

#[test]
fn diff_probe_baseline_is_identical() {
    let list = sample_store();
    let report = list.run_diff_test().unwrap();
    assert_eq!(report.baseline, DiffResult::Same);
    assert!(report.changes_made >= 1);
    assert!(report.changes_made < 3);
    assert_eq!(report.changes.len(), report.changes_made);
}

#[test]
fn diff_probe_on_one_record_makes_one_change() {
    let mut list = TodoList::new();
    list.add_todo("only", false).unwrap();
    let report = list.run_diff_test().unwrap();
    assert_eq!(report.baseline, DiffResult::Same);
    assert_eq!(report.changes_made, 1);
}

#[test]
fn diff_probe_needs_a_record() {
    let list = TodoList::new();
    match list.run_diff_test() {
        Err(CommandError::InputInvalid(msg)) => {
            assert_eq!(
                msg,
                "TodoList must have at least 1 entry in order to run diff test!"
            );
        },
        other => panic!("expected InputInvalid, got {:?}", other),
    }
}

#[test]
fn debug_commands_dispatch_without_regard_to_case() {
    let list = sample_store();
    assert!(matches!(
        list.run_debug_command("encoding"),
        Ok(DebugOutcome::Encoding(_))
    ));
    assert!(matches!(
        list.run_debug_command("ENCODING"),
        Ok(DebugOutcome::Encoding(_))
    ));
    assert!(matches!(
        list.run_debug_command("Diff"),
        Ok(DebugOutcome::DiffProbe(_))
    ));
    match list.run_debug_command("bogus") {
        Ok(DebugOutcome::UnknownCommand(text)) => assert_eq!(text, "bogus"),
        other => panic!("expected the command echoed back, got {:?}", other),
    }
}

#[test]
fn stock_settings_keep_backups_and_skip_the_service() {
    let settings = AppSettings::default();
    assert!(settings.use_backup);
    assert!(!settings.use_service);
}
