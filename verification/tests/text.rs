use std::io::{Error, ErrorKind};

use things_todo::command_error::CommandError;
use things_todo::response::{ResponseState, ResponseString};
use things_todo::text::{str_cmp, str_eq_ignore_ascii_case, u64_to_dec, KeyOrder};

#[test]
fn keys_compare_lexicographically() {
    assert_eq!(str_cmp("apple", "banana"), KeyOrder::Less);
    assert_eq!(str_cmp("banana", "apple"), KeyOrder::Greater);
    assert_eq!(str_cmp("apple", "apple"), KeyOrder::Equal);
    assert_eq!(str_cmp("", "a"), KeyOrder::Less);
    assert_eq!(str_cmp("ab", "abc"), KeyOrder::Less);
    assert_eq!(str_cmp("abc", "ab"), KeyOrder::Greater);
    assert_eq!(str_cmp("Zoo", "apple"), KeyOrder::Less);
    assert_eq!(str_cmp("naïve", "naive"), KeyOrder::Greater);
}

#[test]
fn decimal_rendering_matches() {
    assert_eq!(u64_to_dec(0), "0");
    assert_eq!(u64_to_dec(7), "7");
    assert_eq!(u64_to_dec(10), "10");
    assert_eq!(u64_to_dec(90210), "90210");
    assert_eq!(u64_to_dec(u64::MAX), u64::MAX.to_string());
}

#[test]
fn ascii_case_folding_compares() {
    assert!(str_eq_ignore_ascii_case("Encoding", "encoding"));
    assert!(str_eq_ignore_ascii_case("DIFF", "diff"));
    assert!(str_eq_ignore_ascii_case("", ""));
    assert!(!str_eq_ignore_ascii_case("diff", "duff"));
    assert!(!str_eq_ignore_ascii_case("diff", "dif"));
}

#[test]
fn command_errors_render_as_text() {
    assert_eq!(
        CommandError::TodoAlreadyExists.to_string(),
        "Todo already exists with that name"
    );
    assert_eq!(
        CommandError::TodoNotFound.to_string(),
        "Todo with that name not found"
    );
    assert_eq!(
        CommandError::InputInvalid("no good".to_string()).to_string(),
        "Input invalid, no good"
    );
}

#[test]
fn responses_wrap_results() {
    match ResponseString::from_result(Ok("typed".to_string())) {
        ResponseState::Value(v) => assert_eq!(v, "typed"),
        other => panic!("expected a value, got {:?}", other),
    }
    match ResponseString::from_result(Err(Error::new(ErrorKind::Other, "broken pipe"))) {
        ResponseState::Error(e) => assert_eq!(e.to_string(), "broken pipe"),
        other => panic!("expected an error, got {:?}", other),
    }
}

#[test]
fn responses_wrap_cancellable_results() {
    match ResponseState::from_result_opt(Ok(Some(3_usize))) {
        ResponseState::Value(v) => assert_eq!(v, 3),
        other => panic!("expected a value, got {:?}", other),
    }
    match ResponseState::<usize>::from_result_opt(Ok(None)) {
        ResponseState::Cancelled => {},
        other => panic!("expected a cancellation, got {:?}", other),
    }
    match ResponseState::<usize>::from_result_opt(Err(Error::new(ErrorKind::Other, "hung up"))) {
        ResponseState::Error(e) => assert_eq!(e.to_string(), "hung up"),
        other => panic!("expected an error, got {:?}", other),
    }
    match ResponseState::<bool>::value(true) {
        ResponseState::Value(v) => assert!(v),
        other => panic!("expected a value, got {:?}", other),
    }
    assert!(matches!(
        ResponseState::<bool>::cancelled(),
        ResponseState::Cancelled
    ));
    assert!(matches!(
        ResponseState::<bool>::error(Error::new(ErrorKind::Other, "nope")),
        ResponseState::Error(_)
    ));
}
