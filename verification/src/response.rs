use vstd::prelude::*;

use std::io::Error;

verus! {

#[verifier::external_type_specification]
#[verifier::external_body]
pub struct ExIoError(Error);

/// The three ways a prompt can end: a value, a cancellation by the
/// user, or an I/O error raised while prompting.
#[derive(Debug)]
pub enum ResponseState<TValue> {
    Value(TValue),
    Cancelled,
    Error(Error),
}

/// A prompt response carrying a string.
pub type ResponseString = ResponseState<String>;

/// A prompt response carrying a boolean.
pub type ResponseBool = ResponseState<bool>;

/// A prompt response carrying an index into the offered choices.
pub type ResponseIndex = ResponseState<usize>;

impl<TValue> ResponseState<TValue> {
    /// Wraps an I/O error.
    pub fn error(err: Error) -> (r: Self)
        ensures
            r == ResponseState::<TValue>::Error(err),
    {
        ResponseState::Error(err)
    }

    /// The cancelled response.
    pub fn cancelled() -> (r: Self)
        ensures
            r == ResponseState::<TValue>::Cancelled,
    {
        ResponseState::Cancelled
    }

    /// Wraps a successful value.
    pub fn value(value: TValue) -> (r: Self)
        ensures
            r == ResponseState::Value(value),
    {
        ResponseState::Value(value)
    }

    /// Reads a result from a prompt that cannot be cancelled: a
    /// success is a value, an error is an error.
    pub fn from_result(res: Result<TValue, Error>) -> (r: Self)
        ensures
            res matches Ok(v) ==> r == ResponseState::Value(v),
            res matches Err(e) ==> r == ResponseState::<TValue>::Error(e),
    {
        match res {
            Ok(value) => Self::value(value),
            Err(err) => Self::error(err),
        }
    }

    /// Reads a result from a cancellable prompt: a present value is a
    /// success, an absent one a cancellation, an error an error.
    pub fn from_result_opt(res: Result<Option<TValue>, Error>) -> (r: Self)
        ensures
            res matches Ok(Some(v)) ==> r == ResponseState::Value(v),
            res matches Ok(None) ==> r == ResponseState::<TValue>::Cancelled,
            res matches Err(e) ==> r == ResponseState::<TValue>::Error(e),
    {
        match res {
            Ok(opt) => match opt {
                Some(value) => Self::value(value),
                None => Self::cancelled(),
            },
            Err(err) => Self::error(err),
        }
    }
}

} // verus!
