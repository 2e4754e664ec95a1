//! What goes wrong in an endpoint.

use vstd::prelude::*;

verus! {

/// A value of the node's data model that could not be made.
#[derive(PartialEq, Eq, Debug)]
pub enum ModelsError {
    /// Bytes that are not the serialized form of what they should be.
    DeserializeError(String),
    /// Anything else, in words.
    Other(String),
}

/// The answer to a request that is not served.
#[derive(PartialEq, Eq, Debug)]
pub enum ApiError {
    /// The request asks for more than one request may.
    TooManyArguments(String),
    /// The node's services contradict each other.
    InconsistencyError(String),
    /// The request holds a value that is not valid.
    ModelsError(ModelsError),
    /// Consensus did not answer.
    ConsensusError(String),
    /// The network service did not answer.
    NetworkError(String),
    /// The clock could not be read.
    TimeError(String),
    /// The endpoint belongs to the private API.
    WrongAPI,
}

/// A [`ModelsError`] with its text as a sequence of characters.
pub enum ModelsErrorView {
    DeserializeError(Seq<char>),
    Other(Seq<char>),
}

/// An [`ApiError`] with its text as a sequence of characters.
pub enum ApiErrorView {
    TooManyArguments(Seq<char>),
    InconsistencyError(Seq<char>),
    ModelsError(ModelsErrorView),
    ConsensusError(Seq<char>),
    NetworkError(Seq<char>),
    TimeError(Seq<char>),
    WrongAPI,
}

impl View for ModelsError {
    type V = ModelsErrorView;

    open spec fn view(&self) -> ModelsErrorView {
        match self {
            ModelsError::DeserializeError(text) => ModelsErrorView::DeserializeError(text@),
            ModelsError::Other(text) => ModelsErrorView::Other(text@),
        }
    }
}

impl View for ApiError {
    type V = ApiErrorView;

    open spec fn view(&self) -> ApiErrorView {
        match self {
            ApiError::TooManyArguments(text) => ApiErrorView::TooManyArguments(text@),
            ApiError::InconsistencyError(text) => ApiErrorView::InconsistencyError(text@),
            ApiError::ModelsError(error) => ApiErrorView::ModelsError(error@),
            ApiError::ConsensusError(text) => ApiErrorView::ConsensusError(text@),
            ApiError::NetworkError(text) => ApiErrorView::NetworkError(text@),
            ApiError::TimeError(text) => ApiErrorView::TimeError(text@),
            ApiError::WrongAPI => ApiErrorView::WrongAPI,
        }
    }
}

/// A result with its value as the value's view.
pub open spec fn value_view<T: View>(result: Result<T, ApiError>) -> Result<T::V, ApiError> {
    match result {
        Ok(value) => Ok(value@),
        Err(error) => Err(error),
    }
}

/// A result with its error as the error's view.
pub open spec fn error_view<T>(result: Result<T, ApiError>) -> Result<T, ApiErrorView> {
    match result {
        Ok(value) => Ok(value),
        Err(error) => Err(error@),
    }
}

/// The error that answers a request with more arguments than the limit.
pub open spec fn too_many_arguments() -> ApiErrorView {
    ApiErrorView::TooManyArguments("too many arguments"@)
}

/// The error that answers bytes that cannot be deserialized.
pub open spec fn deserialize_error(text: Seq<char>) -> ApiErrorView {
    ApiErrorView::ModelsError(ModelsErrorView::DeserializeError(text))
}

/// Admits a request with `count` arguments under the limit `max_arguments`.
pub(crate) fn check_arguments(count: usize, max_arguments: u64) -> (admitted: Result<(), ApiError>)
    ensures
        match admitted {
            Ok(_) => count <= max_arguments,
            Err(error) => count > max_arguments && error@ == too_many_arguments(),
        },
{
    if count as u64 > max_arguments {
        Err(ApiError::TooManyArguments("too many arguments".to_string()))
    } else {
        Ok(())
    }
}

} // verus!
