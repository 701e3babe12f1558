//! Turning SQL execution results into rows for deserialization.
pub mod convert;

use convert::{convert_payload, objects_view, rows_json, Json, JsonObject, Payload, PayloadView};
use vstd::prelude::*;
use vstd::string::*;

verus! {

/// Failures when reading rows out of an execution result.
#[derive(Debug, Clone, Copy, PartialEq, Eq, Structural)]
pub enum Error {
    NonDeserializeableResult,
    DeserializeFailed,
    NotFound,
}

/// The human-readable description of an error.
pub open spec fn error_message(e: Error) -> Seq<char> {
    match e {
        Error::NonDeserializeableResult => "cannot deserialize result payload, only works for SELECT query result"@,
        Error::DeserializeFailed => "failed to deserialize"@,
        Error::NotFound => "result not found"@,
    }
}

impl Error {
    /// The human-readable description of this error.
    pub fn message(&self) -> (s: String)
        ensures
            s@ == error_message(*self),
    {
        match self {
            Error::NonDeserializeableResult => String::from_str(
                "cannot deserialize result payload, only works for SELECT query result",
            ),
            Error::DeserializeFailed => String::from_str("failed to deserialize"),
            Error::NotFound => String::from_str("result not found"),
        }
    }
}

/// The rows of an execution result, each as a JSON object keyed by the column
/// labels. Only the result of a query has rows; any other result is refused.
pub fn deserialize(payload: Payload) -> (res: Result<Vec<JsonObject>, Error>)
    ensures
        match payload@ {
            PayloadView::Select { labels, rows } => res matches Ok(objects)
                && objects_view(objects@) == rows_json(labels, rows),
            _ => res == Err::<Vec<JsonObject>, Error>(Error::NonDeserializeableResult),
        },
{
    let ghost p = payload@;
    let (ops, json) = convert_payload(payload);
    if ops != String::from_str("SELECT") {
        return Err(Error::NonDeserializeableResult);
    }
    match json {
        Json::Array(objects) => Ok(objects),
        _ => Err(Error::NonDeserializeableResult),
    }
}

/// The first of the deserialized rows: a failure is passed on, and an empty
/// result gives `NotFound`.
pub fn deserialize_one<T>(results: Result<Vec<T>, Error>) -> (res: Result<T, Error>)
    ensures
        match results {
            Err(e) => res == Err::<T, Error>(e),
            Ok(v) => if v.len() == 0 {
                res == Err::<T, Error>(Error::NotFound)
            } else {
                res == Ok::<T, Error>(v@[0])
            },
        },
{
    match results {
        Err(e) => Err(e),
        Ok(mut v) => {
            v.truncate(1);
            match v.pop() {
                Some(first) => Ok(first),
                None => Err(Error::NotFound),
            }
        },
    }
}

} // verus!
