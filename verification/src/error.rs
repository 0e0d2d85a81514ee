//! The fatal errors of a run.

use vstd::prelude::*;
use vstd::string::*;

verus! {

/// An error that ends a run. A document that the store rejects is no error:
/// it is counted as failed and the run goes on.
#[derive(Debug, Clone, PartialEq, Eq)]
pub enum LoadError {
    /// The store could not be reached, or the transport failed.
    Connection { message: String },
    /// A response lacks the structure that a bulk response has.
    MalformedResponse,
    /// The request for a batch could not be built.
    Request { message: String },
}

impl LoadError {
    /// A copy of this error.
    pub fn duplicate(&self) -> (copy: LoadError)
        ensures
            copy == *self,
    {
        match self {
            LoadError::Connection { message } => LoadError::Connection { message: message.clone() },
            LoadError::MalformedResponse => LoadError::MalformedResponse,
            LoadError::Request { message } => LoadError::Request { message: message.clone() },
        }
    }

    /// The fatal error that a fault of the client library becomes: a
    /// malformed response where the fault lies in the JSON of the response, a
    /// failure of the connection, with the fault's text, where it does not.
    pub fn of_client_fault(is_json: bool, text: String) -> (error: LoadError)
        ensures
            error == if is_json {
                LoadError::MalformedResponse
            } else {
                LoadError::Connection { message: text }
            },
    {
        if is_json {
            LoadError::MalformedResponse
        } else {
            LoadError::Connection { message: text }
        }
    }

    /// The text that describes this error to a user.
    pub fn message(&self) -> (text: String)
        ensures
            text@ == self.message_spec(),
    {
        match self {
            LoadError::Connection { message } => message.clone(),
            LoadError::MalformedResponse => String::from_str("found response besides create and errors"),
            LoadError::Request { message } => message.clone(),
        }
    }

    /// The text that describes this error to a user.
    pub open spec fn message_spec(&self) -> Seq<char> {
        match self {
            LoadError::Connection { message } => message@,
            LoadError::MalformedResponse => "found response besides create and errors"@,
            LoadError::Request { message } => message@,
        }
    }
}

} // verus!
