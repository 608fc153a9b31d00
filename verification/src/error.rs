//! What can go wrong between a request and its answer.

use crate::value::{describe, described, XmlRpcValue};
use vstd::string::*;
use vstd::prelude::*;

verus! {

/// A failed call. The first three are protocol errors, `Remote` is the
/// remote API's own refusal, the next four are raised locally before
/// anything is sent, `Transport` is the network's.
#[derive(Debug)]
pub enum ApiError {
    /// The response or its payload is malformed: the reader could not read
    /// it, or it ends inside a value or an element; with the message.
    Malformed(String),
    /// The response holds neither a fault nor a parameter value.
    InvalidResponse,
    /// The server answered with a fault.
    Fault(XmlRpcValue),
    /// The remote API reported a failure; with its message.
    Remote(String),
    /// A required identifier is absent; with the kind of thing it names.
    MissingParameter(String),
    /// No such service.
    UnknownService(String),
    /// No such verb under a known service; with the service's label and
    /// the verb.
    UnknownMethod(String, String),
    /// No such resource in the registry.
    UnknownResource(String),
    /// The result path leads nowhere in the response; with the path.
    PathNotFound(String),
    /// The request could not be sent or the answer not received.
    Transport(String),
}

impl ApiError {
    /// The message of the error, as a text.
    pub open spec fn message_text(self) -> Seq<char> {
        match self {
            ApiError::Malformed(message) => "XML parsing error: "@ + message@,
            ApiError::InvalidResponse => "Invalid XML-RPC response"@,
            ApiError::Fault(fault) => "XML-RPC fault: "@ + described(fault@),
            ApiError::Remote(message) => "OpenNebula API error: "@ + message@,
            ApiError::MissingParameter(label) => "Missing "@ + label@ + " id"@,
            ApiError::UnknownService(service) => "Unknown service: "@ + service@,
            ApiError::UnknownMethod(label, method) => "Unknown "@ + label@ + " method: "@
                + method@,
            ApiError::UnknownResource(key) => "Unknown resource: "@ + key@,
            ApiError::PathNotFound(path) => "Path '"@ + path@ + "' not found in response"@,
            ApiError::Transport(message) => message@,
        }
    }

    /// The message of the error.
    pub fn message(&self) -> (text: String)
        ensures
            text@ == self.message_text(),
    {
        match self {
            ApiError::Malformed(message) => String::from_str("XML parsing error: ").concat(
                message.as_str(),
            ),
            ApiError::InvalidResponse => String::from_str("Invalid XML-RPC response"),
            ApiError::Fault(fault) => String::from_str("XML-RPC fault: ").concat(
                describe(fault).as_str(),
            ),
            ApiError::Remote(message) => String::from_str("OpenNebula API error: ").concat(
                message.as_str(),
            ),
            ApiError::MissingParameter(label) => String::from_str("Missing ").concat(
                label.as_str(),
            ).concat(" id"),
            ApiError::UnknownService(service) => String::from_str("Unknown service: ").concat(
                service.as_str(),
            ),
            ApiError::UnknownMethod(label, method) => String::from_str("Unknown ").concat(
                label.as_str(),
            ).concat(" method: ").concat(method.as_str()),
            ApiError::UnknownResource(key) => String::from_str("Unknown resource: ").concat(
                key.as_str(),
            ),
            ApiError::PathNotFound(path) => String::from_str("Path '").concat(
                path.as_str(),
            ).concat("' not found in response"),
            ApiError::Transport(message) => message.clone(),
        }
    }
}

} // verus!
