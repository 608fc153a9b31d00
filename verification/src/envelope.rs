//! The envelope interpreter: the remote API answers with an array of a
//! success flag, the data and an optional code. This module applies that
//! convention and turns the data into a generic document.

use crate::decode::{decoded, parse_response, Decoded};
use crate::document::{
    items_view, lemma_list_view, lemma_object_view, object_view, set_member, with_member,
    Document, DocumentView, Members,
};
use crate::error::ApiError;
use crate::transcode::{parse_one_xml_to_json, transcoded, Transcoded};
use crate::value::{
    lemma_array_view, lemma_struct_view, members_view, values_view, ValueView, XmlRpcResponse,
    XmlRpcValue,
};
use crate::xml::xml_tokens;
use vstd::prelude::*;
use vstd::string::*;

verus! {

/// The document that a value is coerced into: structs become objects,
/// arrays lists, leaves the leaves of the same kind.
pub open spec fn coerced(value: ValueView) -> DocumentView
    decreases value, 0nat,
{
    match value {
        ValueView::String(s) => DocumentView::Text(s),
        ValueView::Int(i) => DocumentView::Int(i as i64),
        ValueView::Boolean(b) => DocumentView::Bool(b),
        ValueView::Double(d) => DocumentView::Real(d),
        ValueView::Array(items) => DocumentView::List(coerced_items(items, items.len())),
        ValueView::Struct(members) => DocumentView::Object(
            coerced_members(members, members.len()),
        ),
    }
}

/// The documents of the first `count` values of a list.
pub open spec fn coerced_items(items: Seq<ValueView>, count: nat) -> Seq<DocumentView>
    decreases items, count,
{
    if count == 0 || count > items.len() {
        Seq::empty()
    } else {
        coerced_items(items, (count - 1) as nat).push(coerced(items[count - 1]))
    }
}

/// The object of the first `count` members of a struct. Where a name
/// occurs twice, the later value takes the place of the earlier one.
pub open spec fn coerced_members(members: Seq<(Seq<char>, ValueView)>, count: nat) -> Members
    decreases members, count,
{
    if count == 0 || count > members.len() {
        Seq::empty()
    } else {
        with_member(
            coerced_members(members, (count - 1) as nat),
            members[count - 1].0,
            coerced(members[count - 1].1),
        )
    }
}

/// Coerces a value into a document without looking into its strings.
pub fn xmlrpc_to_json(value: &XmlRpcValue) -> (document: Document)
    ensures
        document@ == coerced(value@),
    decreases value,
{
    match value {
        XmlRpcValue::String(s) => Document::Text(s.clone()),
        XmlRpcValue::Int(i) => Document::Int(*i as i64),
        XmlRpcValue::Boolean(b) => Document::Bool(*b),
        XmlRpcValue::Double(d) => Document::Real(d.clone()),
        XmlRpcValue::Array(items) => {
            proof {
                lemma_array_view(*items);
            }
            let mut documents: Vec<Document> = Vec::new();
            let mut i: usize = 0;
            while i < items.len()
                invariant
                    i <= items@.len(),
                    items_view(documents@) == coerced_items(values_view(items@), i as nat),
                    forall|k: int| 0 <= k < items@.len() ==> decreases_to!(value => items@[k]),
                decreases items@.len() - i,
            {
                let ghost before = items_view(documents@);
                let document = xmlrpc_to_json(&items[i]);
                documents.push(document);
                assert(items_view(documents@) =~= before.push(document@));
                i += 1;
            }
            proof {
                lemma_list_view(documents);
            }
            Document::List(documents)
        },
        XmlRpcValue::Struct(members) => {
            proof {
                lemma_struct_view(*members);
            }
            let mut object: Vec<(String, Document)> = Vec::new();
            assert(object_view(object@) =~= Seq::empty());
            let mut i: usize = 0;
            while i < members.len()
                invariant
                    i <= members@.len(),
                    object_view(object@) == coerced_members(members_view(members@), i as nat),
                    forall|k: int|
                        0 <= k < members@.len() ==> decreases_to!(value => members@[k].1),
                decreases members@.len() - i,
            {
                let document = xmlrpc_to_json(&members[i].1);
                set_member(&mut object, members[i].0.clone(), document);
                i += 1;
            }
            proof {
                lemma_object_view(object);
            }
            Document::Object(object)
        },
    }
}

/// What an answer amounts to under the envelope convention.
pub enum Interpreted {
    /// The data, as a document.
    Document(DocumentView),
    /// The remote API reported a failure; with its message.
    Remote(Seq<char>),
    /// The embedded payload could not be read; with the reader's message.
    Malformed(Seq<char>),
}

/// Whether a value is an envelope: an array of two or three items.
pub open spec fn is_envelope(value: ValueView) -> bool {
    value matches ValueView::Array(items) && (items.len() == 2 || items.len() == 3)
}

/// The message that stands for a failure whose data is no string.
pub open spec fn unknown_error() -> Seq<char> {
    "Unknown error"@
}

/// The envelope convention, on the tokens that an embedded payload reads
/// as: in an array of two or three items the first is the success flag
/// (anything but `false` counts as success) and the second the data. On
/// failure the data is the message. On success a string is an embedded
/// payload and is transcoded, an integer is a numeric leaf, anything else is
/// coerced. A value that is no envelope is coerced as it stands.
pub open spec fn interpreted(value: ValueView) -> Interpreted {
    if is_envelope(value) {
        let flag = value->Array_0[0];
        let data = value->Array_0[1];
        if flag == ValueView::Boolean(false) {
            match data {
                ValueView::String(message) => Interpreted::Remote(message),
                _ => Interpreted::Remote(unknown_error()),
            }
        } else {
            match data {
                ValueView::String(payload) => match transcoded(xml_tokens(payload, true)) {
                    Transcoded::Document(document) => Interpreted::Document(document),
                    Transcoded::Malformed(message) => Interpreted::Malformed(message),
                },
                _ => Interpreted::Document(coerced(data)),
            }
        }
    } else {
        Interpreted::Document(coerced(value))
    }
}

/// The outcome of interpreting, as the interpreter returns it.
pub open spec fn interpreted_view(result: Result<Document, ApiError>) -> Option<Interpreted> {
    match result {
        Ok(document) => Some(Interpreted::Document(document@)),
        Err(ApiError::Remote(message)) => Some(Interpreted::Remote(message@)),
        Err(ApiError::Malformed(message)) => Some(Interpreted::Malformed(message@)),
        _ => None,
    }
}

/// Applies the envelope convention to a decoded value.
pub fn interpret(value: &XmlRpcValue) -> (result: Result<Document, ApiError>)
    ensures
        interpreted_view(result) == Some(interpreted(value@)),
{
    match value {
        XmlRpcValue::Array(items) => {
            proof {
                lemma_array_view(*items);
            }
            if items.len() == 2 || items.len() == 3 {
                let success = match &items[0] {
                    XmlRpcValue::Boolean(b) => *b,
                    _ => true,
                };
                if !success {
                    return match &items[1] {
                        XmlRpcValue::String(message) => Err(ApiError::Remote(message.clone())),
                        _ => Err(ApiError::Remote(String::from_str("Unknown error"))),
                    };
                }
                match &items[1] {
                    XmlRpcValue::String(payload) => parse_one_xml_to_json(payload.as_str()),
                    data => Ok(xmlrpc_to_json(data)),
                }
            } else {
                Ok(xmlrpc_to_json(value))
            }
        },
        _ => Ok(xmlrpc_to_json(value)),
    }
}

/// What the text of a response amounts to for the caller.
pub enum Answer {
    /// The data, as a document.
    Document(DocumentView),
    /// The remote API reported a failure; with its message.
    Remote(Seq<char>),
    /// The server answered with a fault.
    Fault(ValueView),
    /// The response or its embedded payload could not be read.
    Malformed(Seq<char>),
    /// The response holds neither a fault nor a parameter value.
    Invalid,
}

/// The answer in the tokens of a response.
pub open spec fn answer(decoded: Decoded) -> Answer {
    match decoded {
        Decoded::Success(value) => match interpreted(value) {
            Interpreted::Document(document) => Answer::Document(document),
            Interpreted::Remote(message) => Answer::Remote(message),
            Interpreted::Malformed(message) => Answer::Malformed(message),
        },
        Decoded::Fault(fault) => Answer::Fault(fault),
        Decoded::Malformed(message) => Answer::Malformed(message),
        Decoded::Invalid => Answer::Invalid,
    }
}

/// The answer, as `interpret_response` returns it.
pub open spec fn answer_view(result: Result<Document, ApiError>) -> Option<Answer> {
    match result {
        Ok(document) => Some(Answer::Document(document@)),
        Err(ApiError::Remote(message)) => Some(Answer::Remote(message@)),
        Err(ApiError::Fault(fault)) => Some(Answer::Fault(fault@)),
        Err(ApiError::Malformed(message)) => Some(Answer::Malformed(message@)),
        Err(ApiError::InvalidResponse) => Some(Answer::Invalid),
        _ => None,
    }
}

/// Applies the envelope convention to a decoded response; a fault is an
/// error.
pub fn interpret_decoded(response: XmlRpcResponse) -> (result: Result<Document, ApiError>)
    ensures
        response matches XmlRpcResponse::Success(value) ==> answer_view(result) == Some(
            answer(Decoded::Success(value@)),
        ),
        response matches XmlRpcResponse::Fault(fault) ==> answer_view(result) == Some(
            Answer::Fault(fault@),
        ),
{
    match response {
        XmlRpcResponse::Success(value) => interpret(&value),
        XmlRpcResponse::Fault(fault) => Err(ApiError::Fault(fault)),
    }
}

/// Decodes the text of a response and applies the envelope convention.
pub fn interpret_response(body: &str) -> (result: Result<Document, ApiError>)
    ensures
        answer_view(result) == Some(answer(decoded(xml_tokens(body@, false)))),
{
    match parse_response(body) {
        Ok(response) => interpret_decoded(response),
        Err(error) => Err(error),
    }
}

} // verus!
