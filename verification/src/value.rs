//! The values that travel in XML-RPC calls and responses.

use crate::text::{decimal_text, format_i64};
use vstd::prelude::*;
use vstd::string::*;

verus! {

/// An XML-RPC value. A double is carried as the text of its number, as it
/// stands on the wire; members of a struct keep the order in which they
/// were met.
#[derive(Debug)]
pub enum XmlRpcValue {
    String(String),
    Int(i32),
    Boolean(bool),
    Double(String),
    Array(Vec<XmlRpcValue>),
    Struct(Vec<(String, XmlRpcValue)>),
}

/// The mathematical content of an `XmlRpcValue`.
pub enum ValueView {
    String(Seq<char>),
    Int(i32),
    Boolean(bool),
    Double(Seq<char>),
    Array(Seq<ValueView>),
    Struct(Seq<(Seq<char>, ValueView)>),
}

/// The content of a value: texts as character sequences, lists as
/// sequences of contents.
pub open spec fn value_view(value: XmlRpcValue) -> ValueView
    decreases value,
{
    match value {
        XmlRpcValue::String(s) => ValueView::String(s@),
        XmlRpcValue::Int(i) => ValueView::Int(i),
        XmlRpcValue::Boolean(b) => ValueView::Boolean(b),
        XmlRpcValue::Double(d) => ValueView::Double(d@),
        XmlRpcValue::Array(items) => ValueView::Array(
            Seq::new(
                items@.len(),
                |i: int|
                    if 0 <= i < items@.len() {
                        value_view(items@[i])
                    } else {
                        ValueView::Boolean(false)
                    },
            ),
        ),
        XmlRpcValue::Struct(members) => ValueView::Struct(
            Seq::new(
                members@.len(),
                |i: int|
                    if 0 <= i < members@.len() {
                        (members@[i].0@, value_view(members@[i].1))
                    } else {
                        (Seq::empty(), ValueView::Boolean(false))
                    },
            ),
        ),
    }
}

impl View for XmlRpcValue {
    type V = ValueView;

    open spec fn view(&self) -> ValueView {
        value_view(*self)
    }
}

/// The contents of a list of values.
pub open spec fn values_view(items: Seq<XmlRpcValue>) -> Seq<ValueView> {
    Seq::new(items.len(), |i: int| items[i]@)
}

/// The contents of a list of named values.
pub open spec fn members_view(members: Seq<(String, XmlRpcValue)>) -> Seq<(Seq<char>, ValueView)> {
    Seq::new(members.len(), |i: int| (members[i].0@, members[i].1@))
}

/// The view of an array is the list of the views of its items.
pub proof fn lemma_array_view(items: Vec<XmlRpcValue>)
    ensures
        XmlRpcValue::Array(items)@ == ValueView::Array(values_view(items@)),
{
    let whole = XmlRpcValue::Array(items);
    assert(whole@ is Array);
    assert(whole@->Array_0.len() == items@.len());
    assert forall|i: int| 0 <= i < items@.len() implies whole@->Array_0[i] == values_view(
        items@,
    )[i] by {}
    assert(whole@->Array_0 =~= values_view(items@));
}

/// The view of a struct is the list of its names, each with the view of
/// its value.
pub proof fn lemma_struct_view(members: Vec<(String, XmlRpcValue)>)
    ensures
        XmlRpcValue::Struct(members)@ == ValueView::Struct(members_view(members@)),
{
    let whole = XmlRpcValue::Struct(members);
    assert(whole@ is Struct);
    assert(whole@->Struct_0.len() == members@.len());
    assert forall|i: int| 0 <= i < members@.len() implies whole@->Struct_0[i] == members_view(
        members@,
    )[i] by {}
    assert(whole@->Struct_0 =~= members_view(members@));
}

impl Clone for XmlRpcValue {
    /// A copy with the same content.
    fn clone(&self) -> (copy: XmlRpcValue)
        ensures
            copy@ == self@,
        decreases self,
    {
        match self {
            XmlRpcValue::String(s) => XmlRpcValue::String(s.clone()),
            XmlRpcValue::Int(i) => XmlRpcValue::Int(*i),
            XmlRpcValue::Boolean(b) => XmlRpcValue::Boolean(*b),
            XmlRpcValue::Double(d) => XmlRpcValue::Double(d.clone()),
            XmlRpcValue::Array(items) => {
                let mut copies: Vec<XmlRpcValue> = Vec::new();
                let mut i: usize = 0;
                while i < items.len()
                    invariant
                        i <= items@.len(),
                        copies@.len() == i,
                        forall|k: int| 0 <= k < i ==> copies@[k]@ == items@[k]@,
                        forall|k: int| 0 <= k < items@.len() ==> decreases_to!(self => items@[k]),
                    decreases items@.len() - i,
                {
                    copies.push(items[i].clone());
                    i += 1;
                }
                proof {
                    lemma_array_view(copies);
                    lemma_array_view(*items);
                    assert(values_view(copies@) =~= values_view(items@));
                }
                XmlRpcValue::Array(copies)
            },
            XmlRpcValue::Struct(members) => {
                let mut copies: Vec<(String, XmlRpcValue)> = Vec::new();
                let mut i: usize = 0;
                while i < members.len()
                    invariant
                        i <= members@.len(),
                        copies@.len() == i,
                        forall|k: int|
                            0 <= k < i ==> copies@[k].0@ == members@[k].0@ && copies@[k].1@
                                == members@[k].1@,
                        forall|k: int|
                            0 <= k < members@.len() ==> decreases_to!(self => members@[k].1),
                    decreases members@.len() - i,
                {
                    copies.push((members[i].0.clone(), members[i].1.clone()));
                    i += 1;
                }
                proof {
                    lemma_struct_view(copies);
                    lemma_struct_view(*members);
                    assert(members_view(copies@) =~= members_view(members@));
                }
                XmlRpcValue::Struct(copies)
            },
        }
    }
}

impl From<String> for XmlRpcValue {
    fn from(s: String) -> (value: XmlRpcValue) {
        XmlRpcValue::String(s)
    }
}

impl vstd::std_specs::convert::FromSpecImpl<String> for XmlRpcValue {
    open spec fn obeys_from_spec() -> bool {
        true
    }

    open spec fn from_spec(s: String) -> XmlRpcValue {
        XmlRpcValue::String(s)
    }
}

impl From<i32> for XmlRpcValue {
    fn from(i: i32) -> (value: XmlRpcValue) {
        XmlRpcValue::Int(i)
    }
}

impl vstd::std_specs::convert::FromSpecImpl<i32> for XmlRpcValue {
    open spec fn obeys_from_spec() -> bool {
        true
    }

    open spec fn from_spec(i: i32) -> XmlRpcValue {
        XmlRpcValue::Int(i)
    }
}

impl From<bool> for XmlRpcValue {
    fn from(b: bool) -> (value: XmlRpcValue) {
        XmlRpcValue::Boolean(b)
    }
}

impl vstd::std_specs::convert::FromSpecImpl<bool> for XmlRpcValue {
    open spec fn obeys_from_spec() -> bool {
        true
    }

    open spec fn from_spec(b: bool) -> XmlRpcValue {
        XmlRpcValue::Boolean(b)
    }
}

impl XmlRpcValue {
    /// The string value that holds a text.
    pub fn text(s: &str) -> (value: XmlRpcValue)
        ensures
            value@ == ValueView::String(s@),
    {
        XmlRpcValue::String(String::from_str(s))
    }
}

/// What a server answered: a value, or a fault with its description.
#[derive(Debug)]
pub enum XmlRpcResponse {
    Success(XmlRpcValue),
    Fault(XmlRpcValue),
}

impl XmlRpcResponse {
    /// Whether the answer is a value and no fault.
    pub fn is_success(&self) -> (success: bool)
        ensures
            success == (self is Success),
    {
        match self {
            XmlRpcResponse::Success(_) => true,
            XmlRpcResponse::Fault(_) => false,
        }
    }

    /// The value of a successful answer; a fault comes back as the error.
    pub fn into_value(self) -> (value: Result<XmlRpcValue, XmlRpcValue>)
        ensures
            self matches XmlRpcResponse::Success(v) ==> value == Ok::<XmlRpcValue, XmlRpcValue>(v),
            self matches XmlRpcResponse::Fault(f) ==> value == Err::<XmlRpcValue, XmlRpcValue>(f),
    {
        match self {
            XmlRpcResponse::Success(v) => Ok(v),
            XmlRpcResponse::Fault(f) => Err(f),
        }
    }
}

/// What formatting a text for diagnostics gives: the text between double
/// quotes, with quotes, backslashes and control characters escaped.
pub uninterp spec fn quoted(text: Seq<char>) -> Seq<char>;

/// `format!` with `{:?}` on a string slice: the text as a quoted literal.
#[verifier::external_body]
fn quote(text: &str) -> (literal: String)
    ensures
        literal@ == quoted(text@),
{
    format!("{:?}", text)
}

/// A value described for diagnostics: the name of its kind, with the
/// content in brackets; strings are quoted, lists stand in square brackets
/// with their parts separated by a comma and a space.
pub open spec fn described(value: ValueView) -> Seq<char>
    decreases value, 0nat,
{
    match value {
        ValueView::String(s) => "String("@ + quoted(s) + ")"@,
        ValueView::Int(i) => "Int("@ + decimal_text(i as int) + ")"@,
        ValueView::Boolean(b) => if b {
            "Boolean(true)"@
        } else {
            "Boolean(false)"@
        },
        ValueView::Double(d) => "Double("@ + d + ")"@,
        ValueView::Array(items) => "Array(["@ + described_items(items, items.len()) + "])"@,
        ValueView::Struct(members) => "Struct(["@ + described_members(members, members.len())
            + "])"@,
    }
}

/// The descriptions of the first `count` values of a list.
pub open spec fn described_items(items: Seq<ValueView>, count: nat) -> Seq<char>
    decreases items, count,
{
    if count == 0 || count > items.len() {
        Seq::empty()
    } else if count == 1 {
        described(items[0])
    } else {
        described_items(items, (count - 1) as nat) + ", "@ + described(items[count - 1])
    }
}

/// The descriptions of the first `count` members of a struct, each as a
/// pair of the quoted name and the value.
pub open spec fn described_members(members: Seq<(Seq<char>, ValueView)>, count: nat) -> Seq<char>
    decreases members, count,
{
    if count == 0 || count > members.len() {
        Seq::empty()
    } else if count == 1 {
        "("@ + quoted(members[0].0) + ", "@ + described(members[0].1) + ")"@
    } else {
        described_members(members, (count - 1) as nat) + ", "@ + "("@ + quoted(
            members[count - 1].0,
        ) + ", "@ + described(members[count - 1].1) + ")"@
    }
}

/// Describes a value for diagnostics.
pub fn describe(value: &XmlRpcValue) -> (text: String)
    ensures
        text@ == described(value@),
    decreases value,
{
    match value {
        XmlRpcValue::String(s) => String::from_str("String(").concat(quote(s.as_str()).as_str())
            .concat(")"),
        XmlRpcValue::Int(i) => String::from_str("Int(").concat(format_i64(*i as i64).as_str())
            .concat(")"),
        XmlRpcValue::Boolean(b) => if *b {
            String::from_str("Boolean(true)")
        } else {
            String::from_str("Boolean(false)")
        },
        XmlRpcValue::Double(d) => String::from_str("Double(").concat(d.as_str()).concat(")"),
        XmlRpcValue::Array(items) => {
            proof {
                lemma_array_view(*items);
            }
            let mut text = String::from_str("Array([");
            let ghost head = text@;
            let mut i: usize = 0;
            while i < items.len()
                invariant
                    i <= items@.len(),
                    text@ == head + described_items(values_view(items@), i as nat),
                    forall|k: int| 0 <= k < items@.len() ==> decreases_to!(value => items@[k]),
                decreases items@.len() - i,
            {
                if i > 0 {
                    text.append(", ");
                }
                text.append(describe(&items[i]).as_str());
                i += 1;
            }
            text.append("])");
            text
        },
        XmlRpcValue::Struct(members) => {
            proof {
                lemma_struct_view(*members);
            }
            let mut text = String::from_str("Struct([");
            let ghost head = text@;
            let mut i: usize = 0;
            while i < members.len()
                invariant
                    i <= members@.len(),
                    text@ == head + described_members(members_view(members@), i as nat),
                    forall|k: int|
                        0 <= k < members@.len() ==> decreases_to!(value => members@[k].1),
                decreases members@.len() - i,
            {
                if i > 0 {
                    text.append(", ");
                }
                text.append("(");
                text.append(quote(members[i].0.as_str()).as_str());
                text.append(", ");
                text.append(describe(&members[i].1).as_str());
                text.append(")");
                i += 1;
            }
            text.append("])");
            text
        },
    }
}

} // verus!
