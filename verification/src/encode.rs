//! The request encoder: a method name and its parameters become the text
//! of an XML-RPC call.

use crate::text::{decimal_text, format_i64};
use crate::value::{
    lemma_array_view, lemma_struct_view, members_view, values_view, ValueView, XmlRpcValue,
};
use crate::xml::{declaration, end_tag, escaped, start_tag, Markup};
use vstd::prelude::*;

verus! {

/// An element that holds character data only.
pub open spec fn text_element(name: Seq<char>, text: Seq<char>) -> Seq<char> {
    start_tag(name) + escaped(text) + end_tag(name)
}

/// The text of one value: a `value` element around an element named after
/// the value's type.
pub open spec fn encoded_value(value: ValueView) -> Seq<char>
    decreases value, 0nat,
{
    start_tag("value"@) + (match value {
        ValueView::String(s) => text_element("string"@, s),
        ValueView::Int(i) => text_element("int"@, decimal_text(i as int)),
        ValueView::Boolean(b) => text_element(
            "boolean"@,
            if b {
                seq!['1']
            } else {
                seq!['0']
            },
        ),
        ValueView::Double(d) => text_element("double"@, d),
        ValueView::Array(items) => start_tag("array"@) + start_tag("data"@) + encoded_items(
            items,
            items.len(),
        ) + end_tag("data"@) + end_tag("array"@),
        ValueView::Struct(members) => start_tag("struct"@) + encoded_members(
            members,
            members.len(),
        ) + end_tag("struct"@),
    }) + end_tag("value"@)
}

/// The texts of the first `count` values of a list, one after the other.
pub open spec fn encoded_items(items: Seq<ValueView>, count: nat) -> Seq<char>
    decreases items, count,
{
    if count == 0 || count > items.len() {
        Seq::empty()
    } else {
        encoded_items(items, (count - 1) as nat) + encoded_value(items[count - 1])
    }
}

/// The texts of the first `count` members of a struct: each a `member`
/// element with the name, then the value.
pub open spec fn encoded_members(members: Seq<(Seq<char>, ValueView)>, count: nat) -> Seq<char>
    decreases members, count,
{
    if count == 0 || count > members.len() {
        Seq::empty()
    } else {
        encoded_members(members, (count - 1) as nat) + start_tag("member"@) + text_element(
            "name"@,
            members[count - 1].0,
        ) + encoded_value(members[count - 1].1) + end_tag("member"@)
    }
}

/// The texts of the first `count` parameters of a call, each in a `param`
/// element.
pub open spec fn encoded_params(params: Seq<ValueView>, count: nat) -> Seq<char>
    decreases count,
{
    if count == 0 || count > params.len() {
        Seq::empty()
    } else {
        encoded_params(params, (count - 1) as nat) + start_tag("param"@) + encoded_value(
            params[count - 1],
        ) + end_tag("param"@)
    }
}

/// The text of a call: the declaration, then a `methodCall` element with
/// the method's name and the parameters in order.
pub open spec fn encoded_call(method: Seq<char>, params: Seq<ValueView>) -> Seq<char> {
    declaration() + start_tag("methodCall"@) + text_element("methodName"@, method) + start_tag(
        "params"@,
    ) + encoded_params(params, params.len()) + end_tag("params"@) + end_tag("methodCall"@)
}

/// Appends the text of one value to a document.
pub fn write_value(markup: &mut Markup, value: &XmlRpcValue)
    ensures
        final(markup).text() == old(markup).text() + encoded_value(value@),
    decreases value,
{
    let ghost before = markup.text();
    markup.open("value");
    match value {
        XmlRpcValue::String(s) => {
            markup.element("string", s.as_str());
        },
        XmlRpcValue::Int(i) => {
            let digits = format_i64(*i as i64);
            markup.element("int", digits.as_str());
        },
        XmlRpcValue::Boolean(b) => {
            proof {
                reveal_strlit("1");
                reveal_strlit("0");
                assert("1"@ =~= seq!['1']);
                assert("0"@ =~= seq!['0']);
            }
            markup.element("boolean", if *b { "1" } else { "0" });
        },
        XmlRpcValue::Double(d) => {
            markup.element("double", d.as_str());
        },
        XmlRpcValue::Array(items) => {
            markup.open("array");
            markup.open("data");
            let ghost inner = markup.text();
            let mut i: usize = 0;
            while i < items.len()
                invariant
                    i <= items@.len(),
                    markup.text() == inner + encoded_items(values_view(items@), i as nat),
                    forall|k: int| 0 <= k < items@.len() ==> decreases_to!(value => items@[k]),
                decreases items@.len() - i,
            {
                write_value(markup, &items[i]);
                i += 1;
            }
            markup.close("data");
            markup.close("array");
            proof {
                lemma_array_view(*items);
            }
        },
        XmlRpcValue::Struct(members) => {
            markup.open("struct");
            let ghost inner = markup.text();
            let mut i: usize = 0;
            while i < members.len()
                invariant
                    i <= members@.len(),
                    markup.text() == inner + encoded_members(members_view(members@), i as nat),
                    forall|k: int|
                        0 <= k < members@.len() ==> decreases_to!(value => members@[k].1),
                decreases members@.len() - i,
            {
                markup.open("member");
                markup.element("name", members[i].0.as_str());
                write_value(markup, &members[i].1);
                markup.close("member");
                i += 1;
            }
            markup.close("struct");
            proof {
                lemma_struct_view(*members);
            }
        },
    }
    markup.close("value");
}

/// The text of a call of `method` with the given parameters, in order. The
/// encoder adds nothing of its own to the parameters.
pub fn build_method_call(method: &str, params: &Vec<XmlRpcValue>) -> (document: String)
    ensures
        document@ == encoded_call(method@, values_view(params@)),
{
    let mut markup = Markup::new();
    markup.declare();
    markup.open("methodCall");
    markup.element("methodName", method);
    markup.open("params");
    let ghost inner = markup.text();
    let mut i: usize = 0;
    while i < params.len()
        invariant
            i <= params@.len(),
            markup.text() == inner + encoded_params(values_view(params@), i as nat),
        decreases params@.len() - i,
    {
        markup.open("param");
        write_value(&mut markup, &params[i]);
        markup.close("param");
        i += 1;
    }
    markup.close("params");
    markup.close("methodCall");
    markup.finish()
}

} // verus!
