//! The response decoder: the tokens of an XML-RPC response become a value
//! tree or a fault. The decoder is tolerant: a value without a type tag is
//! a string, an integer or a double that cannot be read is zero. A document
//! that ends inside a value is malformed.

use crate::error::ApiError;
use crate::text::{
    chars_of, is_float, is_float_text, lowercase, lowercased, parse_i32, parsed_i32, str_eq, trim,
    trimmed,
};
use crate::value::{
    lemma_array_view, lemma_struct_view, members_view, values_view, ValueView, XmlRpcResponse,
    XmlRpcValue,
};
use crate::xml::{tokenize, unclosed, unopened, xml_tokens, Token};
use vstd::prelude::*;
use vstd::string::*;

verus! {

/// The type under which a value is read, set by the first type tag met.
#[derive(Clone, Copy, Debug, PartialEq, Eq, Structural)]
pub enum Kind {
    /// No type tag met yet.
    Unset,
    /// `string`, or a `data` or `member` tag met out of place.
    Text,
    /// `int` or `i4`.
    Int,
    /// `boolean`.
    Boolean,
    /// `double`.
    Double,
    /// `array`.
    Array,
    /// `struct`.
    Struct,
}

/// The kind that a tag name sets, if it is a type tag.
pub open spec fn kind_of(name: Seq<char>) -> Option<Kind> {
    if name == "string"@ || name == "data"@ || name == "member"@ {
        Some(Kind::Text)
    } else if name == "int"@ || name == "i4"@ {
        Some(Kind::Int)
    } else if name == "boolean"@ {
        Some(Kind::Boolean)
    } else if name == "double"@ {
        Some(Kind::Double)
    } else if name == "array"@ {
        Some(Kind::Array)
    } else if name == "struct"@ {
        Some(Kind::Struct)
    } else {
        None
    }
}

/// What has been read of one value that is still open.
pub struct FrameView {
    /// How many untyped `value` tags were opened inside and not yet closed.
    pub extra: nat,
    pub kind: Kind,
    /// Whether reading stands inside the element that set the kind.
    pub inside: bool,
    /// The character data met so far inside the element that set the kind.
    pub text: Seq<char>,
    /// The character data met directly in the value before any type tag.
    pub bare: Seq<char>,
    /// The items read so far, for an array.
    pub items: Seq<ValueView>,
    /// The members read so far, for a struct.
    pub members: Seq<(Seq<char>, ValueView)>,
    /// The name that the next member will get.
    pub name: Seq<char>,
    pub in_name: bool,
}

/// The state in which the reading of a value starts.
pub open spec fn fresh_frame() -> FrameView {
    FrameView {
        extra: 0,
        kind: Kind::Unset,
        inside: false,
        text: Seq::empty(),
        bare: Seq::empty(),
        items: Seq::empty(),
        members: Seq::empty(),
        name: Seq::empty(),
        in_name: false,
    }
}

/// The text of the double that stands for a text that is no number.
pub open spec fn zero_text() -> Seq<char> {
    seq!['0']
}

/// The integer that a text stands for: the text is read as it stands,
/// then without the white space at its edges; zero where neither is an
/// integer.
pub open spec fn read_int(text: Seq<char>) -> i32 {
    match parsed_i32(text) {
        Some(i) => i,
        None => match parsed_i32(trimmed(text)) {
            Some(i) => i,
            None => 0i32,
        },
    }
}

/// Whether a text reads as true: `1` does and `0` does not; any other
/// text does where its lower-case form is `true`.
pub open spec fn is_true(text: Seq<char>) -> bool {
    text == "1"@ || (text != "0"@ && lowercased(text) == "true"@)
}

/// The truth value that a text stands for, as it stands or without the
/// white space at its edges.
pub open spec fn read_boolean(text: Seq<char>) -> bool {
    is_true(text) || is_true(trimmed(text))
}

/// The double that a text stands for: the text where it is a number, as
/// it stands or without the white space at its edges; zero otherwise.
pub open spec fn read_double(text: Seq<char>) -> Seq<char> {
    if is_float_text(text) {
        text
    } else if is_float_text(trimmed(text)) {
        trimmed(text)
    } else {
        zero_text()
    }
}

/// The value that a frame amounts to when its closing tag is met. A value
/// without a type tag is the string of the character data that stands
/// directly in it; a typed leaf takes the character data inside its type
/// element and nothing else.
pub open spec fn finished(frame: FrameView) -> ValueView {
    match frame.kind {
        Kind::Unset => ValueView::String(frame.bare),
        Kind::Text => ValueView::String(frame.text),
        Kind::Int => ValueView::Int(read_int(frame.text)),
        Kind::Boolean => ValueView::Boolean(read_boolean(frame.text)),
        Kind::Double => ValueView::Double(read_double(frame.text)),
        Kind::Array => ValueView::Array(frame.items),
        Kind::Struct => ValueView::Struct(frame.members),
    }
}

/// A frame after a nested value was read inside it: the value joins the
/// items of an array, or the members of a struct under the pending name.
pub open spec fn with_nested(frame: FrameView, value: ValueView) -> FrameView {
    if frame.kind == Kind::Array {
        FrameView { items: frame.items.push(value), ..frame }
    } else {
        FrameView {
            members: frame.members.push((frame.name, value)),
            name: Seq::empty(),
            ..frame
        }
    }
}

/// What one token does to the values that are open.
pub enum Step {
    /// Reading goes on with these open values, innermost last.
    Continue(Seq<FrameView>),
    /// The outermost value is complete.
    Finish(ValueView),
    /// The reader failed; with its message.
    Fail(Seq<char>),
}

/// The effect of one token on a non-empty stack of open values. The end of
/// the document is not handled here.
pub open spec fn step(stack: Seq<FrameView>, token: Token) -> Step {
    let top = stack.last();
    let below = stack.drop_last();
    match token {
        Token::Malformed(message) => Step::Fail(message@),
        Token::Start(name) => {
            if name@ == "value"@ {
                if top.kind == Kind::Array || top.kind == Kind::Struct {
                    Step::Continue(stack.push(fresh_frame()))
                } else {
                    Step::Continue(below.push(FrameView { extra: top.extra + 1, ..top }))
                }
            } else if name@ == "name"@ {
                Step::Continue(below.push(FrameView { in_name: true, ..top }))
            } else if kind_of(name@) is Some && top.kind == Kind::Unset {
                Step::Continue(
                    below.push(FrameView { kind: kind_of(name@).unwrap(), inside: true, ..top }),
                )
            } else {
                Step::Continue(stack)
            }
        },
        Token::End(name) => {
            if name@ == "value"@ {
                if top.extra > 0 {
                    Step::Continue(below.push(FrameView { extra: (top.extra - 1) as nat, ..top }))
                } else if below.len() == 0 {
                    Step::Finish(finished(top))
                } else {
                    Step::Continue(
                        below.drop_last().push(with_nested(below.last(), finished(top))),
                    )
                }
            } else if name@ == "name"@ {
                Step::Continue(below.push(FrameView { in_name: false, ..top }))
            } else if top.kind != Kind::Unset && kind_of(name@) == Some(top.kind) {
                Step::Continue(below.push(FrameView { inside: false, ..top }))
            } else {
                Step::Continue(stack)
            }
        },
        Token::Text(text) => {
            if top.in_name {
                Step::Continue(below.push(FrameView { name: text@, ..top }))
            } else if top.inside {
                Step::Continue(below.push(FrameView { text: top.text + text@, ..top }))
            } else if top.kind == Kind::Unset {
                Step::Continue(below.push(FrameView { bare: top.bare + text@, ..top }))
            } else {
                Step::Continue(stack)
            }
        },
        _ => Step::Continue(stack),
    }
}

/// The outcome of reading one value.
pub enum Scan {
    /// The value, and the position of the token after it.
    Value(ValueView, int),
    /// The reader failed or the document ended inside the value; with the
    /// message.
    Failed(Seq<char>),
}

/// The message for a document that ends inside a value.
pub open spec fn cut_short() -> Seq<char> {
    "document ends inside a value"@
}

/// Reads on from `pos` with the given values open. Where the document ends
/// before the outermost value is closed, the reading has failed.
pub open spec fn scan(tokens: Seq<Token>, pos: int, stack: Seq<FrameView>) -> Scan
    decreases tokens.len() - pos,
{
    if pos < 0 || pos >= tokens.len() || tokens[pos] is Eof {
        Scan::Failed(cut_short())
    } else {
        match step(stack, tokens[pos]) {
            Step::Continue(next) => scan(tokens, pos + 1, next),
            Step::Finish(value) => Scan::Value(value, pos + 1),
            Step::Fail(message) => Scan::Failed(message),
        }
    }
}

/// The value whose content starts at `start`, just after its opening tag.
pub open spec fn value_at(tokens: Seq<Token>, start: int) -> Scan {
    scan(tokens, start, seq![fresh_frame()])
}

struct Frame {
    extra: usize,
    kind: Kind,
    inside: bool,
    text: String,
    bare: String,
    items: Vec<XmlRpcValue>,
    members: Vec<(String, XmlRpcValue)>,
    name: String,
    in_name: bool,
}

impl View for Frame {
    type V = FrameView;

    closed spec fn view(&self) -> FrameView {
        FrameView {
            extra: self.extra as nat,
            kind: self.kind,
            inside: self.inside,
            text: self.text@,
            bare: self.bare@,
            items: values_view(self.items@),
            members: members_view(self.members@),
            name: self.name@,
            in_name: self.in_name,
        }
    }
}

spec fn stack_view(stack: Seq<Frame>) -> Seq<FrameView> {
    Seq::new(stack.len(), |i: int| stack[i]@)
}

fn new_frame() -> (frame: Frame)
    ensures
        frame@ == fresh_frame(),
{
    let frame = Frame {
        extra: 0,
        kind: Kind::Unset,
        inside: false,
        text: String::new(),
        bare: String::new(),
        items: Vec::new(),
        members: Vec::new(),
        name: String::new(),
        in_name: false,
    };
    assert(frame@.items =~= Seq::empty());
    assert(frame@.members =~= Seq::empty());
    frame
}

/// The kind that a tag name sets, if it is a type tag.
fn kind_for(name: &str) -> (kind: Option<Kind>)
    ensures
        kind == kind_of(name@),
{
    if str_eq(name, "string") || str_eq(name, "data") || str_eq(name, "member") {
        Some(Kind::Text)
    } else if str_eq(name, "int") || str_eq(name, "i4") {
        Some(Kind::Int)
    } else if str_eq(name, "boolean") {
        Some(Kind::Boolean)
    } else if str_eq(name, "double") {
        Some(Kind::Double)
    } else if str_eq(name, "array") {
        Some(Kind::Array)
    } else if str_eq(name, "struct") {
        Some(Kind::Struct)
    } else {
        None
    }
}

fn truth_of(text: &str) -> (truth: bool)
    ensures
        truth == is_true(text@),
{
    str_eq(text, "1") || (!str_eq(text, "0") && str_eq(lowercase(text).as_str(), "true"))
}

fn finish(frame: Frame) -> (value: XmlRpcValue)
    ensures
        value@ == finished(frame@),
{
    match frame.kind {
        Kind::Unset => XmlRpcValue::String(frame.bare),
        Kind::Text => XmlRpcValue::String(frame.text),
        Kind::Int => {
            match parse_i32(&chars_of(frame.text.as_str())) {
                Some(i) => XmlRpcValue::Int(i),
                None => match parse_i32(&chars_of(trim(frame.text.as_str()).as_str())) {
                    Some(i) => XmlRpcValue::Int(i),
                    None => XmlRpcValue::Int(0),
                },
            }
        },
        Kind::Boolean => {
            let truth = truth_of(frame.text.as_str()) || truth_of(
                trim(frame.text.as_str()).as_str(),
            );
            XmlRpcValue::Boolean(truth)
        },
        Kind::Double => {
            if is_float(&chars_of(frame.text.as_str())) {
                XmlRpcValue::Double(frame.text)
            } else {
                let inner = trim(frame.text.as_str());
                if is_float(&chars_of(inner.as_str())) {
                    XmlRpcValue::Double(inner)
                } else {
                    proof {
                        reveal_strlit("0");
                        assert("0"@ =~= zero_text());
                    }
                    XmlRpcValue::Double(String::from_str("0"))
                }
            }
        },
        Kind::Array => {
            proof {
                lemma_array_view(frame.items);
            }
            XmlRpcValue::Array(frame.items)
        },
        Kind::Struct => {
            proof {
                lemma_struct_view(frame.members);
            }
            XmlRpcValue::Struct(frame.members)
        },
    }
}

fn nest(frame: Frame, value: XmlRpcValue) -> (joined: Frame)
    ensures
        joined@ == with_nested(frame@, value@),
        joined.extra == frame.extra,
{
    let mut joined = frame;
    if joined.kind == Kind::Array {
        joined.items.push(value);
        assert(values_view(joined.items@) =~= values_view(frame.items@).push(value@));
    } else {
        let name = joined.name;
        joined.name = String::new();
        joined.members.push((name, value));
        assert(members_view(joined.members@) =~= members_view(frame.members@).push(
            (frame.name@, value@),
        ));
    }
    joined
}

spec fn extras_within(stack: Seq<Frame>, bound: int) -> bool {
    forall|k: int| 0 <= k < stack.len() ==> (#[trigger] stack[k]).extra <= bound
}

proof fn lemma_stack_push(stack: Seq<Frame>, frame: Frame)
    ensures
        stack_view(stack.push(frame)) == stack_view(stack).push(frame@),
{
    assert(stack_view(stack.push(frame)) =~= stack_view(stack).push(frame@));
}

proof fn lemma_stack_drop_last(stack: Seq<Frame>)
    requires
        stack.len() > 0,
    ensures
        stack_view(stack.drop_last()) == stack_view(stack).drop_last(),
        stack_view(stack).last() == stack.last()@,
{
    assert(stack_view(stack.drop_last()) =~= stack_view(stack).drop_last());
}

/// Applies one token to the open values.
fn advance(stack: &mut Vec<Frame>, token: &Token, bound: usize) -> (out: Option<
    Result<XmlRpcValue, ApiError>,
>)
    requires
        old(stack)@.len() > 0,
        extras_within(old(stack)@, bound as int),
        bound < usize::MAX,
    ensures
        match step(stack_view(old(stack)@), *token) {
            Step::Continue(next) => out is None && final(stack)@.len() > 0 && stack_view(
                final(stack)@,
            ) == next,
            Step::Finish(value) => out matches Some(Ok(v)) && v@ == value,
            Step::Fail(message) => out matches Some(Err(ApiError::Malformed(m))) && m@ == message,
        },
        extras_within(final(stack)@, bound + 1),
{
    let ghost before = stack@;
    proof {
        lemma_stack_drop_last(before);
    }
    match token {
        Token::Malformed(message) => Some(Err(ApiError::Malformed(message.clone()))),
        Token::Start(name) => {
            let mut top = stack.pop().unwrap();
            assert(stack@ =~= before.drop_last());
            if str_eq(name.as_str(), "value") {
                if top.kind == Kind::Array || top.kind == Kind::Struct {
                    stack.push(top);
                    assert(stack@ =~= before);
                    stack.push(new_frame());
                    proof {
                        lemma_stack_push(before, stack@.last());
                    }
                } else {
                    top.extra = top.extra + 1;
                    stack.push(top);
                    proof {
                        lemma_stack_push(before.drop_last(), top);
                    }
                }
            } else if str_eq(name.as_str(), "name") {
                top.in_name = true;
                stack.push(top);
                proof {
                    lemma_stack_push(before.drop_last(), top);
                }
            } else {
                let kind = kind_for(name.as_str());
                if kind.is_some() && top.kind == Kind::Unset {
                    top.kind = kind.unwrap();
                    top.inside = true;
                    stack.push(top);
                    proof {
                        lemma_stack_push(before.drop_last(), top);
                    }
                } else {
                    stack.push(top);
                    assert(stack@ =~= before);
                }
            }
            None
        },
        Token::End(name) => {
            let mut top = stack.pop().unwrap();
            assert(stack@ =~= before.drop_last());
            if str_eq(name.as_str(), "value") {
                if top.extra > 0 {
                    top.extra = top.extra - 1;
                    stack.push(top);
                    proof {
                        lemma_stack_push(before.drop_last(), top);
                    }
                    None
                } else if stack.len() == 0 {
                    Some(Ok(finish(top)))
                } else {
                    proof {
                        lemma_stack_drop_last(before.drop_last());
                    }
                    let parent = stack.pop().unwrap();
                    assert(stack@ =~= before.drop_last().drop_last());
                    let joined = nest(parent, finish(top));
                    stack.push(joined);
                    proof {
                        lemma_stack_push(before.drop_last().drop_last(), joined);
                    }
                    None
                }
            } else if str_eq(name.as_str(), "name") {
                top.in_name = false;
                stack.push(top);
                proof {
                    lemma_stack_push(before.drop_last(), top);
                }
                None
            } else {
                let closes = match kind_for(name.as_str()) {
                    Some(kind) => top.kind != Kind::Unset && kind == top.kind,
                    None => false,
                };
                if closes {
                    top.inside = false;
                    stack.push(top);
                    proof {
                        lemma_stack_push(before.drop_last(), top);
                    }
                } else {
                    stack.push(top);
                    assert(stack@ =~= before);
                }
                None
            }
        },
        Token::Text(text) => {
            let mut top = stack.pop().unwrap();
            assert(stack@ =~= before.drop_last());
            if top.in_name {
                top.name = text.clone();
                stack.push(top);
                proof {
                    lemma_stack_push(before.drop_last(), top);
                }
            } else if top.inside {
                top.text.append(text.as_str());
                stack.push(top);
                proof {
                    lemma_stack_push(before.drop_last(), top);
                }
            } else if top.kind == Kind::Unset {
                top.bare.append(text.as_str());
                stack.push(top);
                proof {
                    lemma_stack_push(before.drop_last(), top);
                }
            } else {
                stack.push(top);
                assert(stack@ =~= before);
            }
            None
        },
        _ => None,
    }
}

/// Reads the value whose content starts at `start`, just after its opening
/// `value` tag: the value and the position after its closing tag.
/// `Malformed` where the reader failed, or where the document ends before
/// the value is closed.
pub fn parse_value_content(tokens: &Vec<Token>, start: usize) -> (result: Result<
    (XmlRpcValue, usize),
    ApiError,
>)
    ensures
        match value_at(tokens@, start as int) {
            Scan::Value(value, next) => result matches Ok((v, after)) && v@ == value && after
                == next,
            Scan::Failed(message) => result matches Err(ApiError::Malformed(m)) && m@ == message,
        },
        result matches Ok((_, after)) ==> after > start,
{
    let mut stack: Vec<Frame> = Vec::new();
    stack.push(new_frame());
    assert(stack_view(stack@) =~= seq![fresh_frame()]);
    let mut pos: usize = start;
    loop
        invariant
            start <= pos,
            stack@.len() > 0,
            extras_within(stack@, pos - start),
            scan(tokens@, pos as int, stack_view(stack@)) == value_at(tokens@, start as int),
        decreases tokens@.len() - pos,
    {
        if pos >= tokens.len() {
            return Err(ApiError::Malformed(String::from_str("document ends inside a value")));
        }
        match &tokens[pos] {
            Token::Eof => {
                return Err(ApiError::Malformed(String::from_str("document ends inside a value")));
            },
            _ => {},
        }
        match advance(&mut stack, &tokens[pos], pos - start) {
            Some(Ok(value)) => {
                return Ok((value, pos + 1));
            },
            Some(Err(error)) => {
                return Err(error);
            },
            None => {},
        }
        pos = pos + 1;
    }
}

/// What a response amounts to.
pub enum Decoded {
    /// A value from the parameter section.
    Success(ValueView),
    /// A value from the fault section.
    Fault(ValueView),
    /// The document is malformed: the reader failed, or the document ends
    /// inside an element, or a closing tag stands outside every element;
    /// with the message.
    Malformed(Seq<char>),
    /// The document holds no value in a fault or parameter section.
    Invalid,
}

/// The section of a response in which reading stands.
#[derive(Clone, Copy, Debug, PartialEq, Eq, Structural)]
pub enum Section {
    /// Outside the two sections.
    Outside,
    /// Inside the `params` element.
    Params,
    /// Inside the `fault` element.
    Fault,
}

/// What is wrong with the document behind a value, where `depth` elements
/// are open: nothing where every one of them is closed before the
/// document ends and nothing else is amiss.
pub open spec fn rest_error(tokens: Seq<Token>, pos: int, depth: nat) -> Option<Seq<char>>
    decreases tokens.len() - pos,
{
    if pos < 0 || pos >= tokens.len() || tokens[pos] is Eof {
        if depth == 0 {
            None
        } else {
            Some(unclosed())
        }
    } else {
        match tokens[pos] {
            Token::Malformed(message) => Some(message@),
            Token::Start(_) => rest_error(tokens, pos + 1, depth + 1),
            Token::End(_) => if depth == 0 {
                Some(unopened())
            } else {
                rest_error(tokens, pos + 1, (depth - 1) as nat)
            },
            _ => rest_error(tokens, pos + 1, depth),
        }
    }
}

/// The section that an opening tag enters: `params` and `fault` are
/// sections where they are children of the root element.
pub open spec fn entered(name: Seq<char>, depth: nat) -> Section {
    if depth == 1 && name == "fault"@ {
        Section::Fault
    } else if depth == 1 && name == "params"@ {
        Section::Params
    } else {
        Section::Outside
    }
}

/// Looks from `pos` on, with `depth` elements open, for the first `value`
/// tag inside the `params` or the `fault` section, reads the value there
/// and reads on to the end of the document, which has to be well-formed.
pub open spec fn decoded_from(tokens: Seq<Token>, pos: int, depth: nat, section: Section) -> Decoded
    decreases tokens.len() - pos,
{
    if pos < 0 || pos >= tokens.len() || tokens[pos] is Eof {
        if depth == 0 {
            Decoded::Invalid
        } else {
            Decoded::Malformed(unclosed())
        }
    } else {
        match tokens[pos] {
            Token::Malformed(message) => Decoded::Malformed(message@),
            Token::Start(name) => {
                if section is Outside {
                    decoded_from(tokens, pos + 1, depth + 1, entered(name@, depth))
                } else if name@ == "value"@ {
                    match value_at(tokens, pos + 1) {
                        Scan::Value(value, next) => match rest_error(tokens, next, depth) {
                            Some(message) => Decoded::Malformed(message),
                            None => if section is Fault {
                                Decoded::Fault(value)
                            } else {
                                Decoded::Success(value)
                            },
                        },
                        Scan::Failed(message) => Decoded::Malformed(message),
                    }
                } else {
                    decoded_from(tokens, pos + 1, depth + 1, section)
                }
            },
            Token::End(_) => if depth == 0 {
                Decoded::Malformed(unopened())
            } else {
                decoded_from(
                    tokens,
                    pos + 1,
                    (depth - 1) as nat,
                    if depth <= 2 {
                        Section::Outside
                    } else {
                        section
                    },
                )
            },
            _ => decoded_from(tokens, pos + 1, depth, section),
        }
    }
}

/// What the tokens of a response amount to.
pub open spec fn decoded(tokens: Seq<Token>) -> Decoded {
    decoded_from(tokens, 0, 0, Section::Outside)
}

/// The outcome of decoding, as the decoder returns it.
pub open spec fn decoded_view(result: Result<XmlRpcResponse, ApiError>) -> Option<Decoded> {
    match result {
        Ok(XmlRpcResponse::Success(value)) => Some(Decoded::Success(value@)),
        Ok(XmlRpcResponse::Fault(value)) => Some(Decoded::Fault(value@)),
        Err(ApiError::Malformed(message)) => Some(Decoded::Malformed(message@)),
        Err(ApiError::InvalidResponse) => Some(Decoded::Invalid),
        _ => None,
    }
}

/// The error of a document that ends with elements open, or none.
fn end_error(depth: usize) -> (error: Option<ApiError>)
    ensures
        depth == 0 ==> error is None,
        depth > 0 ==> (error matches Some(ApiError::Malformed(m)) && m@ == unclosed()),
{
    if depth == 0 {
        None
    } else {
        Some(ApiError::Malformed(String::from_str("document ends inside an element")))
    }
}

/// Reads the document behind a value to its end.
fn check_rest(tokens: &Vec<Token>, from: usize, open: usize) -> (error: Option<ApiError>)
    requires
        open <= from,
    ensures
        match rest_error(tokens@, from as int, open as nat) {
            Some(message) => error matches Some(ApiError::Malformed(m)) && m@ == message,
            None => error is None,
        },
{
    let mut depth: usize = open;
    let mut pos: usize = from;
    while pos < tokens.len()
        invariant
            depth <= pos,
            rest_error(tokens@, pos as int, depth as nat) == rest_error(
                tokens@,
                from as int,
                open as nat,
            ),
        decreases tokens@.len() - pos,
    {
        match &tokens[pos] {
            Token::Eof => {
                return end_error(depth);
            },
            Token::Malformed(message) => {
                return Some(ApiError::Malformed(message.clone()));
            },
            Token::Start(_) => {
                depth = depth + 1;
            },
            Token::End(_) => {
                if depth == 0 {
                    return Some(
                        ApiError::Malformed(String::from_str("closing tag without an element")),
                    );
                }
                depth = depth - 1;
            },
            _ => {},
        }
        pos = pos + 1;
    }
    end_error(depth)
}

/// Decodes the tokens of a response: the first value of the parameter
/// section as a success, of the fault section as a fault. The sections are
/// children of the root element. `Malformed` where the document is: where
/// the reader failed, where the document ends inside a value or an
/// element, before or behind the value, and where a closing tag stands
/// outside every element. `InvalidResponse` where the document is
/// well-formed and holds no such value.
pub fn parse_response_tokens(tokens: &Vec<Token>) -> (result: Result<XmlRpcResponse, ApiError>)
    ensures
        decoded_view(result) == Some(decoded(tokens@)),
{
    let mut section = Section::Outside;
    let mut depth: usize = 0;
    let mut pos: usize = 0;
    while pos < tokens.len()
        invariant
            pos <= tokens@.len(),
            depth <= pos,
            decoded_from(tokens@, pos as int, depth as nat, section) == decoded(tokens@),
        decreases tokens@.len() - pos,
    {
        match &tokens[pos] {
            Token::Eof => {
                return match end_error(depth) {
                    Some(error) => Err(error),
                    None => Err(ApiError::InvalidResponse),
                };
            },
            Token::Malformed(message) => {
                return Err(ApiError::Malformed(message.clone()));
            },
            Token::Start(name) => {
                if section == Section::Outside {
                    if depth == 1 && str_eq(name.as_str(), "fault") {
                        section = Section::Fault;
                    } else if depth == 1 && str_eq(name.as_str(), "params") {
                        section = Section::Params;
                    }
                    depth = depth + 1;
                } else if str_eq(name.as_str(), "value") {
                    return match parse_value_content(tokens, pos + 1) {
                        Ok((value, next)) => match check_rest(tokens, next, depth) {
                            Some(error) => Err(error),
                            None => if section == Section::Fault {
                                Ok(XmlRpcResponse::Fault(value))
                            } else {
                                Ok(XmlRpcResponse::Success(value))
                            },
                        },
                        Err(error) => Err(error),
                    };
                } else {
                    depth = depth + 1;
                }
            },
            Token::End(_) => {
                if depth == 0 {
                    return Err(
                        ApiError::Malformed(String::from_str("closing tag without an element")),
                    );
                }
                if depth <= 2 {
                    section = Section::Outside;
                }
                depth = depth - 1;
            },
            _ => {},
        }
        pos = pos + 1;
    }
    match end_error(depth) {
        Some(error) => Err(error),
        None => Err(ApiError::InvalidResponse),
    }
}

/// Decodes the text of a response. The document is read as it stands:
/// white space in character data is kept.
pub fn parse_response(xml: &str) -> (result: Result<XmlRpcResponse, ApiError>)
    ensures
        decoded_view(result) == Some(decoded(xml_tokens(xml@, false))),
{
    let tokens = tokenize(xml, false);
    parse_response_tokens(&tokens)
}

} // verus!
