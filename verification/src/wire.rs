//! What the decoder makes of a well-formed value: the value as it stands
//! on the wire, the value that this stands for, and the proof that
//! decoding its tokens yields that value.

use crate::decode::{
    decoded, decoded_from, finished, fresh_frame, kind_of, rest_error, scan, step, value_at,
    with_nested, Decoded, FrameView, Kind, Scan, Section, Step,
};
use crate::text::{
    decimal_text, is_float_text, lemma_decimal_text_reads_back, lemma_trimmed_keeps,
};
use crate::value::ValueView;
use crate::xml::Token;
use vstd::prelude::*;

verus! {

/// A well-formed value on the wire, between its `value` tags.
pub enum Wire {
    /// An element named by a type tag, with its character data, if any.
    Leaf(Seq<char>, Option<Seq<char>>),
    /// An `array` element with a `data` element around the items.
    Array(Seq<Wire>),
    /// A `struct` element with a `member` element for each member: a
    /// `name` element with its character data, if any, then the value.
    Struct(Seq<(Option<Seq<char>>, Wire)>),
}

/// The text of optional character data.
pub open spec fn text_or_empty(text: Option<Seq<char>>) -> Seq<char> {
    match text {
        Some(t) => t,
        None => Seq::empty(),
    }
}

/// The number of tokens that optional character data takes.
pub open spec fn text_size(text: Option<Seq<char>>) -> nat {
    match text {
        Some(_) => 1,
        None => 0,
    }
}

/// The number of tokens of a value, its `value` tags included.
pub open spec fn wire_size(wire: Wire) -> nat
    decreases wire, 0nat,
{
    match wire {
        Wire::Leaf(_, text) => 4 + text_size(text),
        Wire::Array(items) => 6 + items_size(items, items.len()),
        Wire::Struct(members) => 4 + members_size(members, members.len()),
    }
}

/// The number of tokens of the first `count` items.
pub open spec fn items_size(items: Seq<Wire>, count: nat) -> nat
    decreases items, count,
{
    if count == 0 || count > items.len() {
        0
    } else {
        items_size(items, (count - 1) as nat) + wire_size(items[count - 1])
    }
}

/// The number of tokens of the first `count` members, their `member` tags
/// included.
pub open spec fn members_size(members: Seq<(Option<Seq<char>>, Wire)>, count: nat) -> nat
    decreases members, count,
{
    if count == 0 || count > members.len() {
        0
    } else {
        members_size(members, (count - 1) as nat) + 4 + text_size(members[count - 1].0)
            + wire_size(members[count - 1].1)
    }
}

/// The value that stands on the wire.
pub open spec fn value_of(wire: Wire) -> ValueView
    decreases wire, 0nat,
{
    match wire {
        Wire::Leaf(tag, text) => finished(
            FrameView {
                kind: match kind_of(tag) {
                    Some(kind) => kind,
                    None => Kind::Unset,
                },
                text: text_or_empty(text),
                ..fresh_frame()
            },
        ),
        Wire::Array(items) => ValueView::Array(values_of(items, items.len())),
        Wire::Struct(members) => ValueView::Struct(members_of(members, members.len())),
    }
}

/// The values of the first `count` items.
pub open spec fn values_of(items: Seq<Wire>, count: nat) -> Seq<ValueView>
    decreases items, count,
{
    if count == 0 || count > items.len() {
        Seq::empty()
    } else {
        values_of(items, (count - 1) as nat).push(value_of(items[count - 1]))
    }
}

/// The first `count` members, each with its name and value.
pub open spec fn members_of(members: Seq<(Option<Seq<char>>, Wire)>, count: nat) -> Seq<
    (Seq<char>, ValueView),
>
    decreases members, count,
{
    if count == 0 || count > members.len() {
        Seq::empty()
    } else {
        members_of(members, (count - 1) as nat).push(
            (text_or_empty(members[count - 1].0), value_of(members[count - 1].1)),
        )
    }
}

/// Whether a token opens an element of the given name.
pub open spec fn opens(token: Token, name: Seq<char>) -> bool {
    token matches Token::Start(n) && n@ == name
}

/// Whether a token closes an element of the given name.
pub open spec fn closes(token: Token, name: Seq<char>) -> bool {
    token matches Token::End(n) && n@ == name
}

/// Whether the tokens from `from` on are optional character data.
pub open spec fn renders_text(tokens: Seq<Token>, from: int, text: Option<Seq<char>>) -> bool {
    match text {
        Some(t) => tokens[from] matches Token::Text(s) && s@ == t,
        None => true,
    }
}

/// Whether a tag names a type of leaf values.
pub open spec fn is_leaf_tag(tag: Seq<char>) -> bool {
    kind_of(tag) is Some && kind_of(tag) != Some(Kind::Array) && kind_of(tag) != Some(Kind::Struct)
}

/// Whether the tokens from `from` on are those of a value.
pub open spec fn renders(tokens: Seq<Token>, from: int, wire: Wire) -> bool
    decreases wire, 0nat,
{
    &&& 0 <= from
    &&& from + wire_size(wire) <= tokens.len()
    &&& opens(tokens[from], "value"@)
    &&& closes(tokens[from + wire_size(wire) - 1], "value"@)
    &&& match wire {
        Wire::Leaf(tag, text) => {
            &&& is_leaf_tag(tag)
            &&& opens(tokens[from + 1], tag)
            &&& renders_text(tokens, from + 2, text)
            &&& closes(tokens[from + 2 + text_size(text)], tag)
        },
        Wire::Array(items) => {
            &&& opens(tokens[from + 1], "array"@)
            &&& opens(tokens[from + 2], "data"@)
            &&& renders_items(tokens, from + 3, items, items.len())
            &&& closes(tokens[from + 3 + items_size(items, items.len())], "data"@)
            &&& closes(tokens[from + 4 + items_size(items, items.len())], "array"@)
        },
        Wire::Struct(members) => {
            &&& opens(tokens[from + 1], "struct"@)
            &&& renders_members(tokens, from + 2, members, members.len())
            &&& closes(tokens[from + 2 + members_size(members, members.len())], "struct"@)
        },
    }
}

/// Whether the tokens from `from` on are those of the first `count` items.
pub open spec fn renders_items(tokens: Seq<Token>, from: int, items: Seq<Wire>, count: nat) -> bool
    decreases items, count,
{
    if count == 0 || count > items.len() {
        true
    } else {
        renders_items(tokens, from, items, (count - 1) as nat) && renders(
            tokens,
            from + items_size(items, (count - 1) as nat),
            items[count - 1],
        )
    }
}

/// Whether the tokens from `from` on are those of the first `count`
/// members.
pub open spec fn renders_members(
    tokens: Seq<Token>,
    from: int,
    members: Seq<(Option<Seq<char>>, Wire)>,
    count: nat,
) -> bool
    decreases members, count,
{
    if count == 0 || count > members.len() {
        true
    } else {
        let at = from + members_size(members, (count - 1) as nat);
        let name = members[count - 1].0;
        &&& renders_members(tokens, from, members, (count - 1) as nat)
        &&& 0 <= from
        &&& from + members_size(members, count) <= tokens.len()
        &&& opens(tokens[at], "member"@)
        &&& opens(tokens[at + 1], "name"@)
        &&& renders_text(tokens, at + 2, name)
        &&& closes(tokens[at + 2 + text_size(name)], "name"@)
        &&& renders(tokens, at + 3 + text_size(name), members[count - 1].1)
        &&& closes(tokens[at + 3 + text_size(name) + wire_size(members[count - 1].1)], "member"@)
    }
}

/// The names of the tags are all different.
pub proof fn lemma_tags_differ()
    ensures
        kind_of("value"@) is None,
        kind_of("name"@) is None,
        kind_of("array"@) == Some(Kind::Array),
        kind_of("struct"@) == Some(Kind::Struct),
        kind_of("data"@) == Some(Kind::Text),
        kind_of("member"@) == Some(Kind::Text),
        "value"@ != "name"@,
{
    reveal_strlit("value");
    reveal_strlit("name");
    reveal_strlit("string");
    reveal_strlit("data");
    reveal_strlit("member");
    reveal_strlit("int");
    reveal_strlit("i4");
    reveal_strlit("boolean");
    reveal_strlit("double");
    reveal_strlit("array");
    reveal_strlit("struct");
    assert("value"@[0] == 'v');
    assert("name"@[0] == 'n');
    assert("string"@[1] == 't');
    assert("struct"@[1] == 't');
    assert("string"@[3] == 'i');
    assert("struct"@[3] == 'u');
    assert("data"@[0] == 'd');
    assert("double"@[0] == 'd');
    assert("member"@[0] == 'm');
    assert("array"@[0] == 'a');
    assert("boolean"@[0] == 'b');
    assert("int"@[0] == 'i');
    assert("i4"@[0] == 'i');
}

/// What is open when the content of a value has been read and its type
/// element is closed: the frame of the value, with its kind, its text, its
/// items and its members.
pub open spec fn read_frame(wire: Wire) -> FrameView {
    match wire {
        Wire::Leaf(tag, text) => FrameView {
            kind: kind_of(tag).unwrap(),
            text: text_or_empty(text),
            ..fresh_frame()
        },
        Wire::Array(items) => FrameView {
            kind: Kind::Array,
            items: values_of(items, items.len()),
            ..fresh_frame()
        },
        Wire::Struct(members) => FrameView {
            kind: Kind::Struct,
            members: members_of(members, members.len()),
            ..fresh_frame()
        },
    }
}

/// The frame of a value while reading stands inside its type element.
pub open spec fn inside(frame: FrameView) -> FrameView {
    FrameView { inside: true, ..frame }
}

/// What reading goes on with after a value was read below which frames
/// were open: the value has joined the innermost of them.
pub open spec fn joined(below: Seq<FrameView>, value: ValueView) -> Seq<FrameView> {
    below.drop_last().push(with_nested(below.last(), value))
}

/// Reading the tokens of a value inside an open array or struct lets the
/// value join that array or struct, whatever else is open.
pub proof fn lemma_value_joins(tokens: Seq<Token>, from: int, wire: Wire, below: Seq<FrameView>)
    requires
        renders(tokens, from, wire),
        below.len() >= 1,
        below.last().kind == Kind::Array || below.last().kind == Kind::Struct,
    ensures
        scan(tokens, from, below) == scan(
            tokens,
            from + wire_size(wire),
            joined(below, value_of(wire)),
        ),
    decreases wire, 1nat,
{
    lemma_tags_differ();
    let end = from + wire_size(wire) - 1;
    assert(scan(tokens, from, below) == scan(tokens, from + 1, below.push(fresh_frame())));
    lemma_content_is_read(tokens, from, wire, below);
    let open = below.push(read_frame(wire));
    assert(open.drop_last() =~= below);
    assert(finished(read_frame(wire)) == value_of(wire));
    assert(step(open, tokens[end]) == Step::Continue(joined(below, value_of(wire))));
}

/// Reading the tokens of a value's content, after its opening tag, leaves
/// the frame of the value open just before its closing tag.
pub proof fn lemma_content_is_read(tokens: Seq<Token>, from: int, wire: Wire, below: Seq<FrameView>)
    requires
        renders(tokens, from, wire),
    ensures
        scan(tokens, from + 1, below.push(fresh_frame())) == scan(
            tokens,
            from + wire_size(wire) - 1,
            below.push(read_frame(wire)),
        ),
    decreases wire, 0nat,
{
    lemma_tags_differ();
    let start = below.push(fresh_frame());
    assert(start.drop_last() =~= below);
    let done = below.push(read_frame(wire));
    assert(done.drop_last() =~= below);
    match wire {
        Wire::Leaf(tag, text) => {
            let kind = kind_of(tag).unwrap();
            let typed = below.push(FrameView { kind, inside: true, ..fresh_frame() });
            assert(step(start, tokens[from + 1]) == Step::Continue(typed));
            assert(scan(tokens, from + 1, start) == scan(tokens, from + 2, typed));
            assert(typed.drop_last() =~= below);
            let filled = below.push(inside(read_frame(wire)));
            assert(filled.drop_last() =~= below);
            match text {
                Some(t) => {
                    assert(Seq::<char>::empty() + t =~= t);
                    assert(step(typed, tokens[from + 2]) == Step::Continue(filled));
                    assert(scan(tokens, from + 2, typed) == scan(tokens, from + 3, filled));
                },
                None => {
                    assert(typed =~= filled);
                },
            }
            let close = from + 2 + text_size(text);
            assert(step(filled, tokens[close]) == Step::Continue(done));
            assert(scan(tokens, close, filled) == scan(tokens, close + 1, done));
        },
        Wire::Array(items) => {
            let typed = below.push(array_frame(items, 0));
            assert(step(start, tokens[from + 1]) == Step::Continue(typed));
            assert(scan(tokens, from + 1, start) == scan(tokens, from + 2, typed));
            assert(typed.drop_last() =~= below);
            assert(step(typed, tokens[from + 2]) == Step::Continue(typed));
            assert(scan(tokens, from + 2, typed) == scan(tokens, from + 3, typed));
            lemma_items_are_read(tokens, from + 3, items, items.len(), below);
            let filled = below.push(array_frame(items, items.len()));
            assert(filled.drop_last() =~= below);
            let close = from + 3 + items_size(items, items.len());
            assert(step(filled, tokens[close]) == Step::Continue(filled));
            assert(scan(tokens, close, filled) == scan(tokens, close + 1, filled));
            assert(step(filled, tokens[close + 1]) == Step::Continue(done));
            assert(scan(tokens, close + 1, filled) == scan(tokens, close + 2, done));
        },
        Wire::Struct(members) => {
            let typed = below.push(struct_frame(members, 0));
            assert(step(start, tokens[from + 1]) == Step::Continue(typed));
            assert(scan(tokens, from + 1, start) == scan(tokens, from + 2, typed));
            lemma_members_are_read(tokens, from + 2, members, members.len(), below);
            let filled = below.push(struct_frame(members, members.len()));
            assert(filled.drop_last() =~= below);
            let close = from + 2 + members_size(members, members.len());
            assert(step(filled, tokens[close]) == Step::Continue(done));
            assert(scan(tokens, close, filled) == scan(tokens, close + 1, done));
        },
    }
}

/// An array of which the first `count` items are read.
pub open spec fn array_frame(items: Seq<Wire>, count: nat) -> FrameView {
    FrameView { kind: Kind::Array, inside: true, items: values_of(items, count), ..fresh_frame() }
}

/// A struct of which the first `count` members are read.
pub open spec fn struct_frame(members: Seq<(Option<Seq<char>>, Wire)>, count: nat) -> FrameView {
    FrameView {
        kind: Kind::Struct,
        inside: true,
        members: members_of(members, count),
        ..fresh_frame()
    }
}

/// Reading the tokens of the first `count` items of an array leaves the
/// array open with those items in it.
pub proof fn lemma_items_are_read(
    tokens: Seq<Token>,
    from: int,
    items: Seq<Wire>,
    count: nat,
    below: Seq<FrameView>,
)
    requires
        count <= items.len(),
        renders_items(tokens, from, items, count),
    ensures
        scan(tokens, from, below.push(array_frame(items, 0))) == scan(
            tokens,
            from + items_size(items, count),
            below.push(array_frame(items, count)),
        ),
    decreases items, count,
{
    if count > 0 {
        let earlier = (count - 1) as nat;
        lemma_items_are_read(tokens, from, items, earlier, below);
        let open = below.push(array_frame(items, earlier));
        assert(open.drop_last() =~= below);
        lemma_value_joins(tokens, from + items_size(items, earlier), items[count - 1], open);
        assert(joined(open, value_of(items[count - 1])) =~= below.push(
            array_frame(items, count),
        ));
    }
}

/// Reading the tokens of the first `count` members of a struct leaves the
/// struct open with those members in it.
pub proof fn lemma_members_are_read(
    tokens: Seq<Token>,
    from: int,
    members: Seq<(Option<Seq<char>>, Wire)>,
    count: nat,
    below: Seq<FrameView>,
)
    requires
        count <= members.len(),
        renders_members(tokens, from, members, count),
    ensures
        scan(tokens, from, below.push(struct_frame(members, 0))) == scan(
            tokens,
            from + members_size(members, count),
            below.push(struct_frame(members, count)),
        ),
    decreases members, count,
{
    lemma_tags_differ();
    if count > 0 {
        let earlier = (count - 1) as nat;
        lemma_members_are_read(tokens, from, members, earlier, below);
        let at = from + members_size(members, earlier);
        let name = members[count - 1].0;
        let value = members[count - 1].1;
        let frame = struct_frame(members, earlier);
        let open = below.push(frame);
        assert(open.drop_last() =~= below);
        // <member>
        assert(step(open, tokens[at]) == Step::Continue(open));
        assert(scan(tokens, at, open) == scan(tokens, at + 1, open));
        // <name>
        let naming = below.push(FrameView { in_name: true, ..frame });
        assert(step(open, tokens[at + 1]) == Step::Continue(naming));
        assert(scan(tokens, at + 1, open) == scan(tokens, at + 2, naming));
        assert(naming.drop_last() =~= below);
        // the name's text
        let named_in = below.push(FrameView { in_name: true, name: text_or_empty(name), ..frame });
        match name {
            Some(t) => {
                assert(step(naming, tokens[at + 2]) == Step::Continue(named_in));
                assert(scan(tokens, at + 2, naming) == scan(tokens, at + 3, named_in));
            },
            None => {
                assert(naming =~= named_in);
            },
        }
        assert(named_in.drop_last() =~= below);
        // </name>
        let after_name = at + 2 + text_size(name);
        let named = below.push(FrameView { name: text_or_empty(name), ..frame });
        assert(step(named_in, tokens[after_name]) == Step::Continue(named));
        assert(scan(tokens, after_name, named_in) == scan(tokens, after_name + 1, named));
        assert(named.drop_last() =~= below);
        // the value
        lemma_value_joins(tokens, after_name + 1, value, named);
        let done = below.push(struct_frame(members, count));
        assert(joined(named, value_of(value)) =~= done);
        // </member>
        let close = after_name + 1 + wire_size(value);
        assert(done.drop_last() =~= below);
        assert(step(done, tokens[close]) == Step::Continue(done));
        assert(scan(tokens, close, done) == scan(tokens, close + 1, done));
    }
}

/// Decoding law: reading a well-formed value from just after its opening
/// tag yields the value that stands on the wire, and ends just after its
/// closing tag.
pub proof fn lemma_value_is_read(tokens: Seq<Token>, from: int, wire: Wire)
    requires
        renders(tokens, from, wire),
    ensures
        value_at(tokens, from + 1) == Scan::Value(value_of(wire), from + wire_size(wire)),
{
    lemma_tags_differ();
    let below = Seq::<FrameView>::empty();
    lemma_content_is_read(tokens, from, wire, below);
    assert(below.push(fresh_frame()) =~= seq![fresh_frame()]);
    let open = below.push(read_frame(wire));
    assert(open.drop_last() =~= below);
    assert(finished(read_frame(wire)) == value_of(wire));
    let end = from + wire_size(wire) - 1;
    assert(step(open, tokens[end]) == Step::Finish(value_of(wire)));
}

/// Whether a token is neither a tag nor the end of the document: character
/// data, a self-closing tag, a comment or the like.
pub open spec fn is_filler(token: Token) -> bool {
    token is Text || token is Other || token is Empty
}

/// Whether all tokens from `from` up to `to` are filler.
pub open spec fn all_filler(tokens: Seq<Token>, from: int, to: int) -> bool {
    forall|i: int| from <= i < to ==> is_filler(#[trigger] tokens[i])
}

/// Filler changes nothing for the decoder.
pub proof fn lemma_filler_is_passed(
    tokens: Seq<Token>,
    from: int,
    to: int,
    depth: nat,
    section: Section,
)
    requires
        0 <= from <= to <= tokens.len(),
        all_filler(tokens, from, to),
    ensures
        decoded_from(tokens, from, depth, section) == decoded_from(tokens, to, depth, section),
    decreases to - from,
{
    if from < to {
        assert(is_filler(tokens[from]));
        lemma_filler_is_passed(tokens, from + 1, to, depth, section);
    }
}

/// Response law: a response decodes as a success with the value of its
/// parameter section where the document has this shape: the root element;
/// in it the `params` element; in that one an element around the value,
/// which is well-formed; filler anywhere between them; and behind the
/// value a well-formed rest that closes the three elements.
pub proof fn lemma_response_is_decoded(
    tokens: Seq<Token>,
    root: int,
    section: int,
    param: int,
    from: int,
    wire: Wire,
)
    requires
        0 <= root < section < param < from,
        all_filler(tokens, 0, root),
        tokens[root] is Start,
        all_filler(tokens, root + 1, section),
        opens(tokens[section], "params"@),
        all_filler(tokens, section + 1, param),
        tokens[param] matches Token::Start(name) && name@ != "value"@,
        all_filler(tokens, param + 1, from),
        renders(tokens, from, wire),
        rest_error(tokens, from + wire_size(wire), 3) is None,
    ensures
        decoded(tokens) == Decoded::Success(value_of(wire)),
{
    reveal_strlit("params");
    reveal_strlit("fault");
    assert("params"@[0] == 'p');
    assert("fault"@[0] == 'f');
    lemma_filler_is_passed(tokens, 0, root, 0, Section::Outside);
    lemma_filler_is_passed(tokens, root + 1, section, 1, Section::Outside);
    lemma_filler_is_passed(tokens, section + 1, param, 2, Section::Params);
    lemma_filler_is_passed(tokens, param + 1, from, 3, Section::Params);
    lemma_value_is_read(tokens, from, wire);
    assert(decoded_from(tokens, root, 0, Section::Outside) == decoded_from(
        tokens,
        root + 1,
        1,
        Section::Outside,
    ));
    assert(decoded_from(tokens, section, 1, Section::Outside) == decoded_from(
        tokens,
        section + 1,
        2,
        Section::Params,
    ));
    assert(decoded_from(tokens, param, 2, Section::Params) == decoded_from(
        tokens,
        param + 1,
        3,
        Section::Params,
    ));
}

/// Fault law: a response decodes as a fault with the value of its fault
/// section where the document has this shape: the root element; in it the
/// `fault` element; in that one the value, which is well-formed; filler
/// anywhere between them; and behind the value a well-formed rest that
/// closes the two elements.
pub proof fn lemma_fault_is_decoded(
    tokens: Seq<Token>,
    root: int,
    section: int,
    from: int,
    wire: Wire,
)
    requires
        0 <= root < section < from,
        all_filler(tokens, 0, root),
        tokens[root] is Start,
        all_filler(tokens, root + 1, section),
        opens(tokens[section], "fault"@),
        all_filler(tokens, section + 1, from),
        renders(tokens, from, wire),
        rest_error(tokens, from + wire_size(wire), 2) is None,
    ensures
        decoded(tokens) == Decoded::Fault(value_of(wire)),
{
    lemma_filler_is_passed(tokens, 0, root, 0, Section::Outside);
    lemma_filler_is_passed(tokens, root + 1, section, 1, Section::Outside);
    lemma_filler_is_passed(tokens, section + 1, from, 2, Section::Fault);
    lemma_value_is_read(tokens, from, wire);
    assert(decoded_from(tokens, root, 0, Section::Outside) == decoded_from(
        tokens,
        root + 1,
        1,
        Section::Outside,
    ));
    assert(decoded_from(tokens, section, 1, Section::Outside) == decoded_from(
        tokens,
        section + 1,
        2,
        Section::Fault,
    ));
}

/// Truncation law: a document that ends while elements are open, before
/// any value was met in a section, is malformed.
pub proof fn lemma_truncated_is_malformed(tokens: Seq<Token>, pos: int, depth: nat, section: Section)
    requires
        0 <= pos,
        depth > 0,
        pos >= tokens.len() || tokens[pos] is Eof,
    ensures
        decoded_from(tokens, pos, depth, section) == Decoded::Malformed(crate::xml::unclosed()),
{
}

/// Character data as it comes out of the reader: none for an empty text.
pub open spec fn optional(text: Seq<char>) -> Option<Seq<char>> {
    if text.len() == 0 {
        None
    } else {
        Some(text)
    }
}

/// The form in which the encoder puts a value on the wire.
pub open spec fn wire_of(value: ValueView) -> Wire
    decreases value, 0nat,
{
    match value {
        ValueView::String(s) => Wire::Leaf("string"@, optional(s)),
        ValueView::Int(i) => Wire::Leaf("int"@, Some(decimal_text(i as int))),
        ValueView::Boolean(b) => Wire::Leaf(
            "boolean"@,
            Some(
                if b {
                    seq!['1']
                } else {
                    seq!['0']
                },
            ),
        ),
        ValueView::Double(d) => Wire::Leaf("double"@, optional(d)),
        ValueView::Array(items) => Wire::Array(wires_of(items, items.len())),
        ValueView::Struct(members) => Wire::Struct(member_wires_of(members, members.len())),
    }
}

/// The wire forms of the first `count` values.
pub open spec fn wires_of(items: Seq<ValueView>, count: nat) -> Seq<Wire>
    decreases items, count,
{
    if count == 0 || count > items.len() {
        Seq::empty()
    } else {
        wires_of(items, (count - 1) as nat).push(wire_of(items[count - 1]))
    }
}

/// The wire forms of the first `count` members.
pub open spec fn member_wires_of(members: Seq<(Seq<char>, ValueView)>, count: nat) -> Seq<
    (Option<Seq<char>>, Wire),
>
    decreases members, count,
{
    if count == 0 || count > members.len() {
        Seq::empty()
    } else {
        member_wires_of(members, (count - 1) as nat).push(
            (optional(members[count - 1].0), wire_of(members[count - 1].1)),
        )
    }
}

/// Whether every double in a value holds the text of a number.
pub open spec fn doubles_are_numbers(value: ValueView) -> bool
    decreases value,
{
    match value {
        ValueView::Double(d) => is_float_text(d),
        ValueView::Array(items) => forall|i: int|
            0 <= i < items.len() ==> doubles_are_numbers(#[trigger] items[i]),
        ValueView::Struct(members) => forall|i: int|
            0 <= i < members.len() ==> doubles_are_numbers((#[trigger] members[i]).1),
        _ => true,
    }
}

/// Round-trip law: the form in which the encoder puts a value on the wire
/// stands for that value, where its doubles hold numbers.
pub proof fn lemma_written_value_reads_back(value: ValueView)
    requires
        doubles_are_numbers(value),
    ensures
        value_of(wire_of(value)) == value,
    decreases value, 0nat,
{
    lemma_tags_differ();
    reveal_strlit("string");
    reveal_strlit("int");
    reveal_strlit("boolean");
    reveal_strlit("double");
    reveal_strlit("data");
    reveal_strlit("member");
    reveal_strlit("i4");
    reveal_strlit("1");
    reveal_strlit("0");
    assert("string"@[0] == 's');
    assert("int"@[1] == 'n');
    assert("i4"@[1] == '4');
    assert("boolean"@[0] == 'b');
    assert("double"@[1] == 'o');
    assert("data"@[1] == 'a');
    assert("member"@[0] == 'm');
    match value {
        ValueView::String(s) => {
            assert(text_or_empty(optional(s)) =~= s);
        },
        ValueView::Int(i) => {
            lemma_decimal_text_reads_back(i);
        },
        ValueView::Boolean(b) => {
            assert("1"@ =~= seq!['1']);
            assert(seq!['0'] != "1"@) by {
                assert(seq!['0'][0] != "1"@[0]);
            }
            lemma_trimmed_keeps(seq!['0']);
            assert("0"@ =~= seq!['0']);
        },
        ValueView::Double(d) => {
            assert(text_or_empty(optional(d)) =~= d);
        },
        ValueView::Array(items) => {
            assert forall|i: int| 0 <= i < items.len() implies doubles_are_numbers(
                #[trigger] items[i],
            ) by {}
            lemma_written_values_read_back(items, items.len());
            lemma_wires_len(items, items.len());
            assert(items.take(items.len() as int) =~= items);
        },
        ValueView::Struct(members) => {
            assert forall|i: int| 0 <= i < members.len() implies doubles_are_numbers(
                (#[trigger] members[i]).1,
            ) by {}
            lemma_written_members_read_back(members, members.len());
            lemma_member_wires_len(members, members.len());
            assert(members.take(members.len() as int) =~= members);
        },
    }
}

/// There are as many wire forms as values.
pub proof fn lemma_wires_len(items: Seq<ValueView>, count: nat)
    requires
        count <= items.len(),
    ensures
        wires_of(items, count).len() == count,
    decreases count,
{
    if count > 0 {
        lemma_wires_len(items, (count - 1) as nat);
    }
}

/// There are as many wire forms as members.
pub proof fn lemma_member_wires_len(members: Seq<(Seq<char>, ValueView)>, count: nat)
    requires
        count <= members.len(),
    ensures
        member_wires_of(members, count).len() == count,
    decreases count,
{
    if count > 0 {
        lemma_member_wires_len(members, (count - 1) as nat);
    }
}

/// The wire forms of values stand for those values, one by one.
pub proof fn lemma_written_values_read_back(items: Seq<ValueView>, count: nat)
    requires
        forall|i: int| 0 <= i < items.len() ==> doubles_are_numbers(#[trigger] items[i]),
        count <= items.len(),
    ensures
        values_of(wires_of(items, items.len()), count) == items.take(count as int),
    decreases items, count,
{
    let wires = wires_of(items, items.len());
    lemma_wires_len(items, items.len());
    if count == 0 {
        assert(items.take(0) =~= Seq::empty());
    } else {
        lemma_written_values_read_back(items, (count - 1) as nat);
        lemma_written_value_reads_back(items[count - 1]);
        lemma_wire_at(items, items.len(), count - 1);
        assert(items.take(count as int) =~= items.take(count - 1).push(items[count - 1]));
    }
}

/// The wire form at a position is that of the value at the position.
pub proof fn lemma_wire_at(items: Seq<ValueView>, count: nat, at: int)
    requires
        count <= items.len(),
        0 <= at < count,
    ensures
        wires_of(items, count).len() == count,
        wires_of(items, count)[at] == wire_of(items[at]),
    decreases count,
{
    lemma_wires_len(items, count);
    if at < count - 1 {
        lemma_wire_at(items, (count - 1) as nat, at);
        lemma_wires_len(items, (count - 1) as nat);
    } else {
        lemma_wires_len(items, (count - 1) as nat);
    }
}

/// The wire form of the member at a position is that of the member at the
/// position.
pub proof fn lemma_member_wire_at(members: Seq<(Seq<char>, ValueView)>, count: nat, at: int)
    requires
        count <= members.len(),
        0 <= at < count,
    ensures
        member_wires_of(members, count).len() == count,
        member_wires_of(members, count)[at] == (optional(members[at].0), wire_of(members[at].1)),
    decreases count,
{
    lemma_member_wires_len(members, count);
    if at < count - 1 {
        lemma_member_wire_at(members, (count - 1) as nat, at);
        lemma_member_wires_len(members, (count - 1) as nat);
    } else {
        lemma_member_wires_len(members, (count - 1) as nat);
    }
}

/// The wire forms of members stand for those members, one by one.
pub proof fn lemma_written_members_read_back(members: Seq<(Seq<char>, ValueView)>, count: nat)
    requires
        forall|i: int| 0 <= i < members.len() ==> doubles_are_numbers((#[trigger] members[i]).1),
        count <= members.len(),
    ensures
        members_of(member_wires_of(members, members.len()), count) == members.take(count as int),
    decreases members, count,
{
    lemma_member_wires_len(members, members.len());
    if count == 0 {
        assert(members.take(0) =~= Seq::empty());
    } else {
        lemma_written_members_read_back(members, (count - 1) as nat);
        lemma_written_value_reads_back(members[count - 1].1);
        lemma_member_wire_at(members, members.len(), count - 1);
        assert(text_or_empty(optional(members[count - 1].0)) =~= members[count - 1].0);
        assert(members.take(count as int) =~= members.take(count - 1).push(members[count - 1]));
    }
}

} // verus!
