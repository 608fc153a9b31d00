//! What the transcoder makes of a well-formed payload: the payload as a
//! tree of elements, the document that the tree stands for, and the proof
//! that transcoding the tokens of the tree yields that document.

use crate::document::{lookup, DocumentView};
use crate::transcode::{
    are_single, closed_into, closed_top, collected, element_document, lemma_siblings_merge,
    merged, opened, siblings, transcoded, transcoded_from, Child, ElementView, Transcoded,
};
use crate::xml::Token;
use vstd::prelude::*;

verus! {

/// A piece of a well-formed payload.
pub enum Node {
    /// An element with its name and what stands between its tags.
    Element(Seq<char>, Seq<Node>),
    /// A self-closing element with its name.
    Empty(Seq<char>),
    /// Character data.
    Text(Seq<char>),
    /// A comment or the like, which the transcoder skips.
    Other,
}

/// The number of tokens that a piece is made of.
pub open spec fn size(node: Node) -> nat
    decreases node, 0nat,
{
    match node {
        Node::Element(_, content) => 2 + sizes(content, content.len()),
        _ => 1,
    }
}

/// The number of tokens that the first `count` pieces are made of.
pub open spec fn sizes(content: Seq<Node>, count: nat) -> nat
    decreases content, count,
{
    if count == 0 || count > content.len() {
        0
    } else {
        sizes(content, (count - 1) as nat) + size(content[count - 1])
    }
}

/// Whether the tokens from `from` on are those of a piece: an opening tag
/// of the element's name, its content and a closing tag; or the one token
/// of character data or of something skipped.
pub open spec fn renders(tokens: Seq<Token>, from: int, node: Node) -> bool
    decreases node, 0nat,
{
    &&& 0 <= from
    &&& from + size(node) <= tokens.len()
    &&& match node {
        Node::Element(tag, content) => {
            &&& tokens[from] matches Token::Start(name) && name@ == tag
            &&& renders_all(tokens, from + 1, content, content.len())
            &&& tokens[from + size(node) - 1] is End
        },
        Node::Empty(tag) => tokens[from] matches Token::Empty(name) && name@ == tag,
        Node::Text(text) => tokens[from] matches Token::Text(t) && t@ == text,
        Node::Other => tokens[from] is Other,
    }
}

/// Whether the tokens from `from` on are those of the first `count`
/// pieces, one after the other.
pub open spec fn renders_all(tokens: Seq<Token>, from: int, content: Seq<Node>, count: nat) -> bool
    decreases content, count,
{
    if count == 0 || count > content.len() {
        true
    } else {
        renders_all(tokens, from, content, (count - 1) as nat) && renders(
            tokens,
            from + sizes(content, (count - 1) as nat),
            content[count - 1],
        )
    }
}

/// What the transcoder has read of an element once it has read all of it.
pub open spec fn element_of(node: Node) -> ElementView
    decreases node, 0nat,
{
    match node {
        Node::Element(tag, content) => ElementView {
            tag,
            members: collected(children_of(content, content.len())),
            text: text_of(content, content.len()),
        },
        _ => opened(Seq::empty()),
    }
}

/// The children among the first `count` pieces, in order: each child
/// element with the document that it stands for, each self-closing element
/// with null.
pub open spec fn children_of(content: Seq<Node>, count: nat) -> Seq<Child>
    decreases content, count,
{
    if count == 0 || count > content.len() {
        Seq::empty()
    } else {
        let earlier = children_of(content, (count - 1) as nat);
        match content[count - 1] {
            Node::Element(tag, _) => earlier.push((tag, document_of(content[count - 1]))),
            Node::Empty(tag) => earlier.push((tag, DocumentView::Null)),
            _ => earlier,
        }
    }
}

/// The character data among the first `count` pieces, joined.
pub open spec fn text_of(content: Seq<Node>, count: nat) -> Seq<char>
    decreases count,
{
    if count == 0 || count > content.len() {
        Seq::empty()
    } else {
        match content[count - 1] {
            Node::Text(text) => text_of(content, (count - 1) as nat) + text,
            _ => text_of(content, (count - 1) as nat),
        }
    }
}

/// The document that an element stands for.
pub open spec fn document_of(node: Node) -> DocumentView
    decreases node, 1nat,
{
    element_document(element_of(node))
}

/// An element of which the first `count` pieces of content are read.
pub open spec fn partly_read(tag: Seq<char>, content: Seq<Node>, count: nat) -> ElementView {
    ElementView {
        tag,
        members: collected(children_of(content, count)),
        text: text_of(content, count),
    }
}

/// Reading the tokens of an element closes it into the element that is
/// open around it, whatever else is open.
pub proof fn lemma_element_is_closed_into_parent(
    tokens: Seq<Token>,
    from: int,
    node: Node,
    stack: Seq<ElementView>,
)
    requires
        node is Element,
        renders(tokens, from, node),
        stack.len() >= 1,
    ensures
        transcoded_from(tokens, from, stack) == transcoded_from(
            tokens,
            from + size(node),
            stack.drop_last().push(closed_into(stack.last(), element_of(node))),
        ),
    decreases node, 0nat,
{
    let tag = node->Element_0;
    let content = node->Element_1;
    assert(partly_read(tag, content, 0) == opened(tag));
    lemma_content_is_read(tokens, from + 1, tag, content, content.len(), stack);
    let full = stack.push(partly_read(tag, content, content.len()));
    assert(partly_read(tag, content, content.len()) == element_of(node));
    assert(full.drop_last() =~= stack);
    assert(closed_top(full) =~= stack.drop_last().push(
        closed_into(stack.last(), element_of(node)),
    ));
}

/// Reading the tokens of the first `count` pieces of an element's content
/// leaves the element open with those pieces read.
pub proof fn lemma_content_is_read(
    tokens: Seq<Token>,
    from: int,
    tag: Seq<char>,
    content: Seq<Node>,
    count: nat,
    stack: Seq<ElementView>,
)
    requires
        count <= content.len(),
        0 <= from,
        renders_all(tokens, from, content, count),
        stack.len() >= 1,
    ensures
        transcoded_from(tokens, from, stack.push(opened(tag))) == transcoded_from(
            tokens,
            from + sizes(content, count),
            stack.push(partly_read(tag, content, count)),
        ),
    decreases content, count,
{
    if count == 0 {
        assert(partly_read(tag, content, 0) == opened(tag));
    } else {
        let earlier = (count - 1) as nat;
        lemma_content_is_read(tokens, from, tag, content, earlier, stack);
        let at = from + sizes(content, earlier);
        let piece = content[count - 1];
        let before = stack.push(partly_read(tag, content, earlier));
        let after = stack.push(partly_read(tag, content, count));
        let children = children_of(content, count);
        assert(before.drop_last() =~= stack);
        assert(renders(tokens, at, piece));
        assert(0 <= at < tokens.len());
        match piece {
            Node::Element(name, _) => {
                lemma_element_is_closed_into_parent(tokens, at, piece, before);
                assert(document_of(piece) == element_document(element_of(piece)));
                assert(children == children_of(content, earlier).push((name, document_of(piece))));
                assert(children.drop_last() =~= children_of(content, earlier));
                assert(children.last() == (name, document_of(piece)));
                assert(element_of(piece).tag == name);
                assert(closed_into(before.last(), element_of(piece)) == partly_read(
                    tag,
                    content,
                    count,
                ));
                assert(before.drop_last().push(closed_into(before.last(), element_of(piece)))
                    =~= after);
                assert(transcoded_from(tokens, at, before) == transcoded_from(
                    tokens,
                    at + size(piece),
                    after,
                ));
            },
            Node::Empty(name) => {
                assert(children == children_of(content, earlier).push(
                    (name, DocumentView::Null),
                ));
                assert(children.drop_last() =~= children_of(content, earlier));
                assert(children.last() == (name, DocumentView::Null));
                assert(partly_read(tag, content, count).members == merged(
                    before.last().members,
                    name,
                    DocumentView::Null,
                ));
                assert(before.drop_last().push(
                    ElementView {
                        members: merged(before.last().members, name, DocumentView::Null),
                        ..before.last()
                    },
                ) =~= after);
                assert(transcoded_from(tokens, at, before) == transcoded_from(
                    tokens,
                    at + size(piece),
                    after,
                ));
            },
            Node::Text(text) => {
                assert(children == children_of(content, earlier));
                assert(before.drop_last().push(
                    ElementView { text: before.last().text + text, ..before.last() },
                ) =~= after);
                assert(transcoded_from(tokens, at, before) == transcoded_from(
                    tokens,
                    at + size(piece),
                    after,
                ));
            },
            Node::Other => {
                assert(children == children_of(content, earlier));
                assert(before =~= after);
                assert(transcoded_from(tokens, at, before) == transcoded_from(
                    tokens,
                    at + size(piece),
                    after,
                ));
            },
        }
    }
}

/// Transcoding law: a payload that is one well-formed element transcodes
/// into an object that holds, under the element's name, the document that
/// the element stands for.
pub proof fn lemma_payload_transcodes(tokens: Seq<Token>, root: Node)
    requires
        root is Element,
        renders(tokens, 0, root),
        tokens.len() == size(root) || tokens[size(root) as int] is Eof,
    ensures
        transcoded(tokens) == Transcoded::Document(
            DocumentView::Object(seq![(root->Element_0, document_of(root))]),
        ),
{
    let start = seq![opened(Seq::empty())];
    lemma_element_is_closed_into_parent(tokens, 0, root, start);
    let end = start.drop_last().push(closed_into(start.last(), element_of(root)));
    assert(end.len() == 1);
    assert(lookup(Seq::<(Seq<char>, DocumentView)>::empty(), root->Element_0) is None);
    assert(end[0].members =~= seq![(root->Element_0, document_of(root))]);
}

/// The children of an element are texts, objects and nulls, never lists.
pub proof fn lemma_children_are_single(content: Seq<Node>, count: nat)
    ensures
        are_single(children_of(content, count)),
    decreases count,
{
    if count > 0 && count <= content.len() {
        lemma_children_are_single(content, (count - 1) as nat);
        let earlier = children_of(content, (count - 1) as nat);
        let children = children_of(content, count);
        let piece = content[count - 1];
        assert(document_of(piece) == element_document(element_of(piece)));
        assert forall|i: int| 0 <= i < children.len() implies !((#[trigger] children[i]).1
            is List) by {
            if i < earlier.len() {
                assert(children[i] == earlier[i]);
            } else {
                match piece {
                    Node::Element(name, _) => {
                        assert(children[i] == (name, document_of(piece)));
                    },
                    Node::Empty(name) => {
                        assert(children[i] == (name, DocumentView::Null));
                    },
                    _ => {},
                }
            }
        }
    }
}

/// Sibling-merge law: where two or more children of an element have the
/// same name, be they elements or self-closing, the element's document
/// holds under that name the list of their documents, in the order of the
/// payload: none is dropped, doubled or moved.
pub proof fn lemma_repeated_siblings_make_a_list(node: Node, key: Seq<char>)
    requires
        node is Element,
        siblings(children_of(node->Element_1, node->Element_1.len()), key).len() >= 2,
    ensures
        document_of(node) is Object,
        document_of(node).member(key) == Some(
            DocumentView::List(siblings(children_of(node->Element_1, node->Element_1.len()), key)),
        ),
{
    let content = node->Element_1;
    let children = children_of(content, content.len());
    lemma_children_are_single(content, content.len());
    lemma_siblings_merge(children, key);
    assert(element_of(node).members.len() > 0) by {
        if element_of(node).members.len() == 0 {
            assert(lookup(element_of(node).members, key) is None);
        }
    }
}

} // verus!
