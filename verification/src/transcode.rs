//! The document transcoder: the tokens of an embedded XML payload become a
//! generic document. A field is single-valued until a second sibling of the
//! same name appears; from then on it is a list.

use crate::document::{
    find_member, items_view, lemma_list_view, lemma_object_view, lemma_position,
    lemma_push_member, lemma_with_member, lookup, object_view, with_member, Document,
    DocumentView, Members,
};
use crate::error::ApiError;
use crate::text::{trim, trimmed};
use crate::xml::{tokenize, unclosed, unopened, xml_tokens, Token};
use vstd::prelude::*;
use vstd::string::*;

verus! {

/// What has been read of an element that is still open.
pub struct ElementView {
    /// The element's name.
    pub tag: Seq<char>,
    /// The child elements read so far, merged by name.
    pub members: Members,
    /// The character data met so far.
    pub text: Seq<char>,
}

/// An element of which nothing has been read but its opening tag.
pub open spec fn opened(tag: Seq<char>) -> ElementView {
    ElementView { tag, members: Seq::empty(), text: Seq::empty() }
}

/// The document that a closed element amounts to: its trimmed text where
/// it has text and no child element, else the object of its children.
pub open spec fn element_document(element: ElementView) -> DocumentView {
    if element.members.len() == 0 && element.text.len() > 0 {
        DocumentView::Text(trimmed(element.text))
    } else {
        DocumentView::Object(element.members)
    }
}

/// The members with one more child under `key`: alone where the name is
/// new, else in a list behind the earlier children of that name. A single
/// earlier value becomes the first item of that list.
pub open spec fn merged(members: Members, key: Seq<char>, document: DocumentView) -> Members {
    match lookup(members, key) {
        Some(DocumentView::List(items)) => with_member(
            members,
            key,
            DocumentView::List(items.push(document)),
        ),
        Some(single) => with_member(members, key, DocumentView::List(seq![single, document])),
        None => members.push((key, document)),
    }
}

/// The parent after the innermost open element was closed into it.
pub open spec fn closed_into(parent: ElementView, child: ElementView) -> ElementView {
    ElementView {
        members: merged(parent.members, child.tag, element_document(child)),
        ..parent
    }
}

/// The open elements after the innermost one was closed.
pub open spec fn closed_top(stack: Seq<ElementView>) -> Seq<ElementView> {
    stack.drop_last().drop_last().push(closed_into(stack[stack.len() - 2], stack.last()))
}

/// A child of an element: its name and its document.
pub type Child = (Seq<char>, DocumentView);

/// The members of a parent, empty at first, after the given children
/// joined it in order.
pub open spec fn collected(children: Seq<Child>) -> Members
    decreases children.len(),
{
    if children.len() == 0 {
        Seq::empty()
    } else {
        merged(collected(children.drop_last()), children.last().0, children.last().1)
    }
}

/// The documents of the children of a given name, in order.
pub open spec fn siblings(children: Seq<Child>, key: Seq<char>) -> Seq<DocumentView>
    decreases children.len(),
{
    if children.len() == 0 {
        Seq::empty()
    } else if children.last().0 == key {
        siblings(children.drop_last(), key).push(children.last().1)
    } else {
        siblings(children.drop_last(), key)
    }
}

/// Whether none of the children is a list. The children that the
/// transcoder meets are texts, objects and nulls.
pub open spec fn are_single(children: Seq<Child>) -> bool {
    forall|i: int| 0 <= i < children.len() ==> !((#[trigger] children[i]).1 is List)
}

/// The siblings among children that are no lists are no lists.
pub proof fn lemma_siblings_are_single(children: Seq<Child>, key: Seq<char>)
    requires
        are_single(children),
    ensures
        forall|i: int|
            0 <= i < siblings(children, key).len() ==> !(#[trigger] siblings(children, key)[i]
                is List),
    decreases children.len(),
{
    if children.len() > 0 {
        assert(!(children[children.len() - 1].1 is List));
        assert forall|i: int| 0 <= i < children.drop_last().len() implies !((
        #[trigger] children.drop_last()[i]).1 is List) by {
            assert(children.drop_last()[i] == children[i]);
        }
        lemma_siblings_are_single(children.drop_last(), key);
    }
}

/// Sibling merge: of the children that joined a parent, a name that none
/// has is absent, a name that one has holds that child's document, and a
/// name that two or more have holds the list of their documents in the
/// order in which they were met. No child is dropped.
pub proof fn lemma_siblings_merge(children: Seq<Child>, key: Seq<char>)
    requires
        are_single(children),
    ensures
        siblings(children, key).len() == 0 ==> lookup(collected(children), key) is None,
        siblings(children, key).len() == 1 ==> lookup(collected(children), key) == Some(
            siblings(children, key)[0],
        ),
        siblings(children, key).len() >= 2 ==> lookup(collected(children), key) == Some(
            DocumentView::List(siblings(children, key)),
        ),
    decreases children.len(),
{
    if children.len() > 0 {
        let earlier = children.drop_last();
        let name = children.last().0;
        let document = children.last().1;
        let before = collected(earlier);
        assert(!(children[children.len() - 1].1 is List));
        assert forall|i: int| 0 <= i < earlier.len() implies !((#[trigger] earlier[i]).1
            is List) by {
            assert(earlier[i] == children[i]);
        }
        lemma_siblings_merge(earlier, key);
        lemma_siblings_merge(earlier, name);
        lemma_siblings_are_single(earlier, name);
        match lookup(before, name) {
            Some(DocumentView::List(items)) => {
                lemma_with_member(before, name, DocumentView::List(items.push(document)), key);
                if name == key {
                    assert(siblings(earlier, key).len() >= 2);
                    assert(items == siblings(earlier, key));
                }
            },
            Some(single) => {
                lemma_with_member(before, name, DocumentView::List(seq![single, document]), key);
                if name == key {
                    assert(siblings(earlier, key).len() == 1);
                    assert(siblings(children, key) =~= seq![single, document]);
                }
            },
            None => {
                lemma_push_member(before, name, document, key);
            },
        }
    }
}

/// The outcome of transcoding.
pub enum Transcoded {
    Document(DocumentView),
    /// The reader failed, the payload ended inside an element, or a
    /// closing tag stood where no element was open; with the message.
    Malformed(Seq<char>),
}

/// What the elements that are open amount to when the payload ends: the
/// document of the outermost one where nothing else is open, else a
/// malformed payload.
pub open spec fn ended(stack: Seq<ElementView>) -> Transcoded {
    if stack.len() <= 1 {
        Transcoded::Document(element_document(stack[0]))
    } else {
        Transcoded::Malformed(unclosed())
    }
}

/// Reads on from `pos` with the given elements open, outermost first. The
/// outermost stands for the document itself.
pub open spec fn transcoded_from(tokens: Seq<Token>, pos: int, stack: Seq<ElementView>) -> Transcoded
    decreases tokens.len() - pos,
{
    if pos < 0 || pos >= tokens.len() {
        ended(stack)
    } else {
        let top = stack.last();
        match tokens[pos] {
            Token::Eof => ended(stack),
            Token::Malformed(message) => Transcoded::Malformed(message@),
            Token::Start(name) => transcoded_from(tokens, pos + 1, stack.push(opened(name@))),
            Token::End(_) => if stack.len() <= 1 {
                Transcoded::Malformed(unopened())
            } else {
                transcoded_from(tokens, pos + 1, closed_top(stack))
            },
            Token::Text(text) => transcoded_from(
                tokens,
                pos + 1,
                stack.drop_last().push(ElementView { text: top.text + text@, ..top }),
            ),
            Token::Empty(name) => transcoded_from(
                tokens,
                pos + 1,
                stack.drop_last().push(
                    ElementView {
                        members: merged(top.members, name@, DocumentView::Null),
                        ..top
                    },
                ),
            ),
            Token::Other => transcoded_from(tokens, pos + 1, stack),
        }
    }
}

/// What the tokens of a payload amount to: the object of the top-level
/// elements, the root among them.
pub open spec fn transcoded(tokens: Seq<Token>) -> Transcoded {
    transcoded_from(tokens, 0, seq![opened(Seq::empty())])
}

/// The outcome of transcoding, as the transcoder returns it.
pub open spec fn transcoded_view(result: Result<Document, ApiError>) -> Option<Transcoded> {
    match result {
        Ok(document) => Some(Transcoded::Document(document@)),
        Err(ApiError::Malformed(message)) => Some(Transcoded::Malformed(message@)),
        _ => None,
    }
}

struct Element {
    tag: String,
    members: Vec<(String, Document)>,
    text: String,
}

impl View for Element {
    type V = ElementView;

    closed spec fn view(&self) -> ElementView {
        ElementView { tag: self.tag@, members: object_view(self.members@), text: self.text@ }
    }
}

spec fn elements_view(stack: Seq<Element>) -> Seq<ElementView> {
    Seq::new(stack.len(), |i: int| stack[i]@)
}

fn open_element(tag: String) -> (element: Element)
    ensures
        element@ == opened(tag@),
{
    let element = Element { tag, members: Vec::new(), text: String::new() };
    assert(object_view(element.members@) =~= Seq::empty());
    element
}

fn close_element(element: Element) -> (document: Document)
    ensures
        document@ == element_document(element@),
{
    if element.members.len() == 0 && !element.text.as_str().is_empty() {
        Document::Text(trim(element.text.as_str()))
    } else {
        proof {
            lemma_object_view(element.members);
        }
        Document::Object(element.members)
    }
}

/// Adds one more child under `key`, merging it with earlier children of
/// that name.
pub fn merge_member(members: &mut Vec<(String, Document)>, key: String, document: Document)
    ensures
        object_view(final(members)@) == merged(object_view(old(members)@), key@, document@),
{
    let ghost before = object_view(members@);
    proof {
        lemma_position(before, key@);
    }
    let at = find_member(members, key.as_str());
    if at < members.len() {
        members.push((String::new(), Document::Null));
        let (name, earlier) = members.swap_remove(at);
        let list = match earlier {
            Document::List(items) => {
                let mut items = items;
                proof {
                    lemma_list_view(items);
                }
                let ghost old_items = items_view(items@);
                items.push(document);
                proof {
                    lemma_list_view(items);
                    assert(items_view(items@) =~= old_items.push(document@));
                }
                Document::List(items)
            },
            single => {
                let mut items: Vec<Document> = Vec::new();
                let ghost first = single@;
                items.push(single);
                items.push(document);
                proof {
                    lemma_list_view(items);
                    assert(items_view(items@) =~= seq![first, document@]);
                }
                Document::List(items)
            },
        };
        members.set(at, (name, list));
        assert(object_view(members@) =~= merged(before, key@, document@));
    } else {
        members.push((key, document));
        assert(object_view(members@) =~= merged(before, key@, document@));
    }
}

proof fn lemma_elements_push(stack: Seq<Element>, element: Element)
    ensures
        elements_view(stack.push(element)) == elements_view(stack).push(element@),
{
    assert(elements_view(stack.push(element)) =~= elements_view(stack).push(element@));
}

proof fn lemma_elements_drop_last(stack: Seq<Element>)
    requires
        stack.len() > 0,
    ensures
        elements_view(stack.drop_last()) == elements_view(stack).drop_last(),
        elements_view(stack).last() == stack.last()@,
{
    assert(elements_view(stack.drop_last()) =~= elements_view(stack).drop_last());
}

/// Closes the innermost open element into its parent.
fn close_top(stack: &mut Vec<Element>)
    requires
        old(stack)@.len() >= 2,
    ensures
        final(stack)@.len() == old(stack)@.len() - 1,
        elements_view(final(stack)@) == closed_top(elements_view(old(stack)@)),
{
    let ghost before = stack@;
    proof {
        lemma_elements_drop_last(before);
        lemma_elements_drop_last(before.drop_last());
    }
    let child = stack.pop().unwrap();
    let mut parent = stack.pop().unwrap();
    assert(stack@ =~= before.drop_last().drop_last());
    let Element { tag, members, text } = child;
    let ghost child_view = child@;
    let document = close_element(Element { tag: tag.clone(), members, text });
    merge_member(&mut parent.members, tag, document);
    stack.push(parent);
    proof {
        lemma_elements_push(before.drop_last().drop_last(), parent);
    }
}

/// What is left when the payload ends with these elements open.
fn end_of_payload(open: Vec<Element>) -> (result: Result<Document, ApiError>)
    requires
        open@.len() > 0,
    ensures
        transcoded_view(result) == Some(ended(elements_view(open@))),
{
    let mut stack = open;
    if stack.len() > 1 {
        return Err(ApiError::Malformed(String::from_str("document ends inside an element")));
    }
    let ghost last = stack@;
    let bottom = stack.pop().unwrap();
    assert(elements_view(last)[0] == bottom@);
    Ok(close_element(bottom))
}

/// Transcodes the tokens of a payload into the object of its top-level
/// elements. Every element met is kept: a repeated name makes a list, and
/// a self-closing element joins as a null. `Malformed` where the reader
/// failed, where the payload ends inside an element, and where a closing
/// tag stands outside every element.
pub fn parse_one_xml_tokens(tokens: &Vec<Token>) -> (result: Result<Document, ApiError>)
    ensures
        transcoded_view(result) == Some(transcoded(tokens@)),
{
    let mut stack: Vec<Element> = Vec::new();
    stack.push(open_element(String::new()));
    assert(elements_view(stack@) =~= seq![opened(Seq::empty())]);
    let mut pos: usize = 0;
    while pos < tokens.len()
        invariant
            pos <= tokens@.len(),
            stack@.len() > 0,
            transcoded_from(tokens@, pos as int, elements_view(stack@)) == transcoded(tokens@),
        decreases tokens@.len() - pos,
    {
        let ghost before = stack@;
        proof {
            lemma_elements_drop_last(before);
        }
        match &tokens[pos] {
            Token::Eof => {
                return end_of_payload(stack);
            },
            Token::Malformed(message) => {
                return Err(ApiError::Malformed(message.clone()));
            },
            Token::Start(name) => {
                stack.push(open_element(name.clone()));
                proof {
                    lemma_elements_push(before, stack@.last());
                }
            },
            Token::End(_) => {
                if stack.len() <= 1 {
                    return Err(
                        ApiError::Malformed(String::from_str("closing tag without an element")),
                    );
                }
                close_top(&mut stack);
            },
            Token::Text(text) => {
                let mut top = stack.pop().unwrap();
                assert(stack@ =~= before.drop_last());
                top.text.append(text.as_str());
                stack.push(top);
                proof {
                    lemma_elements_push(before.drop_last(), top);
                }
            },
            Token::Empty(name) => {
                let mut top = stack.pop().unwrap();
                assert(stack@ =~= before.drop_last());
                merge_member(&mut top.members, name.clone(), Document::Null);
                stack.push(top);
                proof {
                    lemma_elements_push(before.drop_last(), top);
                }
            },
            Token::Other => {},
        }
        pos = pos + 1;
    }
    end_of_payload(stack)
}

/// Transcodes the text of a payload.
pub fn parse_one_xml_to_json(xml: &str) -> (result: Result<Document, ApiError>)
    ensures
        transcoded_view(result) == Some(transcoded(xml_tokens(xml@, true))),
{
    let tokens = tokenize(xml, true);
    parse_one_xml_tokens(&tokens)
}

} // verus!
