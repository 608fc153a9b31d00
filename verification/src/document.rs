//! The generic document: the tree that embedded payloads are turned into
//! and that the extractor, the dispatcher and the navigation engine read.

use crate::text::str_eq;
use vstd::prelude::*;

verus! {

/// A generic document. An object keeps its members in the order in which
/// they were first met; looking a name up takes the first member of that
/// name. A number that is no 64-bit integer is carried as its decimal text.
#[derive(Debug)]
pub enum Document {
    Null,
    Bool(bool),
    Int(i64),
    Real(String),
    Text(String),
    List(Vec<Document>),
    Object(Vec<(String, Document)>),
}

/// The mathematical content of a `Document`.
pub enum DocumentView {
    Null,
    Bool(bool),
    Int(i64),
    Real(Seq<char>),
    Text(Seq<char>),
    List(Seq<DocumentView>),
    Object(Seq<(Seq<char>, DocumentView)>),
}

/// The members of an object's view.
pub type Members = Seq<(Seq<char>, DocumentView)>;

/// The content of a document: texts as character sequences, lists and
/// objects as sequences of contents.
pub open spec fn document_view(document: Document) -> DocumentView
    decreases document,
{
    match document {
        Document::Null => DocumentView::Null,
        Document::Bool(b) => DocumentView::Bool(b),
        Document::Int(i) => DocumentView::Int(i),
        Document::Real(r) => DocumentView::Real(r@),
        Document::Text(t) => DocumentView::Text(t@),
        Document::List(items) => DocumentView::List(
            Seq::new(
                items@.len(),
                |i: int|
                    if 0 <= i < items@.len() {
                        document_view(items@[i])
                    } else {
                        DocumentView::Null
                    },
            ),
        ),
        Document::Object(members) => DocumentView::Object(
            Seq::new(
                members@.len(),
                |i: int|
                    if 0 <= i < members@.len() {
                        (members@[i].0@, document_view(members@[i].1))
                    } else {
                        (Seq::empty(), DocumentView::Null)
                    },
            ),
        ),
    }
}

impl View for Document {
    type V = DocumentView;

    open spec fn view(&self) -> DocumentView {
        document_view(*self)
    }
}

/// The contents of a list of documents.
pub open spec fn items_view(items: Seq<Document>) -> Seq<DocumentView> {
    Seq::new(items.len(), |i: int| items[i]@)
}

/// The contents of a list of named documents.
pub open spec fn object_view(members: Seq<(String, Document)>) -> Members {
    Seq::new(members.len(), |i: int| (members[i].0@, members[i].1@))
}

/// The view of a list is the sequence of the views of its items.
pub proof fn lemma_list_view(items: Vec<Document>)
    ensures
        Document::List(items)@ == DocumentView::List(items_view(items@)),
{
    let whole = Document::List(items);
    assert(whole@->List_0 =~= items_view(items@));
}

/// The view of an object is the sequence of its names, each with the view
/// of its document.
pub proof fn lemma_object_view(members: Vec<(String, Document)>)
    ensures
        Document::Object(members)@ == DocumentView::Object(object_view(members@)),
{
    let whole = Document::Object(members);
    assert(whole@->Object_0 =~= object_view(members@));
}

/// The position of the first member of a given name, or the number of
/// members where there is none.
pub open spec fn position(members: Members, key: Seq<char>) -> int
    decreases members.len(),
{
    if members.len() == 0 {
        0
    } else if members[0].0 == key {
        0
    } else {
        1 + position(members.skip(1), key)
    }
}

/// The position of a name is within the members, and no member before it
/// has that name; the member there has it.
pub proof fn lemma_position(members: Members, key: Seq<char>)
    ensures
        0 <= position(members, key) <= members.len(),
        forall|i: int| 0 <= i < position(members, key) ==> (#[trigger] members[i]).0 != key,
        position(members, key) < members.len() ==> members[position(members, key)].0 == key,
    decreases members.len(),
{
    if members.len() > 0 && members[0].0 != key {
        lemma_position(members.skip(1), key);
        assert forall|i: int| 0 <= i < position(members, key) implies (#[trigger] members[i]).0
            != key by {
            if i > 0 {
                assert(members[i] == members.skip(1)[i - 1]);
            }
        }
    }
}

/// Where a member has the name and none before it has, that is the name's
/// position.
pub proof fn lemma_position_is(members: Members, key: Seq<char>, at: int)
    requires
        0 <= at <= members.len(),
        forall|i: int| 0 <= i < at ==> (#[trigger] members[i]).0 != key,
        at < members.len() ==> members[at].0 == key,
    ensures
        position(members, key) == at,
    decreases members.len(),
{
    if members.len() > 0 && at > 0 {
        assert(members[0].0 != key);
        assert forall|i: int| 0 <= i < at - 1 implies (#[trigger] members.skip(1)[i]).0 != key by {
            assert(members.skip(1)[i] == members[i + 1]);
        }
        lemma_position_is(members.skip(1), key, at - 1);
    }
}

/// The document under a name, if the object has a member of that name.
pub open spec fn lookup(members: Members, key: Seq<char>) -> Option<DocumentView> {
    if position(members, key) < members.len() {
        Some(members[position(members, key)].1)
    } else {
        None
    }
}

/// The members with `document` under `key`: in the place of the first
/// member of that name, or at the end where there is none.
pub open spec fn with_member(members: Members, key: Seq<char>, document: DocumentView) -> Members {
    if position(members, key) < members.len() {
        members.update(position(members, key), (key, document))
    } else {
        members.push((key, document))
    }
}

/// Putting a document under a name changes what is found under that name
/// and under no other.
pub proof fn lemma_with_member(
    members: Members,
    key: Seq<char>,
    document: DocumentView,
    other: Seq<char>,
)
    ensures
        lookup(with_member(members, key, document), key) == Some(document),
        other != key ==> lookup(with_member(members, key, document), other) == lookup(
            members,
            other,
        ),
{
    let after = with_member(members, key, document);
    lemma_position(members, key);
    lemma_position(members, other);
    let at = position(members, key);
    assert forall|i: int| 0 <= i < at implies (#[trigger] after[i]).0 != key by {
        assert(after[i] == members[i]);
    }
    lemma_position_is(after, key, at);
    if other != key {
        let there = position(members, other);
        assert forall|i: int| 0 <= i < there implies (#[trigger] after[i]).0 != other by {
            if i < members.len() && i != at {
                assert(after[i] == members[i]);
            }
        }
        if there < members.len() {
            assert(there != at);
            assert(after[there] == members[there]);
            lemma_position_is(after, other, there);
        } else {
            lemma_position_is(after, other, after.len() as int);
        }
    }
}

/// A member added at the end under a name that no member has is found
/// under that name, and changes nothing under any other.
pub proof fn lemma_push_member(
    members: Members,
    key: Seq<char>,
    document: DocumentView,
    other: Seq<char>,
)
    requires
        lookup(members, key) is None,
    ensures
        lookup(members.push((key, document)), key) == Some(document),
        other != key ==> lookup(members.push((key, document)), other) == lookup(members, other),
{
    lemma_position(members, key);
    assert(members.push((key, document)) =~= with_member(members, key, document));
    lemma_with_member(members, key, document, other);
}

impl DocumentView {
    /// The member of an object under a name; nothing for any other
    /// document.
    pub open spec fn member(self, key: Seq<char>) -> Option<DocumentView> {
        match self {
            DocumentView::Object(members) => lookup(members, key),
            _ => None,
        }
    }

    /// The item of a list at an index; nothing for any other document.
    pub open spec fn item(self, index: int) -> Option<DocumentView> {
        match self {
            DocumentView::List(items) => if 0 <= index < items.len() {
                Some(items[index])
            } else {
                None
            },
            _ => None,
        }
    }
}

/// The position of the first member of a given name, or the number of
/// members where there is none.
pub fn find_member(members: &Vec<(String, Document)>, key: &str) -> (at: usize)
    ensures
        at == position(object_view(members@), key@),
        at <= members@.len(),
{
    let mut at: usize = 0;
    while at < members.len()
        invariant
            at <= members@.len(),
            forall|i: int| 0 <= i < at ==> (#[trigger] object_view(members@)[i]).0 != key@,
        decreases members@.len() - at,
    {
        if str_eq(members[at].0.as_str(), key) {
            proof {
                lemma_position_is(object_view(members@), key@, at as int);
            }
            return at;
        }
        at += 1;
    }
    proof {
        lemma_position_is(object_view(members@), key@, at as int);
    }
    at
}

/// Puts `document` under `key`: in the place of the first member of that
/// name, or at the end where there is none.
pub fn set_member(members: &mut Vec<(String, Document)>, key: String, document: Document)
    ensures
        object_view(final(members)@) == with_member(object_view(old(members)@), key@, document@),
{
    let at = find_member(members, key.as_str());
    if at < members.len() {
        members.set(at, (key, document));
        assert(object_view(members@) =~= with_member(
            object_view(old(members)@),
            key@,
            document@,
        ));
    } else {
        members.push((key, document));
        assert(object_view(members@) =~= with_member(
            object_view(old(members)@),
            key@,
            document@,
        ));
    }
}

impl Document {
    /// The member of an object under a name; nothing for any other
    /// document.
    pub fn get(&self, key: &str) -> (found: Option<&Document>)
        ensures
            match found {
                Some(document) => self@.member(key@) == Some(document@),
                None => self@.member(key@) is None,
            },
    {
        match self {
            Document::Object(members) => {
                proof {
                    lemma_object_view(*members);
                }
                let at = find_member(members, key);
                if at < members.len() {
                    Some(&members[at].1)
                } else {
                    None
                }
            },
            _ => None,
        }
    }

    /// The item of a list at an index; nothing for any other document.
    pub fn at(&self, index: usize) -> (found: Option<&Document>)
        ensures
            match found {
                Some(document) => self@.item(index as int) == Some(document@),
                None => self@.item(index as int) is None,
            },
    {
        match self {
            Document::List(items) => {
                proof {
                    lemma_list_view(*items);
                }
                if index < items.len() {
                    Some(&items[index])
                } else {
                    None
                }
            },
            _ => None,
        }
    }
}

impl Clone for Document {
    /// A copy with the same content.
    fn clone(&self) -> (copy: Document)
        ensures
            copy@ == self@,
        decreases self,
    {
        match self {
            Document::Null => Document::Null,
            Document::Bool(b) => Document::Bool(*b),
            Document::Int(i) => Document::Int(*i),
            Document::Real(r) => Document::Real(r.clone()),
            Document::Text(t) => Document::Text(t.clone()),
            Document::List(items) => {
                let mut copies: Vec<Document> = Vec::new();
                let mut i: usize = 0;
                while i < items.len()
                    invariant
                        i <= items@.len(),
                        copies@.len() == i,
                        forall|k: int| 0 <= k < i ==> copies@[k]@ == items@[k]@,
                        forall|k: int| 0 <= k < items@.len() ==> decreases_to!(self => items@[k]),
                    decreases items@.len() - i,
                {
                    copies.push(items[i].clone());
                    i += 1;
                }
                proof {
                    lemma_list_view(copies);
                    lemma_list_view(*items);
                    assert(items_view(copies@) =~= items_view(items@));
                }
                Document::List(copies)
            },
            Document::Object(members) => {
                let mut copies: Vec<(String, Document)> = Vec::new();
                let mut i: usize = 0;
                while i < members.len()
                    invariant
                        i <= members@.len(),
                        copies@.len() == i,
                        forall|k: int|
                            0 <= k < i ==> copies@[k].0@ == members@[k].0@ && copies@[k].1@
                                == members@[k].1@,
                        forall|k: int|
                            0 <= k < members@.len() ==> decreases_to!(self => members@[k].1),
                    decreases members@.len() - i,
                {
                    copies.push((members[i].0.clone(), members[i].1.clone()));
                    i += 1;
                }
                proof {
                    lemma_object_view(copies);
                    lemma_object_view(*members);
                    assert(object_view(copies@) =~= object_view(members@));
                }
                Document::Object(copies)
            },
        }
    }
}

/// Copies a list of documents.
pub fn clone_items(items: &Vec<Document>) -> (copies: Vec<Document>)
    ensures
        items_view(copies@) == items_view(items@),
{
    let mut copies: Vec<Document> = Vec::new();
    let mut i: usize = 0;
    while i < items.len()
        invariant
            i <= items@.len(),
            copies@.len() == i,
            forall|k: int| 0 <= k < i ==> copies@[k]@ == items@[k]@,
        decreases items@.len() - i,
    {
        copies.push(items[i].clone());
        i += 1;
    }
    assert(items_view(copies@) =~= items_view(items@));
    copies
}

} // verus!
