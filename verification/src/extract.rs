//! The path extractor: dotted, optionally indexed field access over a
//! generic document, with a string for every outcome.

use crate::document::{clone_items, items_view, lemma_list_view, Document, DocumentView};
use crate::error::ApiError;
use crate::text::{
    all_digits, chars_of, decimal_digits, decimal_text, digits_value, find_char, format_i64,
    format_u64, index_of, is_digit, lemma_index_of, lemma_index_of_joined, parse_index,
    parsed_index, slice_chars, string_of,
};
use vstd::prelude::*;
use vstd::string::*;

verus! {

/// The sentinel that stands for a value that is missing.
pub open spec fn missing() -> Seq<char> {
    seq!['-']
}

/// The index of an indexed segment such as `DISK[0]`: the number that
/// stands between the first opening bracket and the segment's last
/// character; nothing where the segment has no bracket or no number there.
pub open spec fn segment_index(segment: Seq<char>) -> Option<usize> {
    let bracket = index_of(segment, '[');
    if bracket + 1 <= segment.len() - 1 {
        parsed_index(segment.subrange(bracket + 1, segment.len() - 1))
    } else {
        None
    }
}

/// The name that a segment looks up: what stands before the bracket in an
/// indexed segment, else the whole segment.
pub open spec fn segment_key(segment: Seq<char>) -> Seq<char> {
    if segment_index(segment) is Some {
        segment.take(index_of(segment, '['))
    } else {
        segment
    }
}

/// Where one segment leads from a document: to the member of that name,
/// and for an indexed segment on to the item at the index. With `indexed`
/// off, brackets have no meaning.
pub open spec fn segment_target(document: DocumentView, segment: Seq<char>, indexed: bool) -> Option<
    DocumentView,
> {
    if indexed && segment_index(segment) is Some {
        match document.member(segment_key(segment)) {
            Some(list) => list.item(segment_index(segment).unwrap() as int),
            None => None,
        }
    } else {
        document.member(segment)
    }
}

/// The first segment of a dotted path.
pub open spec fn first_segment(path: Seq<char>) -> Seq<char> {
    path.take(index_of(path, '.'))
}

/// Where a dotted path leads from a document, segment by segment; nothing
/// as soon as one segment leads nowhere. The empty path has one segment,
/// the empty name.
pub open spec fn target(document: DocumentView, path: Seq<char>, indexed: bool) -> Option<
    DocumentView,
>
    decreases path.len(),
{
    let dot = index_of(path, '.');
    match segment_target(document, first_segment(path), indexed) {
        None => None,
        Some(next) => if 0 <= dot < path.len() {
            target(next, path.skip(dot + 1), indexed)
        } else {
            Some(next)
        },
    }
}

/// The string that stands for a document at the end of a path: a text
/// verbatim, a number in decimal, the sentinel for null and for an empty
/// list, what stands for its item for a list of one, a count for a longer
/// list and a marker for an object.
pub open spec fn terminal_string(document: DocumentView) -> Seq<char>
    decreases document,
{
    match document {
        DocumentView::Text(text) => text,
        DocumentView::Int(i) => decimal_text(i as int),
        DocumentView::Real(text) => text,
        DocumentView::Bool(b) => if b {
            "true"@
        } else {
            "false"@
        },
        DocumentView::Null => missing(),
        DocumentView::List(items) => if items.len() == 0 {
            missing()
        } else if items.len() == 1 {
            terminal_string(items[0])
        } else {
            seq!['['] + decimal_digits(items.len()) + " items]"@
        },
        DocumentView::Object(_) => "[object]"@,
    }
}

/// The string that a path extracts from a document.
pub open spec fn extracted(document: DocumentView, path: Seq<char>) -> Seq<char> {
    match target(document, path, true) {
        Some(found) => terminal_string(found),
        None => missing(),
    }
}

/// Sentinel law: a path whose first segment names no member of the
/// document extracts the sentinel.
pub proof fn lemma_absent_first_segment(document: DocumentView, path: Seq<char>)
    requires
        document.member(segment_key(first_segment(path))) is None,
    ensures
        extracted(document, path) == missing(),
{
}

/// Collapse law: a list of one item stands for the same string as its
/// item, so a path that ends at such a list extracts what a path to the
/// item itself would.
pub proof fn lemma_single_item_collapses(document: DocumentView, path: Seq<char>, item: DocumentView)
    requires
        target(document, path, true) == Some(DocumentView::List(seq![item])),
    ensures
        extracted(document, path) == terminal_string(item),
        terminal_string(DocumentView::List(seq![item])) == terminal_string(item),
{
}

/// The index that leads into the first item of a list.
pub open spec fn first_item() -> Seq<char> {
    seq!['[', '0', ']']
}

/// Whether the last segment of a path is a plain name, without a bracket.
pub open spec fn ends_plain(path: Seq<char>) -> bool
    decreases path.len(),
{
    let dot = index_of(path, '.');
    if 0 <= dot < path.len() {
        ends_plain(path.skip(dot + 1))
    } else {
        index_of(path, '[') == path.len()
    }
}

/// Where a path with a plain last segment leads to a list of one item,
/// the path with the index of the first item behind it leads to that item.
pub proof fn lemma_index_leads_into_single_item(
    document: DocumentView,
    path: Seq<char>,
    item: DocumentView,
)
    requires
        ends_plain(path),
        target(document, path, true) == Some(DocumentView::List(seq![item])),
    ensures
        target(document, path + first_item(), true) == Some(item),
    decreases path.len(),
{
    let longer = path + first_item();
    let dot = index_of(path, '.');
    lemma_index_of(path, '.');
    lemma_index_of_joined(path, first_item(), '.');
    assert(index_of(first_item(), '.') == 3) by {
        reveal_with_fuel(index_of, 4);
        assert(first_item().skip(1).skip(1).skip(1) =~= Seq::<char>::empty());
    }
    if dot < path.len() {
        assert(first_segment(longer) =~= first_segment(path));
        assert(longer.skip(dot + 1) =~= path.skip(dot + 1) + first_item());
        let next = segment_target(document, first_segment(path), true).unwrap();
        lemma_index_leads_into_single_item(next, path.skip(dot + 1), item);
    } else {
        assert(first_segment(path) =~= path);
        assert(first_segment(longer) =~= longer);
        lemma_index_of_joined(path, first_item(), '[');
        assert(index_of(first_item(), '[') == 0);
        assert(index_of(longer, '[') == path.len());
        let digits = longer.subrange(path.len() as int + 1, longer.len() as int - 1);
        assert(digits =~= seq!['0']);
        assert(parsed_index(digits) == Some(0usize)) by {
            assert(digits.drop_last() =~= Seq::<char>::empty());
            assert(digits_value(digits.drop_last()) == 0);
            assert(is_digit(digits[0]));
            assert(digits_value(digits) == 0);
            assert(all_digits(digits));
        }
        assert(longer.take(path.len() as int) =~= path);
        assert(segment_index(path) is None);
    }
}

/// Collapse law, on paths: a path with a plain last segment that ends at
/// a list of one item extracts the same string as the path that leads on
/// into that item by its index.
pub proof fn lemma_collapse_equals_indexing(
    document: DocumentView,
    path: Seq<char>,
    item: DocumentView,
)
    requires
        ends_plain(path),
        target(document, path, true) == Some(DocumentView::List(seq![item])),
    ensures
        extracted(document, path) == extracted(document, path + first_item()),
{
    lemma_index_leads_into_single_item(document, path, item);
}

/// The string that stands for a document at the end of a path.
pub fn terminal_text(document: &Document) -> (text: String)
    ensures
        text@ == terminal_string(document@),
    decreases document,
{
    match document {
        Document::Text(text) => text.clone(),
        Document::Int(i) => format_i64(*i),
        Document::Real(text) => text.clone(),
        Document::Bool(b) => if *b {
            String::from_str("true")
        } else {
            String::from_str("false")
        },
        Document::Null => {
            proof {
                reveal_strlit("-");
                assert("-"@ =~= missing());
            }
            String::from_str("-")
        },
        Document::List(items) => {
            proof {
                lemma_list_view(*items);
                reveal_strlit("-");
                reveal_strlit("[");
                assert("-"@ =~= missing());
                assert("["@ =~= seq!['[']);
            }
            if items.len() == 0 {
                String::from_str("-")
            } else if items.len() == 1 {
                terminal_text(&items[0])
            } else {
                let count = format_u64(items.len() as u64);
                String::from_str("[").concat(count.as_str()).concat(" items]")
            }
        },
        Document::Object(_) => String::from_str("[object]"),
    }
}

/// Follows one segment from a document.
fn follow<'a>(document: &'a Document, segment: &Vec<char>, indexed: bool) -> (found: Option<
    &'a Document,
>)
    ensures
        match found {
            Some(next) => segment_target(document@, segment@, indexed) == Some(next@),
            None => segment_target(document@, segment@, indexed) is None,
        },
{
    if indexed {
        let bracket = find_char(segment, 0, '[');
        assert(segment@.skip(0) =~= segment@);
        if bracket < segment.len() && bracket + 1 <= segment.len() - 1 {
            let digits = slice_chars(segment, bracket + 1, segment.len() - 1);
            match parse_index(&digits) {
                Some(index) => {
                    let key = slice_chars(segment, 0, bracket);
                    assert(key@ =~= segment@.take(bracket as int));
                    let name = string_of(&key);
                    return match document.get(name.as_str()) {
                        Some(list) => list.at(index),
                        None => None,
                    };
                },
                None => {},
            }
        }
    }
    let name = string_of(segment);
    document.get(name.as_str())
}

/// Follows a dotted path from a document.
fn locate<'a>(document: &'a Document, path: &Vec<char>, indexed: bool) -> (found: Option<
    &'a Document,
>)
    ensures
        match found {
            Some(end) => target(document@, path@, indexed) == Some(end@),
            None => target(document@, path@, indexed) is None,
        },
{
    let mut current: &Document = document;
    let mut from: usize = 0;
    assert(path@.skip(0) =~= path@);
    loop
        invariant
            from <= path@.len(),
            target(current@, path@.skip(from as int), indexed) == target(
                document@,
                path@,
                indexed,
            ),
        decreases path@.len() - from,
    {
        let ghost rest = path@.skip(from as int);
        let dot = find_char(path, from, '.');
        let segment = slice_chars(path, from, dot);
        assert(segment@ =~= first_segment(rest));
        match follow(current, &segment, indexed) {
            None => {
                return None;
            },
            Some(next) => {
                if dot < path.len() {
                    assert(rest.skip(dot - from + 1) =~= path@.skip(dot + 1));
                    current = next;
                    from = dot + 1;
                } else {
                    return Some(next);
                }
            },
        }
    }
}

/// Extracts the string at a dotted path: segments are separated by dots,
/// and a segment may end in one bracketed index. A segment that leads
/// nowhere gives `"-"`.
pub fn extract_json_value(item: &Document, path: &str) -> (text: String)
    ensures
        text@ == extracted(item@, path@),
{
    let chars = chars_of(path);
    match locate(item, &chars, true) {
        Some(found) => terminal_text(found),
        None => {
            proof {
                reveal_strlit("-");
                assert("-"@ =~= missing());
            }
            String::from_str("-")
        },
    }
}

/// The item list that a document at the end of a result path stands for:
/// the items of a list, an object alone, nothing for a leaf.
pub open spec fn listed(found: DocumentView) -> Seq<DocumentView> {
    match found {
        DocumentView::List(items) => items,
        DocumentView::Object(_) => seq![found],
        _ => Seq::empty(),
    }
}

/// Extracts the item list at a dotted result path such as `VM_POOL.VM`,
/// in order. `PathNotFound` with the path where a segment names no member.
pub fn extract_items(response: &Document, path: &str) -> (result: Result<Vec<Document>, ApiError>)
    ensures
        match target(response@, path@, false) {
            Some(found) => result matches Ok(items) && items_view(items@) == listed(found),
            None => result matches Err(ApiError::PathNotFound(p)) && p@ == path@,
        },
{
    let chars = chars_of(path);
    match locate(response, &chars, false) {
        None => Err(ApiError::PathNotFound(string_of(&chars))),
        Some(found) => match found {
            Document::List(items) => {
                proof {
                    lemma_list_view(*items);
                }
                Ok(clone_items(items))
            },
            Document::Object(_) => {
                let mut items: Vec<Document> = Vec::new();
                items.push(found.clone());
                assert(items_view(items@) =~= seq![found@]);
                Ok(items)
            },
            _ => {
                let items: Vec<Document> = Vec::new();
                assert(items_view(items@) =~= Seq::empty());
                Ok(items)
            },
        },
    }
}

} // verus!
