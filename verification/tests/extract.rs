use tone::document::{clone_items, find_member, set_member, Document};
use tone::error::ApiError;
use tone::extract::{extract_items, extract_json_value, terminal_text};

fn text(s: &str) -> Document {
    Document::Text(s.to_string())
}

fn object(members: Vec<(&str, Document)>) -> Document {
    Document::Object(members.into_iter().map(|(k, v)| (k.to_string(), v)).collect())
}

fn vm() -> Document {
    object(vec![(
        "VM",
        object(vec![
            ("ID", text("7")),
            ("NAME", text("web1")),
            ("CPU", Document::Int(-3)),
            ("LOAD", Document::Real("0.75".to_string())),
            ("ON", Document::Bool(true)),
            ("OFF", Document::Bool(false)),
            ("NOTHING", Document::Null),
            ("NONE", Document::List(Vec::new())),
            ("ONE", Document::List(vec![text("only")])),
            ("NESTED", Document::List(vec![Document::List(vec![Document::Int(5)])])),
            ("DISK", Document::List(vec![
                object(vec![("SIZE", text("10"))]),
                object(vec![("SIZE", text("20"))]),
            ])),
            ("DISK[9]", text("odd")),
            ("", text("empty name")),
        ]),
    )])
}

#[test]
fn extract_leaf_by_dotted_path() {
    let doc = vm();
    assert_eq!(extract_json_value(&doc, "VM.NAME"), "web1");
    assert_eq!(extract_json_value(&doc, "VM.ID"), "7");
    assert_eq!(extract_json_value(&doc, "VM.CPU"), "-3");
    assert_eq!(extract_json_value(&doc, "VM.LOAD"), "0.75");
    assert_eq!(extract_json_value(&doc, "VM.ON"), "true");
    assert_eq!(extract_json_value(&doc, "VM.OFF"), "false");
}

#[test]
fn extract_missing_gives_the_sentinel() {
    let doc = vm();
    assert_eq!(extract_json_value(&doc, "HOST.NAME"), "-");
    assert_eq!(extract_json_value(&doc, "VM.MISSING"), "-");
    assert_eq!(extract_json_value(&doc, "VM.NAME.MORE"), "-");
    assert_eq!(extract_json_value(&doc, "VM.NOTHING"), "-");
    assert_eq!(extract_json_value(&doc, "VM.NONE"), "-");
    assert_eq!(extract_json_value(&doc, ""), "-");
    assert_eq!(extract_json_value(&doc, "."), "-");
    assert_eq!(extract_json_value(&doc, "VM."), "empty name");
    assert_eq!(extract_json_value(&text("x"), "A"), "-");
    assert_eq!(extract_json_value(&Document::Null, "A"), "-");
}

#[test]
fn extract_first_segment_absent_for_any_document() {
    for doc in vec![
        vm(),
        Document::Null,
        text("VM"),
        Document::List(vec![vm()]),
        object(Vec::new()),
        object(vec![("vm", text("x"))]),
    ] {
        assert_eq!(extract_json_value(&doc, "ABSENT.NAME"), "-");
        assert_eq!(extract_json_value(&doc, "ABSENT[0].NAME"), "-");
        assert_eq!(extract_json_value(&doc, "ABSENT"), "-");
    }
}

#[test]
fn extract_lists_and_objects() {
    let doc = vm();
    assert_eq!(extract_json_value(&doc, "VM.DISK"), "[2 items]");
    assert_eq!(extract_json_value(&doc, "VM"), "[object]");
    assert_eq!(extract_json_value(&doc, "VM.DISK[0]"), "[object]");
    let many = object(vec![("L", Document::List((0..12).map(Document::Int).collect()))]);
    assert_eq!(extract_json_value(&many, "L"), "[12 items]");
}

#[test]
fn extract_single_item_list_collapses() {
    let doc = vm();
    assert_eq!(extract_json_value(&doc, "VM.ONE"), "only");
    assert_eq!(extract_json_value(&doc, "VM.ONE"), extract_json_value(&doc, "VM.ONE[0]"));
    assert_eq!(extract_json_value(&doc, "VM.NESTED"), "5");
    let single = object(vec![("A", Document::List(vec![object(vec![("B", text("x"))])]))]);
    assert_eq!(extract_json_value(&single, "A"), "[object]");
    assert_eq!(extract_json_value(&single, "A"), extract_json_value(&single, "A[0]"));
    // The collapse is for the end of a path only.
    assert_eq!(extract_json_value(&single, "A.B"), "-");
    assert_eq!(extract_json_value(&single, "A[0].B"), "x");
}

#[test]
fn extract_indexed_segments() {
    let doc = vm();
    assert_eq!(extract_json_value(&doc, "VM.DISK[0].SIZE"), "10");
    assert_eq!(extract_json_value(&doc, "VM.DISK[1].SIZE"), "20");
    assert_eq!(extract_json_value(&doc, "VM.DISK[+1].SIZE"), "20");
    assert_eq!(extract_json_value(&doc, "VM.DISK[01].SIZE"), "20");
    assert_eq!(extract_json_value(&doc, "VM.DISK[2].SIZE"), "-");
    assert_eq!(extract_json_value(&doc, "VM.DISK[99999999999999999999999].SIZE"), "-");
    assert_eq!(extract_json_value(&doc, "VM.NAME[0]"), "-");
    assert_eq!(extract_json_value(&doc, "VM.MISSING[0]"), "-");
    // An index that is no number: the segment is a plain name.
    assert_eq!(extract_json_value(&doc, "VM.DISK[x].SIZE"), "-");
    assert_eq!(extract_json_value(&doc, "VM.DISK[-1].SIZE"), "-");
    assert_eq!(extract_json_value(&doc, "VM.DISK[].SIZE"), "-");
    assert_eq!(extract_json_value(&doc, "VM.DISK["), "-");
    // The index holds in the named member, not in a member named with brackets.
    assert_eq!(extract_json_value(&doc, "VM.DISK[9]"), "-");
}

#[test]
fn terminal_texts_of_documents() {
    assert_eq!(terminal_text(&text("")), "");
    assert_eq!(terminal_text(&Document::Int(i64::MIN)), "-9223372036854775808");
    assert_eq!(terminal_text(&Document::Int(i64::MAX)), "9223372036854775807");
    assert_eq!(terminal_text(&Document::Int(0)), "0");
    assert_eq!(terminal_text(&Document::Int(10)), "10");
    assert_eq!(terminal_text(&Document::Null), "-");
    assert_eq!(terminal_text(&object(Vec::new())), "[object]");
}

#[test]
fn items_at_a_result_path() {
    let doc = object(vec![(
        "VM_POOL",
        object(vec![
            ("VM", Document::List(vec![object(vec![("ID", text("1"))]), object(vec![("ID", text("2"))])])),
            ("ONE", object(vec![("ID", text("9"))])),
            ("LEAF", text("x")),
            ("NULL", Document::Null),
            ("A[0]", Document::List(vec![text("bracket")])),
        ]),
    )]);
    let items = extract_items(&doc, "VM_POOL.VM").unwrap();
    assert_eq!(items.len(), 2);
    assert_eq!(extract_json_value(&items[0], "ID"), "1");
    assert_eq!(extract_json_value(&items[1], "ID"), "2");

    let single = extract_items(&doc, "VM_POOL.ONE").unwrap();
    assert_eq!(single.len(), 1);
    assert_eq!(extract_json_value(&single[0], "ID"), "9");

    assert!(extract_items(&doc, "VM_POOL.LEAF").unwrap().is_empty());
    assert!(extract_items(&doc, "VM_POOL.NULL").unwrap().is_empty());
    assert_eq!(extract_items(&doc, "VM_POOL").unwrap().len(), 1);
    // Brackets have no meaning in a result path.
    assert_eq!(extract_items(&doc, "VM_POOL.A[0]").unwrap().len(), 1);
}

#[test]
fn items_at_a_path_that_leads_nowhere() {
    let doc = object(vec![("VM_POOL", object(Vec::new()))]);
    match extract_items(&doc, "VM_POOL.VM") {
        Err(ApiError::PathNotFound(path)) => {
            assert_eq!(path, "VM_POOL.VM");
            assert_eq!(
                ApiError::PathNotFound(path).message(),
                "Path 'VM_POOL.VM' not found in response"
            );
        }
        other => panic!("{:?}", other),
    }
    assert!(matches!(extract_items(&doc, ""), Err(ApiError::PathNotFound(_))));
}

#[test]
fn document_members_and_items() {
    let doc = object(vec![("a", text("1")), ("b", text("2")), ("a", text("3"))]);
    assert_eq!(terminal_text(doc.get("a").unwrap()), "1");
    assert_eq!(terminal_text(doc.get("b").unwrap()), "2");
    assert!(doc.get("c").is_none());
    assert!(doc.at(0).is_none());
    assert!(text("x").get("a").is_none());

    let list = Document::List(vec![text("x"), text("y")]);
    assert_eq!(terminal_text(list.at(1).unwrap()), "y");
    assert!(list.at(2).is_none());
    assert!(list.get("0").is_none());

    if let Document::Object(mut members) = doc {
        assert_eq!(find_member(&members, "a"), 0);
        assert_eq!(find_member(&members, "b"), 1);
        assert_eq!(find_member(&members, "zz"), 3);
        set_member(&mut members, "b".to_string(), text("new"));
        set_member(&mut members, "z".to_string(), text("last"));
        assert_eq!(members.len(), 4);
        assert_eq!(terminal_text(&members[1].1), "new");
        assert_eq!(members[3].0, "z");
    }
}

#[test]
fn documents_are_copied_whole() {
    let doc = vm();
    let copy = doc.clone();
    assert_eq!(extract_json_value(&copy, "VM.DISK[1].SIZE"), "20");
    assert_eq!(format!("{:?}", copy), format!("{:?}", doc));
    let copies = clone_items(&vec![doc, text("x")]);
    assert_eq!(copies.len(), 2);
    assert_eq!(terminal_text(&copies[1]), "x");
}
