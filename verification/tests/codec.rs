use tone::decode::{parse_response, parse_response_tokens, parse_value_content};
use tone::document::Document;
use tone::encode::build_method_call;
use tone::envelope::{interpret, interpret_response, xmlrpc_to_json};
use tone::error::ApiError;
use tone::extract::extract_json_value;
use tone::transcode::{merge_member, parse_one_xml_to_json, parse_one_xml_tokens};
use tone::value::{describe, XmlRpcResponse, XmlRpcValue};
use tone::xml::{tokenize, Markup, Token};

fn text(s: &str) -> Document {
    Document::Text(s.to_string())
}

fn object(members: Vec<(&str, Document)>) -> Document {
    Document::Object(members.into_iter().map(|(k, v)| (k.to_string(), v)).collect())
}

fn same(a: &Document, b: &Document) -> bool {
    match (a, b) {
        (Document::Null, Document::Null) => true,
        (Document::Bool(x), Document::Bool(y)) => x == y,
        (Document::Int(x), Document::Int(y)) => x == y,
        (Document::Real(x), Document::Real(y)) => x == y,
        (Document::Text(x), Document::Text(y)) => x == y,
        (Document::List(x), Document::List(y)) => {
            x.len() == y.len() && x.iter().zip(y.iter()).all(|(p, q)| same(p, q))
        }
        (Document::Object(x), Document::Object(y)) => {
            x.len() == y.len()
                && x.iter().zip(y.iter()).all(|((k, p), (l, q))| k == l && same(p, q))
        }
        _ => false,
    }
}

fn same_value(a: &XmlRpcValue, b: &XmlRpcValue) -> bool {
    match (a, b) {
        (XmlRpcValue::String(x), XmlRpcValue::String(y)) => x == y,
        (XmlRpcValue::Int(x), XmlRpcValue::Int(y)) => x == y,
        (XmlRpcValue::Boolean(x), XmlRpcValue::Boolean(y)) => x == y,
        (XmlRpcValue::Double(x), XmlRpcValue::Double(y)) => x == y,
        (XmlRpcValue::Array(x), XmlRpcValue::Array(y)) => {
            x.len() == y.len() && x.iter().zip(y.iter()).all(|(p, q)| same_value(p, q))
        }
        (XmlRpcValue::Struct(x), XmlRpcValue::Struct(y)) => {
            x.len() == y.len()
                && x.iter().zip(y.iter()).all(|((k, p), (l, q))| k == l && same_value(p, q))
        }
        _ => false,
    }
}

fn success(xml: &str) -> XmlRpcValue {
    match parse_response(xml) {
        Ok(XmlRpcResponse::Success(value)) => value,
        other => panic!("no success: {:?}", other),
    }
}

fn response(value: &str) -> String {
    format!(
        "<?xml version=\"1.0\"?>\n<methodResponse>\n  <params>\n    <param>\n      {}\n    </param>\n  </params>\n</methodResponse>\n",
        value
    )
}

#[test]
fn test_build_method_call() {
    let params = vec![
        XmlRpcValue::String("user:password".to_string()),
        XmlRpcValue::Int(-2),
        XmlRpcValue::Int(-1),
        XmlRpcValue::Int(-1),
    ];
    let xml = build_method_call("one.vmpool.info", &params);
    assert!(xml.contains("one.vmpool.info"));
    assert!(xml.contains("user:password"));
}

#[test]
fn test_parse_one_xml() {
    let xml = r#"<VM><ID>123</ID><NAME>test-vm</NAME></VM>"#;
    let json = parse_one_xml_to_json(xml).unwrap();
    assert_eq!(extract_json_value(&json, "VM.ID"), "123");
    assert_eq!(extract_json_value(&json, "VM.NAME"), "test-vm");
    assert!(same(
        &json,
        &object(vec![("VM", object(vec![("ID", text("123")), ("NAME", text("test-vm"))]))])
    ));
}

#[test]
fn method_call_text_is_exact() {
    let params = vec![
        XmlRpcValue::String("user:password".to_string()),
        XmlRpcValue::Int(-2),
        XmlRpcValue::Boolean(true),
        XmlRpcValue::Boolean(false),
        XmlRpcValue::Double("1.5".to_string()),
    ];
    assert_eq!(
        build_method_call("one.vmpool.info", &params),
        "<?xml version=\"1.0\"?><methodCall><methodName>one.vmpool.info</methodName><params>\
         <param><value><string>user:password</string></value></param>\
         <param><value><int>-2</int></value></param>\
         <param><value><boolean>1</boolean></value></param>\
         <param><value><boolean>0</boolean></value></param>\
         <param><value><double>1.5</double></value></param>\
         </params></methodCall>"
    );
}

#[test]
fn method_call_without_params() {
    assert_eq!(
        build_method_call("one.hostpool.info", &Vec::new()),
        "<?xml version=\"1.0\"?><methodCall><methodName>one.hostpool.info</methodName><params></params></methodCall>"
    );
}

#[test]
fn method_call_escapes_text() {
    let params = vec![XmlRpcValue::String("a<b>&\"c'".to_string())];
    let xml = build_method_call("m&m", &params);
    assert!(xml.contains("<methodName>m&amp;m</methodName>"));
    assert!(xml.contains("<string>a&lt;b&gt;&amp;&quot;c&apos;</string>"));
}

#[test]
fn method_call_with_compound_values() {
    let params = vec![
        XmlRpcValue::Array(vec![XmlRpcValue::Int(1), XmlRpcValue::Array(Vec::new())]),
        XmlRpcValue::Struct(vec![
            ("a".to_string(), XmlRpcValue::Int(i32::MIN)),
            ("b<".to_string(), XmlRpcValue::String(String::new())),
        ]),
    ];
    assert_eq!(
        build_method_call("m", &params),
        "<?xml version=\"1.0\"?><methodCall><methodName>m</methodName><params>\
         <param><value><array><data><value><int>1</int></value>\
         <value><array><data></data></array></value></data></array></value></param>\
         <param><value><struct>\
         <member><name>a</name><value><int>-2147483648</int></value></member>\
         <member><name>b&lt;</name><value><string></string></value></member>\
         </struct></value></param>\
         </params></methodCall>"
    );
}

#[test]
fn markup_is_put_together_piece_by_piece() {
    let mut markup = Markup::new();
    markup.declare();
    markup.open("a");
    markup.put("1 < 2");
    markup.element("b", "x & y");
    markup.close("a");
    assert_eq!(
        markup.finish(),
        "<?xml version=\"1.0\"?><a>1 &lt; 2<b>x &amp; y</b></a>"
    );
    assert_eq!(Markup::new().finish(), "");
}

#[test]
fn round_trip_of_leaves() {
    let leaves = vec![
        XmlRpcValue::String("a<b>&\"c' d".to_string()),
        XmlRpcValue::String(" x ".to_string()),
        XmlRpcValue::String("\n\ttwo  lines\n".to_string()),
        XmlRpcValue::String(" ".to_string()),
        XmlRpcValue::String(String::new()),
        XmlRpcValue::Int(-42),
        XmlRpcValue::Int(i32::MAX),
        XmlRpcValue::Boolean(true),
        XmlRpcValue::Boolean(false),
        XmlRpcValue::Double("-3.25".to_string()),
    ];
    for leaf in leaves {
        let xml = build_method_call("m", &vec![leaf.clone()]);
        let back = success(&xml);
        assert!(same_value(&back, &leaf), "{:?} came back as {:?}", leaf, back);
    }
}

#[test]
fn round_trip_of_compound_values() {
    let value = XmlRpcValue::Struct(vec![
        ("list".to_string(), XmlRpcValue::Array(vec![
            XmlRpcValue::Int(1),
            XmlRpcValue::String("two".to_string()),
            XmlRpcValue::Array(Vec::new()),
        ])),
        ("inner".to_string(), XmlRpcValue::Struct(vec![
            ("flag".to_string(), XmlRpcValue::Boolean(true)),
        ])),
    ]);
    let back = success(&build_method_call("m", &vec![value.clone()]));
    assert!(same_value(&back, &value), "{:?}", back);
}

#[test]
fn tokens_of_a_document() {
    let tokens =
        tokenize("<?xml version=\"1.0\"?>\n<a x=\"1\"> hi &amp; bye <b/><!-- c --></a>", true);
    let shown: Vec<String> = tokens.iter().map(|t| format!("{:?}", t)).collect();
    assert_eq!(
        shown,
        vec![
            "Other",
            "Start(\"a\")",
            "Text(\"hi & bye\")",
            "Empty(\"b\")",
            "Other",
            "End(\"a\")",
            "Eof",
        ]
    );
}

#[test]
fn tokens_with_white_space_left_in_place() {
    let tokens = tokenize("<a> hi &amp; bye <b/>\n</a>\n", false);
    let shown: Vec<String> = tokens.iter().map(|t| format!("{:?}", t)).collect();
    assert_eq!(
        shown,
        vec![
            "Start(\"a\")",
            "Text(\" hi & bye \")",
            "Empty(\"b\")",
            "Text(\"\\n\")",
            "End(\"a\")",
            "Text(\"\\n\")",
            "Eof",
        ]
    );
}

#[test]
fn tokens_end_at_the_first_error() {
    let tokens = tokenize("<a><b></a>", true);
    assert_eq!(tokens.len(), 3);
    assert!(matches!(tokens[0], Token::Start(_)));
    assert!(matches!(tokens[1], Token::Start(_)));
    assert!(matches!(tokens[2], Token::Malformed(_)));
    let empty = tokenize("", true);
    assert_eq!(empty.len(), 1);
    assert!(matches!(empty[0], Token::Eof));
    let blank = tokenize("  \n ", true);
    assert_eq!(blank.len(), 1);
    let kept = tokenize("  \n ", false);
    assert_eq!(kept.len(), 2);
    assert!(matches!(kept[1], Token::Eof));
}

#[test]
fn decode_typed_values() {
    assert!(same_value(
        &success(&response("<value><string>hello</string></value>")),
        &XmlRpcValue::String("hello".to_string())
    ));
    assert!(same_value(&success(&response("<value><int>7</int></value>")), &XmlRpcValue::Int(7)));
    assert!(same_value(&success(&response("<value><i4>-7</i4></value>")), &XmlRpcValue::Int(-7)));
    assert!(same_value(
        &success(&response("<value><boolean>1</boolean></value>")),
        &XmlRpcValue::Boolean(true)
    ));
    assert!(same_value(
        &success(&response("<value><boolean>TRUE</boolean></value>")),
        &XmlRpcValue::Boolean(true)
    ));
    assert!(same_value(
        &success(&response("<value><boolean>0</boolean></value>")),
        &XmlRpcValue::Boolean(false)
    ));
    assert!(same_value(
        &success(&response("<value><boolean>yes</boolean></value>")),
        &XmlRpcValue::Boolean(false)
    ));
    assert!(same_value(
        &success(&response("<value><double>2.50</double></value>")),
        &XmlRpcValue::Double("2.50".to_string())
    ));
}

#[test]
fn decode_is_tolerant() {
    // No type tag: a string.
    assert!(same_value(
        &success(&response("<value>plain</value>")),
        &XmlRpcValue::String("plain".to_string())
    ));
    // An unknown type tag: a string.
    assert!(same_value(
        &success(&response("<value><base64>eA==</base64></value>")),
        &XmlRpcValue::String("eA==".to_string())
    ));
    // An integer that cannot be read: zero.
    assert!(same_value(
        &success(&response("<value><int>seven</int></value>")),
        &XmlRpcValue::Int(0)
    ));
    assert!(same_value(
        &success(&response("<value><int>2147483648</int></value>")),
        &XmlRpcValue::Int(0)
    ));
    assert!(same_value(&success(&response("<value><int></int></value>")), &XmlRpcValue::Int(0)));
    assert!(same_value(
        &success(&response("<value><int>+12</int></value>")),
        &XmlRpcValue::Int(12)
    ));
    // A double that cannot be read: zero.
    for text in ["much", "1,5", "1e", "0x10", "--1"] {
        assert!(same_value(
            &success(&response(&format!("<value><double>{}</double></value>", text))),
            &XmlRpcValue::Double("0".to_string())
        ));
    }
    assert!(same_value(
        &success(&response("<value><double></double></value>")),
        &XmlRpcValue::Double("0".to_string())
    ));
    for text in ["1", "-1.5", ".5", "5.", "1e-3", "-Infinity", "NaN", "+7E+2"] {
        assert!(same_value(
            &success(&response(&format!("<value><double>{}</double></value>", text))),
            &XmlRpcValue::Double(text.to_string())
        ));
    }
    // An empty value: the empty string.
    assert!(same_value(
        &success(&response("<value></value>")),
        &XmlRpcValue::String(String::new())
    ));
}

#[test]
fn decode_array_and_struct() {
    let xml = response(
        "<value><array><data>\n<value><boolean>1</boolean></value>\n<value><string>&lt;VM&gt;</string></value>\n<value><int>0</int></value>\n</data></array></value>",
    );
    assert!(same_value(
        &success(&xml),
        &XmlRpcValue::Array(vec![
            XmlRpcValue::Boolean(true),
            XmlRpcValue::String("<VM>".to_string()),
            XmlRpcValue::Int(0),
        ])
    ));
    let xml = response(
        "<value><struct><member><name>b</name><value><int>2</int></value></member><member><name>a</name><value>x</value></member></struct></value>",
    );
    assert!(same_value(
        &success(&xml),
        &XmlRpcValue::Struct(vec![
            ("b".to_string(), XmlRpcValue::Int(2)),
            ("a".to_string(), XmlRpcValue::String("x".to_string())),
        ])
    ));
}

#[test]
fn decode_fault() {
    let xml = "<methodResponse><fault><value><struct>\
               <member><name>faultCode</name><value><int>4</int></value></member>\
               <member><name>faultString</name><value><string>Too \"many\"</string></value></member>\
               </struct></value></fault></methodResponse>";
    let parsed = parse_response(xml).unwrap();
    assert!(!parsed.is_success());
    let fault = parsed.into_value().unwrap_err();
    assert!(same_value(
        &fault,
        &XmlRpcValue::Struct(vec![
            ("faultCode".to_string(), XmlRpcValue::Int(4)),
            ("faultString".to_string(), XmlRpcValue::String("Too \"many\"".to_string())),
        ])
    ));
    assert_eq!(
        describe(&fault),
        "Struct([(\"faultCode\", Int(4)), (\"faultString\", String(\"Too \\\"many\\\"\"))])"
    );
    assert_eq!(
        ApiError::Fault(fault).message(),
        "XML-RPC fault: Struct([(\"faultCode\", Int(4)), (\"faultString\", String(\"Too \\\"many\\\"\"))])"
    );
}

#[test]
fn describe_values() {
    assert_eq!(describe(&XmlRpcValue::Boolean(true)), "Boolean(true)");
    assert_eq!(describe(&XmlRpcValue::Double("1.5".to_string())), "Double(1.5)");
    assert_eq!(describe(&XmlRpcValue::Array(Vec::new())), "Array([])");
    assert_eq!(
        describe(&XmlRpcValue::Array(vec![XmlRpcValue::Int(-1), XmlRpcValue::Int(2)])),
        "Array([Int(-1), Int(2)])"
    );
    assert_eq!(describe(&XmlRpcValue::Struct(Vec::new())), "Struct([])");
}

#[test]
fn success_is_success() {
    let parsed = parse_response(&response("<value><int>1</int></value>")).unwrap();
    assert!(parsed.is_success());
    assert!(same_value(&parsed.into_value().unwrap(), &XmlRpcValue::Int(1)));
}

#[test]
fn decode_without_payload_is_invalid() {
    assert!(matches!(parse_response(""), Err(ApiError::InvalidResponse)));
    assert!(matches!(
        parse_response("<methodResponse></methodResponse>"),
        Err(ApiError::InvalidResponse)
    ));
    // A value outside any section does not count.
    assert!(matches!(
        parse_response("<methodResponse><value>1</value></methodResponse>"),
        Err(ApiError::InvalidResponse)
    ));
    assert_eq!(ApiError::InvalidResponse.message(), "Invalid XML-RPC response");
}

#[test]
fn decode_malformed_input_fails() {
    let result = parse_response("<methodResponse><params><param><value><int>1</wrong>");
    match result {
        Err(ApiError::Malformed(message)) => {
            assert!(!message.is_empty());
            assert!(ApiError::Malformed(message.clone())
                .message()
                .starts_with("XML parsing error: "));
        }
        other => panic!("{:?}", other),
    }
    assert!(matches!(
        parse_response("<methodResponse><params></wrong>"),
        Err(ApiError::Malformed(_))
    ));
}

#[test]
fn decode_reads_the_document_to_its_end() {
    // What follows the value has to be well-formed as well.
    let xml = "<methodResponse><params><param><value><int>1</int></value></param></oops>";
    assert!(matches!(parse_response(xml), Err(ApiError::Malformed(_))));
    for xml in [
        "<methodResponse><params><param><value><int>1</int></value>",
        "<methodResponse><params><param><value><int>1</int></value></param>",
        "<methodResponse><params><param><value><int>1</int></value></param></params>",
        "<methodResponse><params><param><value><int>1</int></value></param></params><more>",
        "<methodResponse><params>",
        "<methodResponse>",
    ] {
        match parse_response(xml) {
            Err(ApiError::Malformed(message)) => {
                assert_eq!(message, "document ends inside an element", "{}", xml)
            }
            other => panic!("{}: {:?}", xml, other),
        }
    }
    let xml = "<methodResponse><params><param><value><int>1</int></value></param></params></methodResponse>\n<!-- done -->\n";
    assert!(same_value(&success(xml), &XmlRpcValue::Int(1)));
    // Only the first value is read.
    let xml = "<methodResponse><params><param><value><int>1</int></value></param><param><value><int>2</int></value></param></params></methodResponse>";
    assert!(same_value(&success(xml), &XmlRpcValue::Int(1)));
}

#[test]
fn decode_takes_sections_at_the_top_level_only() {
    for xml in [
        "<params><param><value><int>1</int></value></param></params>",
        "<a><b><params><param><value><int>1</int></value></param></params></b></a>",
        "<a><b><fault><value><int>1</int></value></fault></b></a>",
        "<a><params/><value><int>1</int></value></a>",
        "<a><params></params><value><int>1</int></value></a>",
    ] {
        assert!(matches!(parse_response(xml), Err(ApiError::InvalidResponse)), "{}", xml);
    }
    let xml = "<a><params></params><fault><value>f</value></fault></a>";
    match parse_response(xml) {
        Ok(XmlRpcResponse::Fault(XmlRpcValue::String(s))) => assert_eq!(s, "f"),
        other => panic!("{:?}", other),
    }
}

#[test]
fn decode_value_that_the_document_cuts_short() {
    // quick_xml reports the end of input inside the value: that is malformed.
    let tokens = vec![
        Token::Start("methodResponse".to_string()),
        Token::Start("params".to_string()),
        Token::Start("value".to_string()),
        Token::Text("ab".to_string()),
        Token::Eof,
    ];
    match parse_response_tokens(&tokens) {
        Err(ApiError::Malformed(message)) => assert_eq!(message, "document ends inside a value"),
        other => panic!("{:?}", other),
    }
    assert!(matches!(parse_value_content(&tokens, 3), Err(ApiError::Malformed(_))));
    assert!(matches!(parse_value_content(&tokens, 9), Err(ApiError::Malformed(_))));
    assert!(matches!(parse_value_content(&Vec::new(), 0), Err(ApiError::Malformed(_))));
    for xml in [
        "<methodResponse><params><param><value><string>abc",
        "<methodResponse><params><param><value><string>abc</string>",
        "<methodResponse><params><param><value>",
        "<methodResponse><params><param><value><array><data><value><int>1</int></value>",
        "<methodResponse><fault><value><struct><member><name>faultCode</name>",
    ] {
        match parse_response(xml) {
            Err(ApiError::Malformed(message)) => {
                assert_eq!(message, "document ends inside a value", "{}", xml)
            }
            other => panic!("{}: {:?}", xml, other),
        }
        assert!(matches!(interpret_response(xml), Err(ApiError::Malformed(_))));
    }
}

#[test]
fn decode_takes_character_data_inside_the_type_element_only() {
    let xml = "<methodResponse>\n <params>\n  <param>\n   <value>\n    <string> a b </string>\n   </value>\n  </param>\n </params>\n</methodResponse>\n";
    assert!(same_value(&success(xml), &XmlRpcValue::String(" a b ".to_string())));
    let xml = response("<value>\n<array>\n<data>\n<value> <int>1</int> </value>\n<value> bare </value>\n</data>\n</array>\n</value>");
    assert!(same_value(
        &success(&xml),
        &XmlRpcValue::Array(vec![XmlRpcValue::Int(1), XmlRpcValue::String(" bare ".to_string())])
    ));
    let xml = response("<value><struct>\n<member>\n<name> k </name>\n<value><string></string></value>\n</member>\n</struct></value>");
    assert!(same_value(
        &success(&xml),
        &XmlRpcValue::Struct(vec![(" k ".to_string(), XmlRpcValue::String(String::new()))])
    ));
    // Numbers are read without the white space around them.
    assert!(same_value(&success(&response("<value><int> 7\n</int></value>")), &XmlRpcValue::Int(7)));
    assert!(same_value(
        &success(&response("<value><boolean> true </boolean></value>")),
        &XmlRpcValue::Boolean(true)
    ));
    assert!(same_value(
        &success(&response("<value><double> 1.5 </double></value>")),
        &XmlRpcValue::Double("1.5".to_string())
    ));
}

#[test]
fn decode_tokens_by_hand() {
    let tokens = vec![
        Token::Other,
        Token::Start("methodResponse".to_string()),
        Token::Text("\n".to_string()),
        Token::Start("fault".to_string()),
        Token::Start("value".to_string()),
        Token::Start("struct".to_string()),
        Token::Start("member".to_string()),
        Token::Start("name".to_string()),
        Token::Text("k".to_string()),
        Token::End("name".to_string()),
        Token::Start("value".to_string()),
        Token::Start("value".to_string()),
        Token::Text("v".to_string()),
        Token::End("value".to_string()),
        Token::End("value".to_string()),
        Token::End("member".to_string()),
        Token::End("struct".to_string()),
        Token::End("value".to_string()),
        Token::End("fault".to_string()),
        Token::End("methodResponse".to_string()),
        Token::Eof,
    ];
    match parse_response_tokens(&tokens) {
        Ok(XmlRpcResponse::Fault(value)) => assert!(same_value(
            &value,
            &XmlRpcValue::Struct(vec![("k".to_string(), XmlRpcValue::String("v".to_string()))])
        )),
        other => panic!("{:?}", other),
    }
    match parse_value_content(&tokens, 5) {
        Ok((_, next)) => assert_eq!(next, 18),
        other => panic!("{:?}", other),
    }
    let mut late = tokens;
    late[19] = Token::Malformed("late".to_string());
    match parse_response_tokens(&late) {
        Err(ApiError::Malformed(message)) => assert_eq!(message, "late"),
        other => panic!("{:?}", other),
    }
    late[19] = Token::End("methodResponse".to_string());
    late[20] = Token::End("more".to_string());
    match parse_response_tokens(&late) {
        Err(ApiError::Malformed(message)) => assert_eq!(message, "closing tag without an element"),
        other => panic!("{:?}", other),
    }
    assert!(matches!(
        parse_response_tokens(&vec![Token::Malformed("bad".to_string())]),
        Err(ApiError::Malformed(_))
    ));
    assert!(matches!(
        parse_response_tokens(&vec![Token::End("a".to_string())]),
        Err(ApiError::Malformed(_))
    ));
    assert!(matches!(parse_response_tokens(&Vec::new()), Err(ApiError::InvalidResponse)));
}

#[test]
fn transcode_repeated_siblings_make_a_list_in_order() {
    let json = parse_one_xml_to_json(
        "<VM_POOL><VM><ID>1</ID></VM><VM><ID>2</ID></VM><N>x</N><VM><ID>3</ID></VM></VM_POOL>",
    )
    .unwrap();
    assert!(same(
        &json,
        &object(vec![(
            "VM_POOL",
            object(vec![
                (
                    "VM",
                    Document::List(vec![
                        object(vec![("ID", text("1"))]),
                        object(vec![("ID", text("2"))]),
                        object(vec![("ID", text("3"))]),
                    ])
                ),
                ("N", text("x")),
            ])
        )])
    ));
}

#[test]
fn transcode_leaves() {
    let json = parse_one_xml_to_json("<A><E/><T>  two words </T><O></O><E2 x=\"1\"/></A>").unwrap();
    assert!(same(
        &json,
        &object(vec![(
            "A",
            object(vec![
                ("E", Document::Null),
                ("T", text("two words")),
                ("O", object(Vec::new())),
                ("E2", Document::Null),
            ])
        )])
    ));
    assert!(same(&parse_one_xml_to_json("").unwrap(), &object(Vec::new())));
    assert!(same(&parse_one_xml_to_json("just text").unwrap(), &text("just text")));
    assert!(same(
        &parse_one_xml_to_json("<A>a&lt;b<!-- c -->&#160;d </A>").unwrap(),
        &object(vec![("A", text("a<b\u{a0}d"))])
    ));
    // White space that the reader leaves in place is trimmed off the ends.
    assert!(same(
        &parse_one_xml_to_json("<A>&#160;x y&#32;</A>").unwrap(),
        &object(vec![("A", text("x y"))])
    ));
}

#[test]
fn transcode_self_closing_sibling_joins_the_others() {
    let json = parse_one_xml_to_json("<R><A>1</A><A/></R>").unwrap();
    assert!(same(
        &json,
        &object(vec![("R", object(vec![("A", Document::List(vec![text("1"), Document::Null]))]))])
    ));
    let json = parse_one_xml_to_json("<R><A/><A/><B/><A>2</A></R>").unwrap();
    assert!(same(
        &json,
        &object(vec![(
            "R",
            object(vec![
                ("A", Document::List(vec![Document::Null, Document::Null, text("2")])),
                ("B", Document::Null),
            ])
        )])
    ));
    let json = parse_one_xml_to_json("<A><X/><X>1</X></A>").unwrap();
    assert!(same(
        &json,
        &object(vec![("A", object(vec![("X", Document::List(vec![Document::Null, text("1")]))]))])
    ));
}

#[test]
fn transcode_text_beside_children_is_dropped_from_the_object() {
    let json = parse_one_xml_to_json("<A>t<B>1</B></A>").unwrap();
    assert!(same(&json, &object(vec![("A", object(vec![("B", text("1"))]))])));
}

#[test]
fn transcode_malformed_input_fails() {
    assert!(matches!(parse_one_xml_to_json("<A><B></A>"), Err(ApiError::Malformed(_))));
    assert!(matches!(parse_one_xml_to_json("<A"), Err(ApiError::Malformed(_))));
}

#[test]
fn transcode_unclosed_elements_are_malformed() {
    let tokens = vec![
        Token::Start("A".to_string()),
        Token::Start("B".to_string()),
        Token::Text("1".to_string()),
        Token::Eof,
    ];
    match parse_one_xml_tokens(&tokens) {
        Err(ApiError::Malformed(message)) => {
            assert_eq!(message, "document ends inside an element")
        }
        other => panic!("{:?}", other),
    }
    let tokens = vec![Token::Start("A".to_string())];
    assert!(matches!(parse_one_xml_tokens(&tokens), Err(ApiError::Malformed(_))));
    let tokens = vec![Token::Text("x".to_string()), Token::End("A".to_string()), Token::Other];
    match parse_one_xml_tokens(&tokens) {
        Err(ApiError::Malformed(message)) => assert_eq!(message, "closing tag without an element"),
        other => panic!("{:?}", other),
    }
    for xml in ["<VM><ID>7</ID>", "<VM>", "<VM><ID>7", "<A><B/>"] {
        assert!(matches!(parse_one_xml_to_json(xml), Err(ApiError::Malformed(_))), "{}", xml);
    }
    let value = XmlRpcValue::Array(vec![
        XmlRpcValue::Boolean(true),
        XmlRpcValue::String("<VM><ID>7</ID>".to_string()),
    ]);
    assert!(matches!(interpret(&value), Err(ApiError::Malformed(_))));
}

#[test]
fn merge_member_joins_by_name() {
    let mut members: Vec<(String, Document)> = Vec::new();
    merge_member(&mut members, "a".to_string(), text("1"));
    merge_member(&mut members, "b".to_string(), text("2"));
    merge_member(&mut members, "a".to_string(), text("3"));
    merge_member(&mut members, "a".to_string(), text("4"));
    assert!(same(
        &Document::Object(members),
        &object(vec![
            ("a", Document::List(vec![text("1"), text("3"), text("4")])),
            ("b", text("2")),
        ])
    ));
}

#[test]
fn coerce_values() {
    let value = XmlRpcValue::Struct(vec![
        ("a".to_string(), XmlRpcValue::Int(1)),
        ("b".to_string(), XmlRpcValue::Array(vec![
            XmlRpcValue::Boolean(true),
            XmlRpcValue::Double("0.5".to_string()),
            XmlRpcValue::String("<X/>".to_string()),
        ])),
        ("a".to_string(), XmlRpcValue::Int(2)),
    ]);
    assert!(same(
        &xmlrpc_to_json(&value),
        &object(vec![
            ("a", Document::Int(2)),
            (
                "b",
                Document::List(vec![
                    Document::Bool(true),
                    Document::Real("0.5".to_string()),
                    text("<X/>"),
                ])
            ),
        ])
    ));
}

#[test]
fn envelope_with_embedded_document() {
    let value = XmlRpcValue::Array(vec![
        XmlRpcValue::Boolean(true),
        XmlRpcValue::String("<VM><ID>7</ID><NAME>web1</NAME></VM>".to_string()),
    ]);
    let doc = interpret(&value).unwrap();
    assert!(same(
        &doc,
        &object(vec![("VM", object(vec![("ID", text("7")), ("NAME", text("web1"))]))])
    ));
    assert_eq!(extract_json_value(&doc, "VM.NAME"), "web1");
}

#[test]
fn envelope_failure_carries_the_message() {
    let value = XmlRpcValue::Array(vec![
        XmlRpcValue::Boolean(false),
        XmlRpcValue::String("[one.vm.info] Error getting virtual machine [9].".to_string()),
        XmlRpcValue::Int(1024),
    ]);
    match interpret(&value) {
        Err(ApiError::Remote(message)) => {
            assert_eq!(message, "[one.vm.info] Error getting virtual machine [9].");
            assert_eq!(
                ApiError::Remote(message).message(),
                "OpenNebula API error: [one.vm.info] Error getting virtual machine [9]."
            );
        }
        other => panic!("{:?}", other),
    }
    let value = XmlRpcValue::Array(vec![XmlRpcValue::Boolean(false), XmlRpcValue::Int(3)]);
    match interpret(&value) {
        Err(ApiError::Remote(message)) => assert_eq!(message, "Unknown error"),
        other => panic!("{:?}", other),
    }
}

#[test]
fn envelope_with_other_data() {
    let value = XmlRpcValue::Array(vec![
        XmlRpcValue::Boolean(true),
        XmlRpcValue::Int(42),
        XmlRpcValue::Int(0),
    ]);
    assert!(same(&interpret(&value).unwrap(), &Document::Int(42)));
    // Anything but `false` counts as success.
    let value = XmlRpcValue::Array(vec![XmlRpcValue::Int(0), XmlRpcValue::Boolean(false)]);
    assert!(same(&interpret(&value).unwrap(), &Document::Bool(false)));
    let value = XmlRpcValue::Array(vec![
        XmlRpcValue::Boolean(true),
        XmlRpcValue::Struct(vec![("k".to_string(), XmlRpcValue::Int(1))]),
    ]);
    assert!(same(&interpret(&value).unwrap(), &object(vec![("k", Document::Int(1))])));
}

#[test]
fn values_that_are_no_envelope_are_coerced() {
    let one = XmlRpcValue::Array(vec![XmlRpcValue::String("<A/>".to_string())]);
    assert!(same(&interpret(&one).unwrap(), &Document::List(vec![text("<A/>")])));
    let four = XmlRpcValue::Array(vec![
        XmlRpcValue::Boolean(false),
        XmlRpcValue::String("x".to_string()),
        XmlRpcValue::Int(1),
        XmlRpcValue::Int(2),
    ]);
    assert!(same(
        &interpret(&four).unwrap(),
        &Document::List(vec![
            Document::Bool(false),
            text("x"),
            Document::Int(1),
            Document::Int(2)
        ])
    ));
    assert!(same(&interpret(&XmlRpcValue::Array(Vec::new())).unwrap(), &Document::List(Vec::new())));
    assert!(same(
        &interpret(&XmlRpcValue::String("<A/>".to_string())).unwrap(),
        &text("<A/>")
    ));
}

#[test]
fn envelope_with_malformed_payload_fails() {
    let value = XmlRpcValue::Array(vec![
        XmlRpcValue::Boolean(true),
        XmlRpcValue::String("<VM><ID></VM>".to_string()),
    ]);
    assert!(matches!(interpret(&value), Err(ApiError::Malformed(_))));
}

#[test]
fn response_text_to_document() {
    let body = response(
        "<value><array><data><value><boolean>1</boolean></value>\
         <value><string>&lt;VM&gt;&lt;ID&gt;7&lt;/ID&gt;&lt;NAME&gt;web1&lt;/NAME&gt;&lt;/VM&gt;</string></value>\
         <value><i4>0</i4></value></data></array></value>",
    );
    let doc = interpret_response(&body).unwrap();
    assert!(same(
        &doc,
        &object(vec![("VM", object(vec![("ID", text("7")), ("NAME", text("web1"))]))])
    ));
    assert_eq!(extract_json_value(&doc, "VM.NAME"), "web1");

    let fault = "<methodResponse><fault><value><string>no</string></value></fault></methodResponse>";
    assert!(matches!(interpret_response(fault), Err(ApiError::Fault(_))));
    assert!(matches!(interpret_response("<a></a>"), Err(ApiError::InvalidResponse)));
    assert!(matches!(interpret_response("<a>"), Err(ApiError::Malformed(_))));
    assert!(matches!(interpret_response("<a></b>"), Err(ApiError::Malformed(_))));
}
