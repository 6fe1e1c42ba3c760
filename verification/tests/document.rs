use oscquery::json::{parse_json, Json, JsonNumber};
use oscquery::node::{Contents, NodeData, OSCQueryNode, OSCQueryValue, TypedValue};
use oscquery::OQError;

fn quoted(s: &str) -> Json {
    Json::String(s.to_string())
}

fn integer(i: i64) -> Json {
    Json::Number(JsonNumber { integer: Some(i), bits: (i as f64).to_bits() })
}

fn fraction(x: f64) -> Json {
    Json::Number(JsonNumber { integer: None, bits: x.to_bits() })
}

fn record(entries: Vec<(&str, Json)>) -> Json {
    Json::Object(entries.into_iter().map(|(k, v)| (k.to_string(), v)).collect())
}

fn leaf_json(path: &str) -> Json {
    record(vec![("FULL_PATH", quoted(path)), ("ACCESS", integer(1)), ("TYPE", quoted("f"))])
}

#[test]
fn a_leaf_is_read_field_by_field() {
    let json = record(vec![
        ("DESCRIPTION", quoted("a knob")),
        ("FULL_PATH", quoted("/knob")),
        ("ACCESS", integer(3)),
        ("TYPE", quoted("f")),
        ("VALUE", Json::Array(vec![fraction(0.5)])),
        ("RANGE", Json::Array(vec![])),
    ]);
    assert_eq!(
        OSCQueryNode::from_json(&json),
        Ok(OSCQueryNode {
            full_path: "/knob".to_string(),
            access: 3,
            description: Some("a knob".to_string()),
            data: NodeData::Leaf(TypedValue {
                _type: "f".to_string(),
                value: Some(vec![OSCQueryValue::FLOAT(0.5f64.to_bits())]),
            }),
        })
    );
}

#[test]
fn a_container_is_read_with_its_children_in_order() {
    let json = record(vec![
        ("FULL_PATH", quoted("/")),
        ("ACCESS", integer(0)),
        ("CONTENTS", record(vec![("b", leaf_json("/b")), ("a", leaf_json("/a"))])),
    ]);
    let node = OSCQueryNode::from_json(&json).unwrap();
    assert_eq!(node.full_path, "/");
    assert_eq!(node.access, 0);
    assert_eq!(node.description, None);
    match node.data {
        NodeData::Internal(Contents { contents }) => {
            let names: Vec<&str> = contents.iter().map(|(k, _)| k.as_str()).collect();
            assert_eq!(names, vec!["b", "a"]);
            assert_eq!(contents[0].1.full_path, "/b");
            assert_eq!(contents[1].1.full_path, "/a");
        }
        NodeData::Leaf(_) => panic!("a container was expected"),
    }
}

#[test]
fn both_contents_and_type_is_malformed() {
    let json = record(vec![
        ("FULL_PATH", quoted("/")),
        ("ACCESS", integer(0)),
        ("CONTENTS", record(vec![])),
        ("TYPE", quoted("f")),
    ]);
    assert_eq!(OSCQueryNode::from_json(&json), Err(OQError::MalformedDocument));
    assert_eq!(
        OSCQueryNode::parse(r#"{"FULL_PATH":"/","ACCESS":0,"CONTENTS":{},"TYPE":"f"}"#),
        Err(OQError::MalformedDocument)
    );
}

#[test]
fn neither_contents_nor_type_is_malformed() {
    let json = record(vec![("FULL_PATH", quoted("/")), ("ACCESS", integer(0))]);
    assert_eq!(OSCQueryNode::from_json(&json), Err(OQError::MalformedDocument));
    assert_eq!(
        OSCQueryNode::parse(r#"{"FULL_PATH":"/","ACCESS":0}"#),
        Err(OQError::MalformedDocument)
    );
    assert_eq!(
        OSCQueryNode::parse(r#"{"FULL_PATH":"/","ACCESS":0,"VALUE":[1]}"#),
        Err(OQError::MalformedDocument)
    );
}

#[test]
fn a_malformed_node_at_any_depth_spoils_the_document() {
    let document = r#"{"FULL_PATH":"/","ACCESS":0,"CONTENTS":{
        "a":{"FULL_PATH":"/a","ACCESS":0,"CONTENTS":{
            "b":{"FULL_PATH":"/a/b","ACCESS":0,"CONTENTS":{},"TYPE":"i"}}}}}"#;
    assert_eq!(OSCQueryNode::parse(document), Err(OQError::MalformedDocument));
    let document = r#"{"FULL_PATH":"/","ACCESS":0,"CONTENTS":{
        "a":{"FULL_PATH":"/a","ACCESS":0,"CONTENTS":{
            "b":{"FULL_PATH":"/a/b","ACCESS":0}}}}}"#;
    assert_eq!(OSCQueryNode::parse(document), Err(OQError::MalformedDocument));
}

#[test]
fn a_root_that_is_no_object_is_malformed() {
    for document in ["null", "[]", "3", "\"/\"", "true"] {
        assert_eq!(OSCQueryNode::parse(document), Err(OQError::MalformedDocument));
    }
    assert_eq!(OSCQueryNode::from_json(&Json::Null), Err(OQError::MalformedDocument));
}

#[test]
fn path_and_access_must_be_there() {
    assert_eq!(
        OSCQueryNode::parse(r#"{"ACCESS":0,"TYPE":"f"}"#),
        Err(OQError::MalformedDocument)
    );
    assert_eq!(
        OSCQueryNode::parse(r#"{"FULL_PATH":"/a","TYPE":"f"}"#),
        Err(OQError::MalformedDocument)
    );
    assert_eq!(
        OSCQueryNode::parse(r#"{"FULL_PATH":7,"ACCESS":0,"TYPE":"f"}"#),
        Err(OQError::MalformedDocument)
    );
}

#[test]
fn access_is_an_integer_of_eight_bits() {
    let with_access = |access: &str| {
        OSCQueryNode::parse(&format!(r#"{{"FULL_PATH":"/a","ACCESS":{},"TYPE":"f"}}"#, access))
            .map(|node| node.access)
    };
    assert_eq!(with_access("0"), Ok(0));
    assert_eq!(with_access("3"), Ok(3));
    assert_eq!(with_access("127"), Ok(127));
    assert_eq!(with_access("-128"), Ok(-128));
    assert_eq!(with_access("128"), Err(OQError::MalformedDocument));
    assert_eq!(with_access("-129"), Err(OQError::MalformedDocument));
    assert_eq!(with_access("1.0"), Err(OQError::MalformedDocument));
    assert_eq!(with_access("\"1\""), Err(OQError::MalformedDocument));
    assert_eq!(with_access("null"), Err(OQError::MalformedDocument));
}

#[test]
fn the_description_may_be_missing_or_null() {
    let described = |member: &str| {
        OSCQueryNode::parse(&format!(r#"{{"FULL_PATH":"/a","ACCESS":1,"TYPE":"f"{}}}"#, member))
            .map(|node| node.description)
    };
    assert_eq!(described(""), Ok(None));
    assert_eq!(described(r#","DESCRIPTION":null"#), Ok(None));
    assert_eq!(described(r#","DESCRIPTION":"x""#), Ok(Some("x".to_string())));
    assert_eq!(described(r#","DESCRIPTION":5"#), Err(OQError::MalformedDocument));
}

#[test]
fn values_are_told_apart_by_their_shape() {
    assert_eq!(OSCQueryValue::from_json(&Json::Bool(true)), Some(OSCQueryValue::BOOLEAN(true)));
    assert_eq!(OSCQueryValue::from_json(&integer(7)), Some(OSCQueryValue::INT(7)));
    assert_eq!(OSCQueryValue::from_json(&integer(-2147483648)), Some(OSCQueryValue::INT(i32::MIN)));
    assert_eq!(OSCQueryValue::from_json(&integer(2147483647)), Some(OSCQueryValue::INT(i32::MAX)));
    assert_eq!(
        OSCQueryValue::from_json(&integer(2147483648)),
        Some(OSCQueryValue::FLOAT(2147483648f64.to_bits()))
    );
    assert_eq!(
        OSCQueryValue::from_json(&fraction(1.5)),
        Some(OSCQueryValue::FLOAT(0x3FF8_0000_0000_0000))
    );
    assert_eq!(
        OSCQueryValue::from_json(&quoted("hi")),
        Some(OSCQueryValue::STRING("hi".to_string()))
    );
    assert_eq!(
        OSCQueryValue::from_json(&record(vec![("a", integer(1)), ("b", integer(255))])),
        Some(OSCQueryValue::OBJECT(vec![("a".to_string(), 1), ("b".to_string(), 255)]))
    );
    assert_eq!(OSCQueryValue::from_json(&record(vec![("a", integer(256))])), None);
    assert_eq!(OSCQueryValue::from_json(&record(vec![("a", integer(-1))])), None);
    assert_eq!(OSCQueryValue::from_json(&record(vec![("a", fraction(1.0))])), None);
    assert_eq!(OSCQueryValue::from_json(&record(vec![("a", quoted("1"))])), None);
    assert_eq!(OSCQueryValue::from_json(&Json::Null), None);
    assert_eq!(OSCQueryValue::from_json(&Json::Array(vec![])), None);
}

#[test]
fn a_boolean_is_no_integer() {
    let node = OSCQueryNode::parse(
        r#"{"FULL_PATH":"/a","ACCESS":1,"TYPE":"TiFs","VALUE":[true,1,false,"1",1.0,{"k":1}]}"#,
    )
    .unwrap();
    assert_eq!(
        node.data,
        NodeData::Leaf(TypedValue {
            _type: "TiFs".to_string(),
            value: Some(vec![
                OSCQueryValue::BOOLEAN(true),
                OSCQueryValue::INT(1),
                OSCQueryValue::BOOLEAN(false),
                OSCQueryValue::STRING("1".to_string()),
                OSCQueryValue::FLOAT(1.0f64.to_bits()),
                OSCQueryValue::OBJECT(vec![("k".to_string(), 1)]),
            ]),
        })
    );
}

#[test]
fn the_values_of_a_leaf_may_be_missing_or_null() {
    let valued = |member: &str| {
        OSCQueryNode::parse(&format!(r#"{{"FULL_PATH":"/a","ACCESS":1,"TYPE":"f"{}}}"#, member))
            .map(|node| node.data)
    };
    let leaf = |value| Ok(NodeData::Leaf(TypedValue { _type: "f".to_string(), value }));
    assert_eq!(valued(""), leaf(None));
    assert_eq!(valued(r#","VALUE":null"#), leaf(None));
    assert_eq!(valued(r#","VALUE":[]"#), leaf(Some(vec![])));
    assert_eq!(valued(r#","VALUE":[null]"#), Err(OQError::MalformedDocument));
    assert_eq!(valued(r#","VALUE":[[1]]"#), Err(OQError::MalformedDocument));
    assert_eq!(valued(r#","VALUE":3"#), Err(OQError::MalformedDocument));
}

#[test]
fn the_type_tag_is_a_string_and_contents_an_object() {
    assert_eq!(
        OSCQueryNode::parse(r#"{"FULL_PATH":"/a","ACCESS":1,"TYPE":1}"#),
        Err(OQError::MalformedDocument)
    );
    assert_eq!(
        OSCQueryNode::parse(r#"{"FULL_PATH":"/a","ACCESS":1,"TYPE":null}"#),
        Err(OQError::MalformedDocument)
    );
    assert_eq!(
        OSCQueryNode::parse(r#"{"FULL_PATH":"/a","ACCESS":1,"CONTENTS":[]}"#),
        Err(OQError::MalformedDocument)
    );
    assert_eq!(
        OSCQueryNode::parse(r#"{"FULL_PATH":"/a","ACCESS":1,"CONTENTS":null}"#),
        Err(OQError::MalformedDocument)
    );
}

#[test]
fn members_under_other_names_are_passed_over() {
    let node = OSCQueryNode::parse(
        r#"{"FULL_PATH":"/a","ACCESS":1,"TYPE":"f","RANGE":[{"MIN":0,"MAX":1}],"full_path":"/b"}"#,
    )
    .unwrap();
    assert_eq!(node.full_path, "/a");
}

#[test]
fn parse_json_takes_the_document_apart() {
    let json = parse_json(r#"{"s":"a\"b","n":null,"t":true,"i":-3,"x":2.5,"l":[1,"2"],"o":{}}"#)
        .unwrap();
    let Json::Object(entries) = json else { panic!("an object was expected") };
    let get = |name: &str| entries.iter().find(|(k, _)| k == name).map(|(_, v)| v).unwrap();
    assert_eq!(entries.len(), 7);
    assert_eq!(get("s"), &quoted("a\"b"));
    assert_eq!(get("n"), &Json::Null);
    assert_eq!(get("t"), &Json::Bool(true));
    assert_eq!(get("i"), &integer(-3));
    assert_eq!(get("x"), &fraction(2.5));
    assert_eq!(get("l"), &Json::Array(vec![integer(1), quoted("2")]));
    assert_eq!(get("o"), &Json::Object(vec![]));
}

#[test]
fn parse_json_keeps_large_numbers_as_doubles() {
    assert_eq!(
        parse_json("18446744073709551615"),
        Some(Json::Number(JsonNumber {
            integer: None,
            bits: 18446744073709551615f64.to_bits()
        }))
    );
    assert_eq!(
        parse_json("9223372036854775807"),
        Some(Json::Number(JsonNumber {
            integer: Some(i64::MAX),
            bits: (i64::MAX as f64).to_bits()
        }))
    );
    assert_eq!(parse_json("1e2"), Some(fraction(100.0)));
}

#[test]
fn parse_json_refuses_what_is_no_json() {
    assert_eq!(parse_json(""), None);
    assert_eq!(parse_json("{\"a\":}"), None);
    assert_eq!(parse_json("[1,]"), None);
    assert_eq!(parse_json("nul"), None);
    assert_eq!(parse_json("1 2"), None);
}

#[test]
fn an_object_holds_each_key_once() {
    let json = parse_json(r#"{"a":1,"a":2}"#).unwrap();
    assert_eq!(json, record(vec![("a", integer(2))]));
}
