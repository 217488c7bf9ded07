use athenacl::xml_tools::{
    bytes_equal, check_file_format, decimal, element_name, entry_of, parse_error_message,
    xml_to_tree, XmlTree, XmlValue,
};

fn verdict(content: &str) -> (String, String) {
    let v = check_file_format(content);
    (v.format, v.message)
}

fn entries(tree: &XmlTree, i: usize) -> Vec<(String, String)> {
    tree.dicts[i]
        .entries
        .iter()
        .map(|(k, v)| {
            let v = match v {
                XmlValue::Text(t) => String::from_utf8(t.clone()).unwrap(),
                XmlValue::Dict(d) => format!("#{}", d),
            };
            (String::from_utf8(k.clone()).unwrap(), v)
        })
        .collect()
}

fn pair(k: &str, v: &str) -> (String, String) {
    (k.to_string(), v.to_string())
}

#[test]
fn athena_object_document_is_recognised() {
    assert_eq!(
        verdict("<?xml version=\"1.0\"?>\n<athenaObject><x/></athenaObject>"),
        pair("xml", "ok")
    );
    assert_eq!(verdict("<athenaObject>"), pair("xml", "ok"));
}

#[test]
fn other_documents_are_unknown() {
    assert_eq!(verdict("<other></other>"), pair("unknown", "error reading the file"));
    assert_eq!(verdict(""), pair("unknown", "error reading the file"));
    assert_eq!(verdict("plain text"), pair("unknown", "error reading the file"));
    // a read error ends the document, whose end is then reported
    assert_eq!(verdict("<a></b>"), pair("unknown", "error reading the file"));
}

#[test]
fn nested_elements_become_nested_dictionaries() {
    let doc = r#"<athenaObject name="ao">
        <pathInstance name="p1">
            <attr key="a" value="1"/>
            <attr key="b" value="2"/>
        </pathInstance>
        <textures/>
    </athenaObject>"#;
    let tree = xml_to_tree(doc).unwrap();
    assert_eq!(tree.dicts.len(), 3);
    assert_eq!(entries(&tree, 0), vec![pair("ao", "#1")]);
    assert_eq!(entries(&tree, 1), vec![pair("p1", "#2"), pair("", "")]);
    assert_eq!(entries(&tree, 2), vec![pair("a", "1"), pair("b", "2")]);
}

#[test]
fn later_entries_replace_earlier_ones_in_place() {
    let doc = r#"<r><e key="a" value="1"/><e key="b" value="x"/><e key="a" value="2"/></r>"#;
    let tree = xml_to_tree(doc).unwrap();
    assert_eq!(entries(&tree, 1), vec![pair("a", "2"), pair("b", "x")]);
}

#[test]
fn tag_names_stand_in_for_missing_name_attributes() {
    let tree = xml_to_tree("<outer><inner></inner></outer><second/>").unwrap();
    assert_eq!(entries(&tree, 0), vec![pair("outer", "#1")]);
    assert_eq!(entries(&tree, 1), vec![pair("inner", "#2")]);
    assert!(entries(&tree, 2).is_empty());
}

#[test]
fn malformed_documents_are_errors() {
    let err = xml_to_tree("<a></b>").unwrap_err();
    assert!(err.starts_with("Error parsing XML at "), "{}", err);
    assert!(xml_to_tree("").unwrap().dicts[0].entries.is_empty());
}

#[test]
fn attribute_lookups() {
    let attrs = vec![
        (b"name".to_vec(), b"first".to_vec()),
        (b"key".to_vec(), b"k1".to_vec()),
        (b"name".to_vec(), b"second".to_vec()),
        (b"key".to_vec(), b"k2".to_vec()),
    ];
    assert_eq!(element_name(b"tag".to_vec(), &attrs), b"first".to_vec());
    assert_eq!(element_name(b"tag".to_vec(), &Vec::new()), b"tag".to_vec());
    let (key, value) = entry_of(&attrs);
    assert_eq!(key, b"k2".to_vec());
    assert!(value.is_empty());
}

#[test]
fn numbers_and_messages() {
    assert_eq!(decimal(0), "0");
    assert_eq!(decimal(7), "7");
    assert_eq!(decimal(1234), "1234");
    assert_eq!(decimal(usize::MAX), usize::MAX.to_string());
    assert_eq!(parse_error_message(12, &"EndEventMismatch".to_string()), "Error parsing XML at 12: EndEventMismatch");
    assert!(bytes_equal(b"abc", b"abc"));
    assert!(!bytes_equal(b"abc", b"abd"));
    assert!(!bytes_equal(b"ab", b"abc"));
}
