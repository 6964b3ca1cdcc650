use rru_common::events::RawEvent;
use rru_common::xmldoc::XmlDoc;
use rru_common::XmlError;

fn parsed(text: &str) -> XmlDoc {
    XmlDoc::parse(text).expect("document should parse")
}

#[test]
fn empty_element_self_closing() {
    let doc = parsed("<a/>");
    assert_eq!(doc.name(), "a");
    assert!(doc.value().is_none());
    assert!(doc.children().is_empty());
}

#[test]
fn empty_element_with_explicit_close() {
    let doc = parsed("<a></a>");
    assert_eq!(doc.name(), "a");
    assert!(doc.value().is_none());
    assert!(doc.children().is_empty());
}

#[test]
fn children_keep_document_order() {
    let doc = parsed("<a><b/><c/></a>");
    assert_eq!(doc.children().len(), 2);
    assert_eq!(doc.children()[0].name(), "b");
    assert_eq!(doc.children()[1].name(), "c");
}

#[test]
fn attribute_lookup_is_exact_match() {
    let doc = parsed("<a x=\"1\" y=\"2\"></a>");
    assert_eq!(doc.get_attrib("x").map(String::as_str), Some("1"));
    assert_eq!(doc.get_attrib("y").map(String::as_str), Some("2"));
    assert_eq!(doc.get_attrib("z"), None);
}

#[test]
fn get_child_returns_first_match_only() {
    let doc = parsed("<a><b>1</b><b>2</b></a>");
    let child = doc.get_child("b").expect("child should exist");
    assert_eq!(child.value().map(String::as_str), Some("1"));
    assert!(doc.get_child("missing").is_none());
}

#[test]
fn text_value_is_recorded() {
    let doc = parsed("<x>hello</x>");
    assert_eq!(doc.name(), "x");
    assert_eq!(doc.value().map(String::as_str), Some("hello"));
    assert!(doc.children().is_empty());
}

// The builder deliberately does not concatenate character data: each
// fragment that appears directly under one element overwrites the previous
// one, so only the last fragment is kept.
#[test]
fn later_text_fragment_overwrites_earlier_one() {
    let doc = parsed("<a>first<b/>second</a>");
    assert_eq!(doc.value().map(String::as_str), Some("second"));
    assert_eq!(doc.children().len(), 1);
    assert_eq!(doc.children()[0].name(), "b");
}

#[test]
fn truncated_document_fails() {
    assert!(XmlDoc::parse("<a><b></b>").is_err());
    assert!(XmlDoc::parse("<a>").is_err());
    assert!(XmlDoc::parse("").is_err());
}

#[test]
fn reparsing_yields_identical_tree() {
    let text = "<files><file name=\"n\" source=\"s\"><format>ROM</format></file></files>";
    let first = parsed(text);
    let second = parsed(text);
    assert_eq!(first, second);
    assert_eq!(first.name(), second.name());
    assert_eq!(first.value(), second.value());
    assert_eq!(first.children().len(), second.children().len());
    assert_eq!(
        first.children()[0].get_attrib("name"),
        second.children()[0].get_attrib("name"),
    );
}

#[test]
fn document_declaration_is_discarded() {
    let doc = parsed("<?xml version=\"1.0\" encoding=\"UTF-8\"?><a><b/></a>");
    assert_eq!(doc.name(), "a");
    assert_eq!(doc.children().len(), 1);
}

#[test]
fn nested_structure_is_preserved() {
    let doc = parsed("<a><b><c>deep</c></b></a>");
    let b = doc.get_child("b").expect("b should exist");
    let c = b.get_child("c").expect("c should exist");
    assert_eq!(c.value().map(String::as_str), Some("deep"));
    assert!(doc.get_child("c").is_none());
}

#[test]
fn whitespace_between_tags_is_ignored() {
    let doc = parsed("<a>\n  <b>1</b>\n  <c/>\n</a>");
    assert!(doc.value().is_none());
    assert_eq!(doc.children().len(), 2);
    assert_eq!(doc.children()[0].value().map(String::as_str), Some("1"));
}

#[test]
fn unsupported_event_kind_fails_the_parse() {
    assert_eq!(
        XmlDoc::parse("<a><![CDATA[raw]]></a>"),
        Err(XmlError::UnexpectedEvent),
    );
    assert_eq!(
        XmlDoc::parse("<a><?target data?></a>"),
        Err(XmlError::UnexpectedEvent),
    );
}

#[test]
fn new_node_has_name_and_attributes_only() {
    let doc = XmlDoc::new(
        "tag".to_string(),
        vec![("k".to_string(), "v".to_string())],
    );
    assert_eq!(doc.name(), "tag");
    assert_eq!(doc.get_attrib("k").map(String::as_str), Some("v"));
    assert!(doc.value().is_none());
    assert!(doc.children().is_empty());
}

// Attribute keys are unique per node: when the same key is set twice, the
// last occurrence wins.
#[test]
fn repeated_attribute_key_keeps_last_value() {
    let doc = XmlDoc::new(
        "tag".to_string(),
        vec![
            ("k".to_string(), "old".to_string()),
            ("other".to_string(), "x".to_string()),
            ("k".to_string(), "new".to_string()),
        ],
    );
    assert_eq!(doc.get_attrib("k").map(String::as_str), Some("new"));
    assert_eq!(doc.get_attrib("other").map(String::as_str), Some("x"));
}

#[test]
fn builder_reports_each_failure_kind() {
    // The stream ends with an element still open.
    let events = vec![
        RawEvent::StartDocument,
        RawEvent::StartElement { name: "a".to_string(), attributes: Vec::new() },
    ];
    assert_eq!(rru_common::xmldoc::build_document(events), Err(XmlError::UnexpectedEnd));

    // The tokenizer reported an error.
    let events = vec![
        RawEvent::StartElement { name: "a".to_string(), attributes: Vec::new() },
        RawEvent::Error,
    ];
    assert_eq!(rru_common::xmldoc::build_document(events), Err(XmlError::Tokenizer));

    // An unsupported event kind stands where an element body is expected.
    let events = vec![
        RawEvent::StartElement { name: "a".to_string(), attributes: Vec::new() },
        RawEvent::Other,
    ];
    assert_eq!(rru_common::xmldoc::build_document(events), Err(XmlError::UnexpectedEvent));

    // Character data before any element has opened.
    let events = vec![RawEvent::Characters("stray".to_string())];
    assert_eq!(rru_common::xmldoc::build_document(events), Err(XmlError::UnexpectedEvent));

    // An element close with no element open.
    let events = vec![RawEvent::EndElement];
    assert_eq!(rru_common::xmldoc::build_document(events), Err(XmlError::UnexpectedEvent));

    // An empty stream.
    assert_eq!(rru_common::xmldoc::build_document(Vec::new()), Err(XmlError::UnexpectedEnd));
}

#[test]
fn builder_trusts_balanced_closes() {
    // The builder does not check that a close matches the open tag by name:
    // it closes the innermost open element and moves on.
    let events = vec![
        RawEvent::StartDocument,
        RawEvent::StartElement { name: "outer".to_string(), attributes: Vec::new() },
        RawEvent::StartElement { name: "inner".to_string(), attributes: Vec::new() },
        RawEvent::Characters("text".to_string()),
        RawEvent::EndElement,
        RawEvent::EndElement,
    ];
    let doc = rru_common::xmldoc::build_document(events).expect("events should build");
    assert_eq!(doc.name(), "outer");
    assert_eq!(doc.children().len(), 1);
    assert_eq!(doc.children()[0].name(), "inner");
    assert_eq!(doc.children()[0].value().map(String::as_str), Some("text"));
}
