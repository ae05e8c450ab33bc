use scripture_formats::attributes::AttributeMap;
use scripture_formats::attributes::Element;
use scripture_formats::builder::insert_attributes;
use scripture_formats::builder::node_attributes;
use scripture_formats::builder::reserved_key;
use scripture_formats::builder::AosjStringModel;
use scripture_formats::emit::write_quoted;
use scripture_formats::error::UsfmError;
use scripture_formats::markers::TagType;
use scripture_formats::token::Category;
use scripture_formats::token::Tag;
use scripture_formats::tree::text_of;
use scripture_formats::tree::Document;
use scripture_formats::tree::Item;
use scripture_formats::tree::Node;
use scripture_formats::tree::NodeKind;
use scripture_formats::usfm::do_end_tag;

fn attrs(pairs: &[(&str, &str)]) -> AttributeMap {
    let mut a = AttributeMap::new();
    for (k, v) in pairs {
        a.insert(k.to_string(), v.to_string());
    }
    a
}

fn tag(tag_type: TagType, name: &str) -> Tag {
    Tag {
        subclass: Category::EndTag,
        tag_name: name.to_string(),
        is_nested: false,
        tag_level: 1,
        full_tag_name: name.to_string(),
        tag_type,
    }
}

#[test]
fn attributes_keep_the_order_of_first_insertion_and_update_in_place() {
    let mut a = AttributeMap::new();
    assert!(a.is_empty());
    a.insert("number".to_string(), "1".to_string());
    a.insert("marker".to_string(), "c".to_string());
    a.insert("number".to_string(), "2".to_string());
    assert_eq!(a.len(), 2);
    assert_eq!(a.key_at(0), "number");
    assert_eq!(a.value_at(0), "2");
    assert_eq!(a.key_at(1), "marker");
    assert_eq!(a.get("marker"), Some("c".to_string()));
    assert_eq!(a.get("absent"), None);
    assert!(a.contains_key("number"));
    assert!(!a.contains_key("Number"));
    assert_eq!(a.position("marker"), 1);
    assert_eq!(a.position("absent"), 2);
    let b = a.copy();
    a.clear();
    assert_eq!(a.len(), 0);
    assert_eq!(b.len(), 2);
    assert_eq!(b.get("number"), Some("2".to_string()));
}

#[test]
fn an_element_holds_its_name_and_attributes() {
    let e = Element::new("para".to_string(), attrs(&[("style", "p")]));
    assert_eq!(e.tag_name, "para");
    assert_eq!(e.attributes.get("style"), Some("p".to_string()));
}

#[test]
fn node_attributes_drop_the_reserved_keys() {
    for key in ["type", "content", "marker", "sid", "vid", "eid", "style"] {
        assert!(reserved_key(key), "{}", key);
    }
    assert!(!reserved_key("number"));
    assert!(!reserved_key("default"));
    let kept = node_attributes(&attrs(&[("sid", "a"), ("x", "1"), ("marker", "p"), ("y", "2")]));
    assert_eq!(kept.len(), 2);
    assert_eq!(kept.key_at(0), "x");
    assert_eq!(kept.key_at(1), "y");
}

#[test]
fn insert_attributes_gives_each_pair_in_order() {
    let mut base = attrs(&[("a", "1"), ("b", "2")]);
    insert_attributes(&mut base, &attrs(&[("b", "3"), ("c", "4")]));
    assert_eq!(base.len(), 3);
    assert_eq!(base.get("b"), Some("3".to_string()));
    assert_eq!(base.key_at(2), "c");
}

#[test]
fn the_book_code_is_the_first_three_characters_of_its_line() {
    let mut m = AosjStringModel::new();
    m.start_book("id".to_string());
    let mut txt = "PSA The Psalms".to_string();
    m.add_string_to_in_para(&mut txt);
    m.end_book();
    assert_eq!(m.paras.len(), 1);
    assert_eq!(m.paras[0].kind, NodeKind::Book);
    assert_eq!(m.paras[0].attributes.get("code"), Some("PSA".to_string()));
    assert_eq!(m.paras[0].content.len(), 1);
    match &m.paras[0].content[0] {
        Item::Text(t) => assert_eq!(t, "The Psalms"),
        _ => panic!("expected a text"),
    }
}

#[test]
fn a_short_book_line_gives_a_code_and_no_text() {
    for (line, code) in [("PSA", "PSA"), ("PS", "PS"), ("", "")] {
        let mut m = AosjStringModel::new();
        m.start_book("id".to_string());
        let mut txt = line.to_string();
        m.add_string_to_in_para(&mut txt);
        m.end_book();
        assert_eq!(m.paras[0].attributes.get("code"), Some(code.to_string()));
        assert_eq!(m.paras[0].content.len(), 0);
    }
    let mut m = AosjStringModel::new();
    m.start_book("id".to_string());
    let mut txt = "PSA ".to_string();
    m.add_string_to_in_para(&mut txt);
    m.end_book();
    assert_eq!(m.paras[0].content.len(), 1);
}

#[test]
fn content_without_an_open_container_opens_a_paragraph() {
    let mut m = AosjStringModel::new();
    m.add_verse_to_in_para(attrs(&[("number", "1")]));
    assert!(m.current_para.is_some());
    let para = m.current_para.as_ref().unwrap();
    assert_eq!(para.marker, "");
    assert_eq!(para.kind, NodeKind::Para);
    assert_eq!(para.content.len(), 1);
}

#[test]
fn content_goes_into_the_innermost_open_container() {
    let mut m = AosjStringModel::new();
    m.start_new_para("p".to_string(), AttributeMap::new());
    m.start_add_note("f".to_string(), AttributeMap::new());
    m.start_add_char_marker("ft".to_string(), false, AttributeMap::new());
    m.add_milestone("ts".to_string(), AttributeMap::new());
    assert_eq!(m.char_marker_stack[0].content.len(), 1);
    assert_eq!(m.note_stack.as_ref().unwrap().content.len(), 0);
    m.close_char();
    assert_eq!(m.char_marker_stack.len(), 0);
    assert_eq!(m.note_stack.as_ref().unwrap().content.len(), 1);
    m.add_milestone("ts".to_string(), AttributeMap::new());
    assert_eq!(m.note_stack.as_ref().unwrap().content.len(), 2);
    m.close_note();
    assert!(m.note_stack.is_none());
    assert_eq!(m.current_para.as_ref().unwrap().content.len(), 1);
    m.end_new_para();
    assert_eq!(m.paras.len(), 1);
    assert!(m.current_para.is_none());
}

#[test]
fn closing_where_nothing_is_open_changes_nothing() {
    let mut m = AosjStringModel::new();
    let mut txt = "pending".to_string();
    m.end_add_char_marker(&mut txt);
    assert_eq!(txt, "pending");
    m.end_add_note(&mut txt);
    assert_eq!(txt, "pending");
    m.close_char();
    m.close_all_chars();
    m.close_note();
    m.end_new_para();
    assert_eq!(m.paras.len(), 0);
    assert!(m.current_para.is_none());
}

#[test]
fn do_end_tag_closes_what_the_type_of_the_tag_says() {
    let mut m = AosjStringModel::new();
    m.start_new_para("p".to_string(), AttributeMap::new());
    m.start_add_char_marker("bd".to_string(), false, AttributeMap::new());
    let mut txt = "bold".to_string();
    do_end_tag(&mut m, &tag(TagType::Note, "f"), &mut txt);
    assert_eq!(txt, "bold");
    assert_eq!(m.char_marker_stack.len(), 1);
    do_end_tag(&mut m, &tag(TagType::Character, "bd"), &mut txt);
    assert_eq!(txt, "");
    assert_eq!(m.char_marker_stack.len(), 0);
    let mut rest = "rest".to_string();
    do_end_tag(&mut m, &tag(TagType::Paragraph, "p"), &mut rest);
    assert_eq!(rest, "");
    assert_eq!(m.paras.len(), 1);
    assert_eq!(m.paras[0].content.len(), 2);
}

#[test]
fn the_version_can_be_set_directly() {
    let mut m = AosjStringModel::new();
    m.add_root_metadata(&"2.0".to_string());
    assert_eq!(m.assemble_model(), "{ \"version\": \"2.0\", \"content\": [] }");
    let d = m.into_document();
    assert_eq!(d.version, Some("2.0".to_string()));
}

#[test]
fn text_of_joins_the_texts_and_passes_over_nodes() {
    let mut n = Node::new(NodeKind::Para, "p".to_string(), false, AttributeMap::new());
    n.push_item(Item::Text("a".to_string()));
    n.push_item(Item::Node(Node::new(NodeKind::Verse, "v".to_string(), false, AttributeMap::new())));
    n.push_item(Item::Text("b".to_string()));
    assert_eq!(text_of(&n), "ab");
}

#[test]
fn a_document_is_written_as_json() {
    let mut para = Node::new(NodeKind::Para, "p".to_string(), false, AttributeMap::new());
    para.push_item(Item::Node(Node::new(NodeKind::Verse, "v".to_string(), false, attrs(&[("number", "1")]))));
    para.push_item(Item::Text("He said \"yes\".".to_string()));
    let mut word = Node::new(NodeKind::Char, "w".to_string(), false, attrs(&[("default", "Man")]));
    word.push_item(Item::Text("man".to_string()));
    para.push_item(Item::Node(word));
    let chapter = Node::new(NodeKind::Chapter, "c".to_string(), false, attrs(&[("number", "1")]));
    let d = Document { version: Some("3.0".to_string()), content: vec![chapter, para] };
    assert_eq!(
        d.to_json(),
        "{ \"version\": \"3.0\", \"content\": [{ \"type\": \"chapter\", \"marker\": \"c\", \"number\": \"1\" }, { \"type\": \"para\", \"marker\": \"p\", \"content\": [{ \"type\": \"verse\", \"marker\": \"v\", \"number\": \"1\" }, \"He said \\\"yes\\\".\", { \"type\": \"char\", \"marker\": \"w\", \"default\": \"Man\", \"content\": [\"man\"] }] }] }"
    );
    let parsed: serde_json::Value = serde_json::from_str(&d.to_json()).unwrap();
    assert_eq!(parsed.get("content").unwrap()[1].get("content").unwrap()[1], "He said \"yes\".");
}

#[test]
fn strings_are_escaped_so_that_the_json_can_be_read_back() {
    let mut out = String::new();
    write_quoted("a\"b\\c\n\u{1f}d\u{a0}é", &mut out);
    assert_eq!(out, "\"a\\\"b\\\\c\\u000a\\u001fd\u{a0}é\"");
    let parsed: serde_json::Value = serde_json::from_str(&out).unwrap();
    assert_eq!(parsed, "a\"b\\c\n\u{1f}d\u{a0}é");
    let mut all = String::new();
    let every: String = (0u32..0x80).filter_map(char::from_u32).collect();
    write_quoted(&every, &mut all);
    let back: serde_json::Value = serde_json::from_str(&all).unwrap();
    assert_eq!(back, every.as_str());
}

#[test]
fn each_failure_has_its_message() {
    assert_eq!(UsfmError::UnknownMarker("zz".to_string()).message(), "Tag not in the marker tables : zz");
    assert_eq!(UsfmError::MalformedNumber("1-2".to_string()).message(), "Malformed number : 1-2");
    assert_eq!(UsfmError::Grammar.message(), "The lexical grammar could not be prepared");
}
