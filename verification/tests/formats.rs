use quick_xml::events::Event;
use quick_xml::Reader;
use scripture_formats::attributes::AttributeMap;
use scripture_formats::attributes::Element;
use scripture_formats::rules::check_against;
use scripture_formats::rules::validate_attributes;
use scripture_formats::serialize_usfm::serialize_to_e_bible;
use scripture_formats::serialize_usfm::serialize_to_usfm;
use scripture_formats::serialize_usfm::write_usfm_top;
use scripture_formats::serialize_usj::add_sid_to_items;
use scripture_formats::serialize_usj::add_sid_to_usj;
use scripture_formats::serialize_usj::serialize_to_usj;
use scripture_formats::serialize_usj::usj_text;
use scripture_formats::serialize_usx::push_top;
use scripture_formats::serialize_usx::serialize_to_usx;
use scripture_formats::text::clean_whitespace;
use scripture_formats::text::collapse_white;
use scripture_formats::transform::input_format;
use scripture_formats::transform::output_format;
use scripture_formats::transform::read_source;
use scripture_formats::transform::render;
use scripture_formats::transform::transform;
use scripture_formats::transform::unsupported_input_message;
use scripture_formats::transform::unsupported_output_message;
use scripture_formats::transform::InputFormat;
use scripture_formats::transform::OutputFormat;
use scripture_formats::transform::Rendered;
use scripture_formats::transform::Source;
use scripture_formats::transform::TransformError;
use scripture_formats::tree::Document;
use scripture_formats::tree::Item;
use scripture_formats::tree::Node;
use scripture_formats::tree::NodeKind;
use scripture_formats::usfm::build_document_from_tagstream;
use scripture_formats::usj::build_document_from_json;
use scripture_formats::usj::deserialize_from_file_usj;
use scripture_formats::usj::find_member;
use scripture_formats::usj::kind_from_type;
use scripture_formats::usj::read_items;
use scripture_formats::usj::read_members;
use scripture_formats::usj::read_node;
use scripture_formats::usj::read_top_nodes;
use scripture_formats::usj::top_kind;
use scripture_formats::usj::JsonValue;
use scripture_formats::usj::UsjError;
use scripture_formats::usx::build_document_from_events;
use scripture_formats::usx::deserialize_from_file_usx;
use scripture_formats::usx::UsxReader;
use scripture_formats::usx::XmlEvent;
use serde_json::Value;

const PSALM: &str = "\\id PSA unfoldingWord Literal Text\n\\usfm 3.0\n\\ide UTF-8\n\\sts 2\n\\h Psalms\n\\toc1 The Book of Psalms\n\\toc2 Psalms\n\\toc3 Psa\n\\mt Psalms\n\\c 1\n\\s Here comes a psalm\n\\s2 See also all the other psalms\n\\q\n\\v 1 Blessed is the \\w man|Man\\w* who \\bd \\+it does not\\+it* walk\\bd* in the advice of the wicked,\n\\q or stand in the pathway with sinners,\n\\q or sit in the assembly of mockers.\\qs Selah\\qs* Amen\n\\ts\\*\n\\v 2 Beginning \\zaln-s |x-strong=\"G5043\" x-lemma=\"τέκνον\" x-morph=\"Gr,N,,,,,NNP,\" x-occurrence=\"1\" x-occurrences=\"1\" x-content=\"τέκνα\"\\*\\w milestone |x-occurrence=\"1\" x-occurrences=\"1\"\\w*\\zaln-e\\*\n";

fn attrs(pairs: &[(&str, &str)]) -> AttributeMap {
    let mut a = AttributeMap::new();
    for (k, v) in pairs {
        a.insert(k.to_string(), v.to_string());
    }
    a
}

fn element(start: &quick_xml::events::BytesStart) -> Element {
    let mut attributes = AttributeMap::new();
    for att in start.attributes() {
        let att = att.unwrap();
        attributes.insert(
            String::from_utf8(att.key.local_name().as_ref().to_vec()).unwrap(),
            String::from_utf8(att.value.as_ref().to_vec()).unwrap(),
        );
    }
    Element::new(String::from_utf8(start.name().as_ref().to_vec()).unwrap(), attributes)
}

fn xml_events(text: &str) -> Vec<XmlEvent> {
    let mut reader = Reader::from_str(text);
    reader.config_mut().trim_text(true);
    let mut events = Vec::new();
    loop {
        match reader.read_event() {
            Ok(Event::Start(el)) => events.push(XmlEvent::Start(element(&el))),
            Ok(Event::Empty(el)) => events.push(XmlEvent::Empty(element(&el))),
            Ok(Event::Text(el)) => events.push(XmlEvent::Text(el.unescape().unwrap().into_owned())),
            Ok(Event::End(_)) => events.push(XmlEvent::End),
            Ok(Event::Eof) => return events,
            Err(err) => panic!("Error reading XML: {}", err),
            _ => {}
        }
    }
}

fn json_value(v: &Value) -> JsonValue {
    match v {
        Value::Null => JsonValue::Null,
        Value::Bool(b) => JsonValue::Bool(*b),
        Value::Number(n) => JsonValue::Number(n.to_string()),
        Value::String(s) => JsonValue::String(s.clone()),
        Value::Array(a) => JsonValue::Array(a.iter().map(json_value).collect()),
        Value::Object(m) => JsonValue::Object(m.iter().map(|(k, v)| (k.clone(), json_value(v))).collect()),
    }
}

fn parse_json(text: &str) -> JsonValue {
    let value: Value = serde_json::from_str(text).expect("Unable to parse JSON");
    json_value(&value)
}

fn text_node(kind: NodeKind, marker: &str, a: AttributeMap, items: Vec<Item>) -> Node {
    let mut n = Node::new(kind, marker.to_string(), false, a);
    for item in items {
        n.push_item(item);
    }
    n
}

fn text(s: &str) -> Item {
    Item::Text(s.to_string())
}

fn sample() -> Document {
    let verse = Node::new(NodeKind::Verse, "v".to_string(), false, attrs(&[("number", "1")]));
    let word = text_node(NodeKind::Char, "w", attrs(&[("default", "Man"), ("strong", "H1")]), vec![text("man")]);
    let it = text_node(NodeKind::Char, "it", AttributeMap::new(), vec![text("not")]);
    let bd = text_node(NodeKind::Char, "bd", AttributeMap::new(), vec![text("does "), Item::Node(it)]);
    let ms = Node::new(NodeKind::Milestone, "zaln-s".to_string(), false, attrs(&[("x-strong", "G1")]));
    let ts = Node::new(NodeKind::Milestone, "ts".to_string(), false, AttributeMap::new());
    let note = text_node(NodeKind::Note, "f", AttributeMap::new(), vec![text("a note")]);
    let para = text_node(
        NodeKind::Para,
        "p",
        AttributeMap::new(),
        vec![Item::Node(verse), text("The "), Item::Node(word), text(" "), Item::Node(bd), Item::Node(ms), Item::Node(ts), Item::Node(note)],
    );
    let book = text_node(NodeKind::Book, "id", attrs(&[("code", "PSA")]), vec![text("Psalms")]);
    let chapter = Node::new(NodeKind::Chapter, "c".to_string(), false, attrs(&[("number", "1")]));
    Document { version: Some("3.0".to_string()), content: vec![book, chapter, para] }
}

fn kinds(events: &Vec<XmlEvent>) -> Vec<String> {
    events
        .iter()
        .map(|e| match e {
            XmlEvent::Start(el) => format!("<{}>", el.tag_name),
            XmlEvent::Empty(el) => format!("<{}/>", el.tag_name),
            XmlEvent::Text(t) => format!("{:?}", t),
            XmlEvent::End => "</>".to_string(),
        })
        .collect()
}

#[test]
fn it_deserialize_usx() {
    let usx_content = r#"
            <usx version="2.0">
                <book code="PSA" style="id">Psalm</book>
                <chapter number="1" style="c" sid="PSA 1:1"/>
                <para style="p">
                    <verse number="1" style="v" sid="PSA 1:1"/>
                    Praise the <char style="nd">Lord</char>, for he is good.
                    <note caller="*" style="f">
                        <ms style="zaln-s" sid="aln1" x-strong="H5662" x-lemma="עֹבַדְיָה" x-morph="He,Np" x-occurrence="1"
                        x-occurrences="1" x-content="עֹֽבַדְיָ֑ה"/>
                        Footnote content
                        <char style="qs"><char style="fr">Selah.</char></char>
                    </note>
                </para>
                <para style="q">
                    God's love never fails.
                </para>
            </usx>
        "#;

    let result = deserialize_from_file_usx(&xml_events(usx_content));

    let result_json: Value = serde_json::from_str(&result).expect("Failed to parse result JSON");

    assert_eq!(result_json.get("version").unwrap().as_str().unwrap(), "2.0");

    assert_eq!(result_json.get("content").unwrap()[0].get("code").unwrap(), "PSA");
    assert_eq!(result_json.get("content").unwrap()[2].get("content").unwrap()[1], "Praise the");
    assert_eq!(result_json.get("content").unwrap()[2].get("content").unwrap()[4].get("content").unwrap()[0].get("x-content").unwrap(), "עֹֽבַדְיָ֑ה");
    assert_eq!(result_json.get("content").unwrap()[2].get("content").unwrap()[4].get("content").unwrap()[2].get("content").unwrap()[0].get("content").unwrap()[0], "Selah.");
    assert_eq!(result_json.get("content").unwrap()[3].get("content").unwrap()[0], "God's love never fails.");
}

#[test]
#[should_panic]
fn fail_parse_usx() {
    let usx_content = r#"
            <usx version="2.0">
                <book code="PSA" style="id">Psalm</book>
                <chapter number="1" style="c" sid="PSA 1:1"/>
                <para style="p"
                    <verse number="1" style="v" sid="PSA 1:1"/>
                    Praise the <char style="nd">Lord</char>, for he is good.
                </para>
            </usx>
        "#;

    deserialize_from_file_usx(&xml_events(usx_content));
}

#[test]
fn it_deserialize_usj() {
    let mut content = String::from("{\"type\": \"book\", \"marker\": \"id\", \"code\": \"MAT\", \"content\": [\"Matthew\"]}");
    for marker in ["ide", "h", "toc1", "toc2", "toc3", "mt", "s"] {
        content.push_str(&format!(", {{\"type\": \"para\", \"marker\": \"{}\", \"content\": [\"x\"]}}", marker));
    }
    content.push_str(", {\"type\": \"chapter\", \"marker\": \"c\", \"number\": \"1\", \"sid\": \"MAT 1\"}");
    content.push_str(", {\"type\": \"para\", \"marker\": \"s\", \"content\": [\"Praise\"]}");
    content.push_str(", {\"type\": \"para\", \"marker\": \"q\", \"content\": [{\"type\": \"verse\", \"marker\": \"v\", \"number\": \"1\", \"sid\": \"MAT 1:1\"}, \"Praise the \", {\"type\": \"char\", \"marker\": \"nd\", \"content\": [\"Lord\"]}]}");
    content.push_str(", {\"type\": \"para\", \"marker\": \"q\", \"content\": [\"God's love never fails \", {\"type\": \"char\", \"marker\": \"qs\", \"content\": [\"Selah\"]}]}");
    let text = format!("{{\"type\": \"USJ\", \"version\": \"0.2.1\", \"content\": [{}]}}", content);

    let result = deserialize_from_file_usj(&parse_json(&text)).unwrap();
    let result_json: Value = serde_json::from_str(&result).unwrap();

    assert_eq!(result_json.get("version").unwrap(), "0.2.1");

    assert_eq!(result_json.get("content").unwrap()[0].get("code").unwrap(), "MAT");
    assert_eq!(result_json.get("content").unwrap()[10].get("content").unwrap()[1], "Praise the ");
    assert_eq!(result_json.get("content").unwrap()[11].get("content").unwrap()[0], "God's love never fails ");
    assert_eq!(result_json.get("content").unwrap()[11].get("content").unwrap()[1].get("content").unwrap()[0], "Selah");
}

#[test]
#[should_panic]
fn fail_parse_json() {
    deserialize_from_file_usj(&parse_json("{\"version\": \"0.2.1\", \"content\": [")).unwrap();
}

#[test]
fn test_invalid_input_format() {
    assert_eq!(input_format("invalid_format"), None);
    assert_eq!(unsupported_input_message(), "Unsupported input file format. Only 'usfm', 'usx', and 'json' are supported.".to_string());
}

#[test]
fn test_invalid_output_format() {
    assert_eq!(output_format("invalid_format"), None);
    assert_eq!(unsupported_output_message(), "Unsupported output file format. Only 'usfm', 'usx', and 'json' are supported.".to_string());
    match transform(&Source::Usfm(PSALM.to_string()), "invalid_format") {
        Err(TransformError::UnsupportedOutput) => {}
        _ => panic!("the format was accepted"),
    }
    let e = transform(&Source::Usfm(PSALM.to_string()), "invalid_format").err().unwrap();
    assert_eq!(e.message(), "Unsupported output file format. Only 'usfm', 'usx', and 'json' are supported.");
}

#[test]
fn the_names_of_the_formats() {
    assert_eq!(input_format("usx"), Some(InputFormat::Usx));
    assert_eq!(input_format("usfm"), Some(InputFormat::Usfm));
    assert_eq!(input_format("json"), Some(InputFormat::Usj));
    assert_eq!(input_format("usj"), Some(InputFormat::Usj));
    assert_eq!(input_format("USFM"), None);
    assert_eq!(output_format("json"), Some(OutputFormat::Usj));
    assert_eq!(output_format("usj"), Some(OutputFormat::Usj));
    assert_eq!(output_format("usfm"), Some(OutputFormat::Usfm));
    assert_eq!(output_format("usx"), Some(OutputFormat::Usx));
    assert_eq!(output_format(""), None);
}

#[test]
fn a_failure_of_the_source_comes_before_the_output_format() {
    match transform(&Source::Usfm("\\zzqq".to_string()), "invalid_format") {
        Err(TransformError::Usfm(e)) => assert_eq!(e.message(), "Tag not in the marker tables : zzqq"),
        _ => panic!("expected the failure of the source"),
    }
    match transform(&Source::Usj(JsonValue::Null), "json") {
        Err(TransformError::Usj(UsjError::MissingVersion)) => {}
        _ => panic!("expected the failure of the source"),
    }
    assert_eq!(TransformError::Usj(UsjError::MissingType).message(), "Unable to read the JSON document");
}

#[test]
fn transform_writes_each_output_format() {
    let source = Source::Usfm("\\id PSA Title\n\\c 1\n\\p\n\\v 1 Blessed".to_string());
    match transform(&source, "usfm").ok().unwrap() {
        Rendered::Text(t) => assert_eq!(t, "\\id PSA Title\n\\c 1\n\\p \n\\v 1 Blessed\n"),
        _ => panic!("expected a text"),
    }
    match transform(&source, "json").ok().unwrap() {
        Rendered::Text(t) => {
            let v: Value = serde_json::from_str(&t).unwrap();
            assert_eq!(v.get("type").unwrap(), "USJ");
            assert_eq!(v.get("content").unwrap()[1].get("sid").unwrap(), "PSA 1");
            assert_eq!(v.get("content").unwrap()[2].get("content").unwrap()[0].get("sid").unwrap(), "PSA 1:1");
        }
        _ => panic!("expected a text"),
    }
    match transform(&source, "usx").ok().unwrap() {
        Rendered::Xml(events) => {
            assert_eq!(kinds(&events), vec!["<usx>", "<book>", "\"Title\"", "</>", "<chapter/>", "<para>", "<verse/>", "\"Blessed\"", "</>", "</>"]);
        }
        _ => panic!("expected events"),
    }
    let d = read_source(&source).ok().unwrap();
    match render(d, OutputFormat::Usfm) {
        Rendered::Text(t) => assert!(t.starts_with("\\id PSA Title\n")),
        _ => panic!("expected a text"),
    }
}

#[test]
fn validate_attributes_reports_what_is_missing_first() {
    assert_eq!(validate_attributes("para", &attrs(&[("type", "para"), ("marker", "p"), ("sid", "x"), ("content", "")])), Ok(()));
    assert_eq!(validate_attributes("para", &attrs(&[("marker", "p")])), Err("Missing required attribute 'type'".to_string()));
    assert_eq!(validate_attributes("para", &attrs(&[("type", "para"), ("bad", "1")])), Err("Missing required attribute 'marker'".to_string()));
    assert_eq!(validate_attributes("para", &attrs(&[("type", "para"), ("marker", "p"), ("bad", "1"), ("worse", "2")])), Err("Unexpected attribute 'bad' in 'para'".to_string()));
}

#[test]
fn validate_attributes_has_a_table_for_each_kind() {
    assert_eq!(validate_attributes("book", &attrs(&[("type", "book"), ("marker", "id")])), Err("Missing required attribute 'code'".to_string()));
    assert_eq!(validate_attributes("book", &attrs(&[("type", "book"), ("marker", "id"), ("code", "PSA")])), Ok(()));
    assert_eq!(validate_attributes("book", &attrs(&[("type", "book"), ("marker", "id"), ("code", "PSA"), ("sid", "x")])), Err("Unexpected attribute 'sid' in 'para'".to_string()));
    assert_eq!(validate_attributes("chapter", &attrs(&[("type", "chapter"), ("marker", "c")])), Err("Missing required attribute 'number'".to_string()));
    assert_eq!(validate_attributes("chapter", &attrs(&[("type", "chapter"), ("marker", "c"), ("number", "1"), ("sid", "a"), ("altnumber", "b"), ("pubnumber", "c")])), Ok(()));
    assert_eq!(validate_attributes("chapter", &attrs(&[("type", "chapter"), ("marker", "c"), ("number", "1"), ("content", "x")])), Err("Unexpected attribute 'content' in 'para'".to_string()));
    assert_eq!(validate_attributes("char", &attrs(&[("type", "char"), ("marker", "w"), ("link_id", "a"), ("link_href", "b")])), Ok(()));
    assert_eq!(validate_attributes("char", &attrs(&[("type", "char"), ("marker", "w"), ("strong", "H1")])), Err("Unexpected attribute 'strong' in 'para'".to_string()));
    assert_eq!(validate_attributes("verse", &attrs(&[("anything", "goes")])), Ok(()));
    assert_eq!(check_against(&attrs(&[("a", "1")]), &["a"], &["a"]), Ok(()));
    assert_eq!(check_against(&attrs(&[]), &[], &[]), Ok(()));
}

#[test]
fn clean_whitespace_leaves_single_spaces_between_words() {
    let mut txt = vec!["  a \n\t b  ".to_string(), "".to_string(), "\u{a0} x\u{3000}y ".to_string(), "word".to_string(), " \n ".to_string()];
    clean_whitespace(&mut txt);
    assert_eq!(txt, vec!["a b", "", "x y", "word", ""]);
    assert_eq!(collapse_white(" a \n b"), " a b");
}

#[test]
fn clean_whitespace_agrees_with_the_standard_library() {
    let samples = ["one  two\tthree\n", "   ", "a", " a", "a ", "\n\ta \u{a0} b\r\n", ""];
    for s in samples {
        let mut txt = vec![s.to_string()];
        clean_whitespace(&mut txt);
        let expected = s.split_whitespace().collect::<Vec<&str>>().join(" ");
        assert_eq!(txt[0], expected, "on {:?}", s);
    }
}

#[test]
fn xml_text_directly_under_the_root_is_passed_over() {
    let d = build_document_from_events(&xml_events("<usx version=\"3.0\">stray<para style=\"p\">kept</para></usx>"));
    assert_eq!(d.version, Some("3.0".to_string()));
    assert_eq!(d.content.len(), 1);
    assert_eq!(d.content[0].marker, "p");
    assert_eq!(d.content[0].content.len(), 1);
}

#[test]
fn xml_content_outside_a_node_gets_a_paragraph_of_its_own() {
    let d = build_document_from_events(&xml_events("<usx version=\"3.0\"><verse number=\"1\" style=\"v\"/><char style=\"bd\">x</char></usx>"));
    assert_eq!(d.content.len(), 2);
    assert_eq!(d.content[0].kind, NodeKind::Para);
    assert_eq!(d.content[0].marker, "");
    match &d.content[0].content[0] {
        Item::Node(n) => assert_eq!(n.kind, NodeKind::Verse),
        _ => panic!("expected a verse"),
    }
    match &d.content[1].content[0] {
        Item::Node(n) => assert_eq!(n.marker, "bd"),
        _ => panic!("expected a span"),
    }
}

#[test]
fn xml_elements_that_mark_an_end_add_nothing() {
    let d = build_document_from_events(&xml_events(
        "<usx version=\"3.0\"><chapter number=\"1\" style=\"c\" sid=\"GEN 1\"/><para style=\"p\"><verse number=\"1\" style=\"v\"/>text<verse eid=\"GEN 1:1\"/><ms style=\"ts\" eid=\"x\"/></para><chapter eid=\"GEN 1\"/></usx>",
    ));
    assert_eq!(d.content.len(), 2);
    assert_eq!(d.content[0].kind, NodeKind::Chapter);
    assert_eq!(d.content[0].attributes.get("number"), Some("1".to_string()));
    assert_eq!(d.content[0].attributes.get("sid"), None);
    assert_eq!(d.content[1].content.len(), 3);
}

#[test]
fn xml_notes_inside_spans_stay_inside_them() {
    let d = build_document_from_events(&xml_events("<usx version=\"3.0\"><para style=\"p\"><char style=\"bd\">a<note style=\"f\" caller=\"+\">n</note>b</char></para></usx>"));
    let bd = match &d.content[0].content[0] {
        Item::Node(n) => n,
        _ => panic!("expected a span"),
    };
    assert_eq!(bd.content.len(), 3);
    match &bd.content[1] {
        Item::Node(n) => {
            assert_eq!(n.kind, NodeKind::Note);
            assert_eq!(n.attributes.get("caller"), Some("+".to_string()));
        }
        _ => panic!("expected a note"),
    }
}

#[test]
fn an_end_without_an_open_element_changes_nothing() {
    let mut r = UsxReader::new();
    r.step(&XmlEvent::End);
    r.step(&XmlEvent::Text("lost".to_string()));
    assert_eq!(r.parent_els.len(), 0);
    assert_eq!(r.txt.len(), 0);
    r.add_item(Item::Text("kept".to_string()));
    r.flush();
    let d = r.finish();
    assert_eq!(d.content.len(), 1);
    assert_eq!(d.version, None);
}

#[test]
fn json_members_are_found_in_order() {
    let v = parse_json("{\"a\": \"1\", \"type\": \"para\", \"marker\": \"p\", \"content\": []}");
    let members = match &v {
        JsonValue::Object(m) => m,
        _ => panic!("expected an object"),
    };
    assert_eq!(find_member(members, "a"), 0);
    assert_eq!(find_member(members, "absent"), 4);
    let attributes = read_members(members).unwrap();
    assert_eq!(attributes.len(), 2);
    assert_eq!(attributes.get("a"), Some("1".to_string()));
    assert_eq!(attributes.get("marker"), Some("p".to_string()));
    assert_eq!(kind_from_type("ms"), Some(NodeKind::Milestone));
    assert_eq!(kind_from_type("table"), None);
    assert!(top_kind(NodeKind::Chapter));
    assert!(!top_kind(NodeKind::Verse));
}

#[test]
fn each_failure_of_the_json_reader_has_its_input() {
    assert_eq!(build_document_from_json(&parse_json("{\"content\": []}")).err(), Some(UsjError::MissingVersion));
    assert_eq!(build_document_from_json(&parse_json("[]")).err(), Some(UsjError::MissingVersion));
    assert_eq!(build_document_from_json(&parse_json("{\"version\": 3}")).err(), Some(UsjError::VersionNotString));
    assert_eq!(build_document_from_json(&parse_json("{\"version\": \"3\", \"content\": [{\"marker\": \"p\"}]}")).err(), Some(UsjError::MissingType));
    assert_eq!(
        build_document_from_json(&parse_json("{\"version\": \"3\", \"content\": [{\"type\": \"para\", \"marker\": \"p\", \"n\": 1}]}")).err(),
        Some(UsjError::AttributeNotString("n".to_string()))
    );
    assert_eq!(
        build_document_from_json(&parse_json("{\"version\": \"3\", \"content\": [{\"type\": \"para\", \"marker\": \"p\", \"content\": [{\"type\": \"char\", \"marker\": \"w\", \"x\": null}]}]}")).err(),
        Some(UsjError::AttributeNotString("x".to_string()))
    );
}

#[test]
fn the_json_reader_passes_over_what_it_does_not_know() {
    let d = build_document_from_json(&parse_json(
        "{\"version\": \"3\", \"content\": [\"text\", 1, {\"type\": \"table\"}, {\"type\": \"verse\", \"number\": \"1\"}, {\"type\": \"para\", \"marker\": \"p\", \"sid\": \"x\", \"content\": [\"a\", 2, {\"type\": \"para\", \"marker\": \"q\"}, {\"type\": \"ms\", \"marker\": \"ts\"}, {\"type\": 5}]}]}",
    ))
    .ok()
    .unwrap();
    assert_eq!(d.content.len(), 1);
    assert_eq!(d.content[0].attributes.len(), 0);
    assert_eq!(d.content[0].content.len(), 2);
    let none = build_document_from_json(&parse_json("{\"version\": \"3\", \"content\": 5}")).ok().unwrap();
    assert_eq!(none.content.len(), 0);
    assert_eq!(read_node(&JsonValue::Bool(true)).ok().unwrap().is_none(), true);
    assert_eq!(read_items(&vec![JsonValue::String("a".to_string()), JsonValue::Null]).ok().unwrap().len(), 1);
    assert_eq!(read_top_nodes(&vec![JsonValue::String("a".to_string())]).ok().unwrap().len(), 0);
}

#[test]
fn a_document_is_written_as_a_tag_stream() {
    assert_eq!(
        serialize_to_usfm(&sample()),
        "\\usfm 3.0\n\\id PSA Psalms\n\\c 1\n\\p \n\\v 1 The \\w man|strong=\"H1\" |Man \\w* \\bd does \\+it not\\+it*\\bd*\\zaln-s | x-strong=\"G1\" \\*\\ts\\*\n"
    );
    let mut out = String::new();
    write_usfm_top(&Node::new(NodeKind::Verse, "v".to_string(), false, AttributeMap::new()), &mut out);
    assert_eq!(out, "");
    assert_eq!(serialize_to_usfm(&Document { version: None, content: Vec::new() }), "");
}

#[test]
fn a_document_is_written_in_the_line_per_verse_encoding() {
    assert_eq!(serialize_to_e_bible(&sample()), "\\usfm 3.0\n\n\\c 1\n\n");
    assert_eq!(serialize_to_e_bible(&Document { version: None, content: Vec::new() }), "");
}

#[test]
fn chapters_and_verses_get_the_identifier_of_their_place() {
    let mut d = sample();
    add_sid_to_usj(&mut d);
    assert_eq!(d.content[1].attributes.get("sid"), Some("PSA 1".to_string()));
    match &d.content[2].content[0] {
        Item::Node(v) => assert_eq!(v.attributes.get("sid"), Some("PSA 1:1".to_string())),
        _ => panic!("expected a verse"),
    }
    match &d.content[2].content[2] {
        Item::Node(w) => assert_eq!(w.attributes.get("sid"), None),
        _ => panic!("expected a span"),
    }
    assert_eq!(d.content[0].attributes.get("sid"), None);
    assert_eq!(d.content.len(), 3);
}

#[test]
fn identifiers_follow_the_last_book_and_chapter() {
    let verse = |n: &str| Item::Node(Node::new(NodeKind::Verse, "v".to_string(), false, attrs(&[("number", n)])));
    let chapter = |n: &str| Node::new(NodeKind::Chapter, "c".to_string(), false, attrs(&[("number", n)]));
    let para = |items: Vec<Item>| text_node(NodeKind::Para, "p", AttributeMap::new(), items);
    let book = |code: &str| text_node(NodeKind::Book, "id", attrs(&[("code", code)]), Vec::new());
    let d = serialize_to_usj(Document {
        version: None,
        content: vec![
            para(vec![verse("1")]),
            book("GEN"),
            chapter("1"),
            para(vec![verse("1"), text("t"), verse("2")]),
            chapter("2"),
            Node::new(NodeKind::Chapter, "c".to_string(), false, AttributeMap::new()),
            book("EXO"),
            para(vec![verse("3"), Item::Node(Node::new(NodeKind::Verse, "v".to_string(), false, AttributeMap::new()))]),
        ],
    });
    let sid = |n: &Node, i: usize| match &n.content[i] {
        Item::Node(v) => v.attributes.get("sid"),
        _ => None,
    };
    assert_eq!(sid(&d.content[0], 0), Some(" :1".to_string()));
    assert_eq!(d.content[2].attributes.get("sid"), Some("GEN 1".to_string()));
    assert_eq!(sid(&d.content[3], 0), Some("GEN 1:1".to_string()));
    assert_eq!(sid(&d.content[3], 2), Some("GEN 1:2".to_string()));
    assert_eq!(d.content[4].attributes.get("sid"), Some("GEN 2".to_string()));
    assert_eq!(d.content[5].attributes.get("sid"), None);
    assert_eq!(sid(&d.content[7], 0), Some("EXO 2:3".to_string()));
    assert_eq!(sid(&d.content[7], 1), None);
    let mut items = vec![verse("9"), text("x")];
    add_sid_to_items(&mut items, "JHN", "3");
    match &items[0] {
        Item::Node(v) => assert_eq!(v.attributes.get("sid"), Some("JHN 3:9".to_string())),
        _ => panic!("expected a verse"),
    }
}

#[test]
fn a_document_is_written_as_the_json_of_the_object_tree() {
    let d = Document { version: Some("3.0".to_string()), content: vec![Node::new(NodeKind::Chapter, "c".to_string(), false, attrs(&[("number", "1")]))] };
    assert_eq!(usj_text(&d), "{ \"type\": \"USJ\", \"version\": \"3.0\", \"content\": [{ \"type\": \"chapter\", \"marker\": \"c\", \"number\": \"1\" }] }");
    assert_eq!(usj_text(&Document { version: None, content: Vec::new() }), "{ \"type\": \"USJ\", \"content\": [] }");
}

#[test]
fn a_document_is_written_as_xml_events() {
    let events = serialize_to_usx(&sample());
    assert_eq!(
        kinds(&events),
        vec![
            "<usx>", "<book>", "\"Psalms\"", "</>", "<chapter/>", "<para>", "<verse/>", "\"The \"", "<char>", "\"man\"", "</>", "\" \"", "<char>", "\"does \"", "<char>", "\"not\"", "</>", "</>",
            "<ms/>", "<ms/>", "<note>", "\"a note\"", "</>", "</>", "</>",
        ]
    );
    match &events[0] {
        XmlEvent::Start(root) => assert_eq!(root.attributes.get("version"), Some("3.0".to_string())),
        _ => panic!("expected the root"),
    }
    match &events[1] {
        XmlEvent::Start(book) => {
            assert_eq!(book.attributes.key_at(0), "style");
            assert_eq!(book.attributes.value_at(0), "id");
            assert_eq!(book.attributes.get("code"), Some("PSA".to_string()));
        }
        _ => panic!("expected the book"),
    }
    let mut out = Vec::new();
    push_top(&Node::new(NodeKind::Verse, "v".to_string(), false, AttributeMap::new()), &mut out);
    assert_eq!(out.len(), 0);
    let empty = serialize_to_usx(&Document { version: None, content: Vec::new() });
    assert_eq!(kinds(&empty), vec!["<usx>", "</>"]);
}

fn as_value(d: &Document) -> Value {
    serde_json::from_str(&d.to_json()).unwrap()
}

#[test]
fn the_xml_events_of_a_document_read_back_as_the_document() {
    let document = build_document_from_tagstream("\\id PSA Title\n\\usfm 3.0\n\\c 1\n\\p\n\\v 1 Blessed\\w man|Man\\w*walks.\\f + \\ft note\\f*\\ts\\*\n").ok().unwrap();
    let back = build_document_from_events(&serialize_to_usx(&document));
    assert_eq!(as_value(&back), as_value(&document));
}

#[test]
fn reading_xml_drops_the_white_space_at_the_ends_of_texts() {
    let document = build_document_from_tagstream("\\p\n\\v 1 one \\bd two\\bd* three").ok().unwrap();
    let back = build_document_from_events(&serialize_to_usx(&document));
    let texts: Vec<String> = back.content[0]
        .content
        .iter()
        .filter_map(|i| match i {
            Item::Text(t) => Some(t.clone()),
            _ => None,
        })
        .collect();
    assert_eq!(texts, vec!["one ", "three"]);
}

#[test]
fn the_json_of_a_document_reads_back_as_the_document() {
    let document = build_document_from_tagstream(PSALM).ok().unwrap();
    let back = build_document_from_json(&parse_json(&document.to_json())).ok().unwrap();
    assert_eq!(as_value(&back), as_value(&document));
}

#[test]
fn a_written_tag_stream_reads_back_as_the_same_document() {
    let first = build_document_from_tagstream(PSALM).ok().unwrap();
    let written = serialize_to_usfm(&first);
    let second = build_document_from_tagstream(&written).ok().unwrap();
    assert_eq!(as_value(&second), as_value(&first));
    assert_eq!(serialize_to_usfm(&second), written);
}

#[test]
fn a_span_with_attributes_and_a_default_reads_back() {
    let first = build_document_from_tagstream("\\p\n\\w word|Lemma x-a=\"1\" x-b=\"2\"\\w* and \\w more|x-c=\"3\"\\w*").ok().unwrap();
    let written = serialize_to_usfm(&first);
    let second = build_document_from_tagstream(&written).ok().unwrap();
    assert_eq!(serialize_to_usfm(&second), written);
    let third = build_document_from_tagstream(&serialize_to_usfm(&second)).ok().unwrap();
    assert_eq!(as_value(&third), as_value(&second));
}
