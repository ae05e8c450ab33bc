use scripture_formats::builder::AosjStringModel;
use scripture_formats::error::UsfmError;
use scripture_formats::lexer::tokenize;
use scripture_formats::tree::Document;
use scripture_formats::tree::Item;
use scripture_formats::tree::Node;
use scripture_formats::tree::NodeKind;
use scripture_formats::usfm::build_document_from_tagstream;
use scripture_formats::usfm::build_document_from_tokens;
use scripture_formats::usfm::deserialize_from_file;
use scripture_formats::usfm::deserialize_from_file_e_bible;
use scripture_formats::usfm::deserialize_from_file_usfm;
use scripture_formats::usfm::UsfmReader;
use serde_json::Value;

const PSALM: &str = "\\id PSA unfoldingWord Literal Text\n\\usfm 3.0\n\\ide UTF-8\n\\sts 2\n\\h Psalms\n\\toc1 The Book of Psalms\n\\toc2 Psalms\n\\toc3 Psa\n\\mt Psalms\n\\c 1\n\\s Here comes a psalm\n\\s2 See also all the other psalms\n\\q\n\\v 1 Blessed is the \\w man|Man\\w* who \\bd \\+it does not\\+it* walk\\bd* in the advice of the wicked,\n\\q or stand in the pathway with sinners,\n\\q or sit in the assembly of mockers.\\qs Selah\\qs* Amen\n\\ts\\*\n\\v 2 Beginning \\zaln-s |x-strong=\"G5043\" x-lemma=\"τέκνον\" x-morph=\"Gr,N,,,,,NNP,\" x-occurrence=\"1\" x-occurrences=\"1\" x-content=\"τέκνα\"\\*\\w milestone |x-occurrence=\"1\" x-occurrences=\"1\"\\w*\\zaln-e\\*\n";

fn node_of(item: &Item) -> &Node {
    match item {
        Item::Node(n) => n,
        Item::Text(t) => panic!("expected a node, found the text {:?}", t),
    }
}

fn text_of(item: &Item) -> &str {
    match item {
        Item::Text(t) => t.as_str(),
        Item::Node(n) => panic!("expected a text, found a node with marker {:?}", n.marker),
    }
}

fn attribute(node: &Node, key: &str) -> Option<String> {
    node.attributes.get(key)
}

fn build(text: &str) -> Document {
    match build_document_from_tagstream(text) {
        Ok(d) => d,
        Err(e) => panic!("{}", e.message()),
    }
}

#[test]
fn it_deserialize_usfm() {
    let result = deserialize_from_file_usfm(PSALM.to_string()).unwrap();
    let result_json: Value = serde_json::from_str(&result).unwrap();

    assert_eq!(result_json.get("version").unwrap(), "3.0");

    assert_eq!(result_json.get("content").unwrap()[0].get("code").unwrap(), "PSA");
    assert_eq!(result_json.get("content").unwrap()[2].get("marker").unwrap(), "sts");
    assert_eq!(result_json.get("content").unwrap()[11].get("content").unwrap()[2].get("default").unwrap(), "Man");
    assert_eq!(result_json.get("content").unwrap()[11].get("content").unwrap()[4].get("content").unwrap()[0].get("content").unwrap()[0], "does not");
    assert_eq!(result_json.get("content").unwrap()[13].get("content").unwrap()[6].get("x-occurrence").unwrap(), "1");
}

#[test]
fn test_deserialize_multiple_usfms() {
    let documents = [
        PSALM,
        "\\id GEN\n\\c 1\n\\p\n\\v 1 In the beginning\n",
        "\\id MAT Matthew\n\\usfm 3.0\n\\c 1\n\\p\n\\v 1 The book\\f + \\fr 1.1 \\ft a note\\f* of the genealogy\n",
        "",
    ];
    for document in documents {
        deserialize_from_file_usfm(document.to_string()).unwrap();
    }
}

#[test]
fn test_deserialize_multiple_usjs() {
    let documents = [
        PSALM,
        "\\id JHN\n\\c 3\n\\q1\n\\v 16 For God so loved\n\\q2 the world\n",
    ];
    for document in documents {
        deserialize_from_file(document.to_string()).unwrap();
    }
}

#[test]
#[should_panic]
fn fail_parse_usfm() {
    deserialize_from_file_usfm("\\id PSA\n\\zzqq foo\n".to_string()).unwrap();
}

#[test]
fn psalm_scenario_has_book_chapter_and_one_paragraph() {
    let d = build("\\id PSA Title\n\\c 1\n\\p\n\\v 1 Blessed is the \\w man|Man\\w* who walks.");
    assert_eq!(d.version, None);
    assert_eq!(d.content.len(), 3);

    let book = &d.content[0];
    assert_eq!(book.kind, NodeKind::Book);
    assert_eq!(book.marker, "id");
    assert_eq!(attribute(book, "code"), Some("PSA".to_string()));
    assert_eq!(book.content.len(), 1);
    assert_eq!(text_of(&book.content[0]), "Title");

    let chapter = &d.content[1];
    assert_eq!(chapter.kind, NodeKind::Chapter);
    assert_eq!(chapter.marker, "c");
    assert_eq!(attribute(chapter, "number"), Some("1".to_string()));

    let para = &d.content[2];
    assert_eq!(para.kind, NodeKind::Para);
    assert_eq!(para.marker, "p");
    assert_eq!(para.content.len(), 4);
    let verse = node_of(&para.content[0]);
    assert_eq!(verse.kind, NodeKind::Verse);
    assert_eq!(attribute(verse, "number"), Some("1".to_string()));
    assert_eq!(text_of(&para.content[1]), "Blessed is the ");
    let word = node_of(&para.content[2]);
    assert_eq!(word.kind, NodeKind::Char);
    assert_eq!(word.marker, "w");
    assert_eq!(attribute(word, "default"), Some("Man".to_string()));
    assert_eq!(word.content.len(), 1);
    assert_eq!(text_of(&word.content[0]), "man");
    assert_eq!(text_of(&para.content[3]), " who walks.");
}

#[test]
fn nested_spans_close_innermost_first() {
    let d = build("\\bd \\+it X \\+it*\\bd*");
    assert_eq!(d.content.len(), 1);
    let para = &d.content[0];
    assert_eq!(para.content.len(), 1);
    let bd = node_of(&para.content[0]);
    assert_eq!(bd.marker, "bd");
    assert!(!bd.nested);
    assert_eq!(bd.content.len(), 1);
    let it = node_of(&bd.content[0]);
    assert_eq!(it.kind, NodeKind::Char);
    assert_eq!(it.marker, "it");
    assert!(it.nested);
    assert_eq!(it.content.len(), 1);
    assert_eq!(text_of(&it.content[0]), "X ");
}

#[test]
fn spans_left_open_are_closed_into_each_other_at_the_end() {
    let d = build("\\p\n\\bd one \\+it two");
    let para = &d.content[0];
    let bd = node_of(&para.content[0]);
    assert_eq!(text_of(&bd.content[0]), "one ");
    let it = node_of(&bd.content[1]);
    assert_eq!(text_of(&it.content[0]), "two");
}

#[test]
fn a_span_without_the_nesting_sign_closes_the_open_spans() {
    let d = build("\\p\n\\bd one \\it two\\it*");
    let para = &d.content[0];
    assert_eq!(para.content.len(), 2);
    assert_eq!(node_of(&para.content[0]).marker, "bd");
    assert_eq!(node_of(&para.content[1]).marker, "it");
}

#[test]
fn milestone_pair_carries_its_attribute_once() {
    let d = build("\\zaln-s |x-strong=\"G1\"\\*text\\zaln-e\\*");
    assert_eq!(d.content.len(), 1);
    let items = &d.content[0].content;
    let mut milestones = 0;
    let mut carrying = 0;
    for item in items.iter() {
        if let Item::Node(n) = item {
            if n.kind == NodeKind::Milestone {
                milestones += 1;
                if attribute(n, "x-strong") == Some("G1".to_string()) {
                    carrying += 1;
                }
            }
        }
    }
    assert_eq!(carrying, 1);
    assert_eq!(milestones, 2);
    assert_eq!(node_of(&items[0]).marker, "zaln-s");
    assert_eq!(text_of(&items[1]), "text");
    assert_eq!(node_of(&items[2]).marker, "zaln-e");
    assert_eq!(node_of(&items[2]).attributes.len(), 0);
}

#[test]
fn an_end_marker_without_a_milestone_is_passed_over() {
    let d = build("\\p\nbefore\\*after");
    let para = &d.content[0];
    assert_eq!(para.content.len(), 2);
    assert_eq!(text_of(&para.content[0]), "before");
    assert_eq!(text_of(&para.content[1]), "after");
}

#[test]
fn a_whole_milestone_is_one_node() {
    let d = build("\\q\nAmen\n\\ts\\*\n");
    let para = &d.content[0];
    assert_eq!(text_of(&para.content[0]), "Amen");
    let ms = node_of(&para.content[1]);
    assert_eq!(ms.kind, NodeKind::Milestone);
    assert_eq!(ms.marker, "ts");
}

#[test]
fn unknown_marker_is_a_failure_with_the_name() {
    match build_document_from_tagstream("\\zzqq foo") {
        Err(UsfmError::UnknownMarker(name)) => assert_eq!(name, "zzqq"),
        Err(e) => panic!("another failure: {}", e.message()),
        Ok(_) => panic!("the unknown marker was passed through"),
    }
    let e = build_document_from_tagstream("\\zzqq foo").err().unwrap();
    assert_eq!(e.message(), "Tag not in the marker tables : zzqq");
}

#[test]
fn a_chapter_number_too_large_is_a_failure() {
    match build_document_from_tagstream("\\c 99999999999\n") {
        Err(UsfmError::MalformedNumber(text)) => assert_eq!(text, "99999999999"),
        Err(e) => panic!("another failure: {}", e.message()),
        Ok(_) => panic!("the number was accepted"),
    }
}

#[test]
fn a_level_with_a_span_of_columns_is_a_failure() {
    match build_document_from_tagstream("\\tr \\tc1-2 cell") {
        Err(UsfmError::MalformedNumber(text)) => assert_eq!(text, "1-2"),
        Err(e) => panic!("another failure: {}", e.message()),
        Ok(_) => panic!("the level was accepted"),
    }
}

#[test]
fn the_version_line_gives_the_version_and_no_node() {
    let d = build("\\id PSA Psalms\n\\usfm 3.0\n\\h Psalms\n");
    assert_eq!(d.version, Some("3.0".to_string()));
    assert_eq!(d.content.len(), 2);
    assert_eq!(d.content[0].kind, NodeKind::Book);
    assert_eq!(d.content[1].marker, "h");
    assert_eq!(text_of(&d.content[1].content[0]), "Psalms");
}

#[test]
fn a_level_other_than_one_is_part_of_the_marker() {
    let d = build("\\s Here\n\\s2 There\n\\toc1 Title\n");
    assert_eq!(d.content[0].marker, "s");
    assert_eq!(d.content[1].marker, "s2");
    assert_eq!(d.content[2].marker, "toc");
}

#[test]
fn same_marker_lines_stay_separate_paragraphs() {
    let d = build("\\q one\n\\q two\n");
    assert_eq!(d.content.len(), 2);
    assert_eq!(text_of(&d.content[0].content[0]), "one");
    assert_eq!(text_of(&d.content[1].content[0]), "two");
}

#[test]
fn a_chapter_closes_the_open_paragraph() {
    let d = build("\\p\nfirst\n\\c 2\n\\p\nsecond");
    assert_eq!(d.content.len(), 3);
    assert_eq!(d.content[0].kind, NodeKind::Para);
    assert_eq!(d.content[1].kind, NodeKind::Chapter);
    assert_eq!(attribute(&d.content[1], "number"), Some("2".to_string()));
    assert_eq!(text_of(&d.content[2].content[0]), "second");
}

#[test]
fn a_note_holds_its_spans_and_returns_to_the_paragraph() {
    let d = build("\\p\n\\v 1 word\\f + \\fr 1.1 \\ft note text\\f* after");
    let para = &d.content[0];
    assert_eq!(para.content.len(), 4);
    assert_eq!(text_of(&para.content[1]), "word");
    let note = node_of(&para.content[2]);
    assert_eq!(note.kind, NodeKind::Note);
    assert_eq!(note.marker, "f");
    assert_eq!(text_of(&note.content[0]), "+ ");
    assert_eq!(node_of(&note.content[1]).marker, "fr");
    assert_eq!(text_of(&node_of(&note.content[1]).content[0]), "1.1 ");
    assert_eq!(node_of(&note.content[2]).marker, "ft");
    assert_eq!(text_of(&node_of(&note.content[2]).content[0]), "note text");
    assert_eq!(text_of(&para.content[3]), " after");
}

#[test]
fn runs_of_blanks_in_text_become_one_space() {
    let d = build("\\p\none  \t two");
    assert_eq!(text_of(&d.content[0].content[0]), "one two");
}

#[test]
fn a_tilde_becomes_a_no_break_space() {
    let d = build("\\p\na~b");
    assert_eq!(text_of(&d.content[0].content[0]), "a\u{a0}b");
}

#[test]
fn pending_attributes_go_to_the_next_node() {
    let d = build("\\p\n\\bd bold|lemma=\"x\"\\bd*\\v 2 text");
    let para = &d.content[0];
    let bd = node_of(&para.content[0]);
    assert_eq!(bd.attributes.len(), 0);
    let verse = node_of(&para.content[1]);
    assert_eq!(attribute(verse, "lemma"), Some("x".to_string()));
    assert_eq!(attribute(verse, "number"), Some("2".to_string()));
}

#[test]
fn reserved_keys_are_kept_off_the_nodes() {
    let d = build("\\p\n\\w word|sid=\"a\" style=\"b\" strong=\"H1\"\\w*");
    let word = node_of(&d.content[0].content[0]);
    assert_eq!(attribute(word, "sid"), None);
    assert_eq!(attribute(word, "style"), None);
    assert_eq!(attribute(word, "strong"), Some("H1".to_string()));
}

#[test]
fn end_of_input_leaves_nothing_open() {
    let lexemes = tokenize("\\p\n\\v 1 text \\f + \\ft note \\bd bold").unwrap();
    let mut reader = UsfmReader::new();
    for lexeme in lexemes.iter() {
        reader.step(&lexeme.token);
    }
    assert!(reader.model.current_para.is_some());
    assert!(reader.model.note_stack.is_some());
    assert_eq!(reader.model.char_marker_stack.len(), 1);
    let mut txt = reader.txt;
    let mut model: AosjStringModel = reader.model;
    model.add_string_to_in_para(&mut txt);
    model.end_new_para();
    assert!(model.current_para.is_none());
    assert!(model.note_stack.is_none());
    assert_eq!(model.char_marker_stack.len(), 0);
    assert_eq!(txt, "");
    assert_eq!(model.paras.len(), 1);
}

#[test]
fn tokens_and_text_give_the_same_document() {
    let text = "\\id PSA Title\n\\c 1\n\\p\n\\v 1 Blessed";
    let lexemes = tokenize(text).unwrap();
    let from_tokens = build_document_from_tokens(&lexemes);
    let from_text = build(text);
    assert_eq!(from_tokens.to_json(), from_text.to_json());
}

#[test]
fn an_empty_text_is_an_empty_document() {
    let d = build("");
    assert_eq!(d.version, None);
    assert_eq!(d.content.len(), 0);
    assert_eq!(d.to_json(), "{ \"content\": [] }");
}

#[test]
fn the_line_per_verse_reader_gives_an_empty_document() {
    assert_eq!(deserialize_from_file_e_bible("anything".to_string()), "{ \"content\": [] }");
}

#[test]
fn the_attributes_of_a_node_have_distinct_keys_and_name_no_member() {
    let d = build("\\p\n\\w word|type=\"x\" marker=\"y\" content=\"z\" a=\"1\" a=\"2\" number=\"7\"\\w*\\v 3 text");
    let word = node_of(&d.content[0].content[0]);
    assert_eq!(attribute(word, "type"), None);
    assert_eq!(attribute(word, "marker"), None);
    assert_eq!(attribute(word, "content"), None);
    assert_eq!(attribute(word, "a"), Some("2".to_string()));
    assert_eq!(attribute(word, "number"), Some("7".to_string()));
    assert_eq!(word.attributes.len(), 2);
    let json: Value = serde_json::from_str(&d.to_json()).unwrap();
    assert_eq!(json.get("content").unwrap()[0].get("content").unwrap()[0].get("type").unwrap(), "char");
    assert_eq!(json.get("content").unwrap()[0].get("content").unwrap()[0].get("marker").unwrap(), "w");
}
