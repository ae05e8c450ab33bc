use scripture_formats::error::UsfmError;
use scripture_formats::lexer::find_category;
use scripture_formats::lexer::tokenize;
use scripture_formats::lexer::tokens_from_matches;
use scripture_formats::lexer::Lexeme;
use scripture_formats::markers::classify;
use scripture_formats::markers::table_contains;
use scripture_formats::markers::TagType;
use scripture_formats::markers::CHAR_MARKERS;
use scripture_formats::markers::NOTE_MARKERS;
use scripture_formats::markers::PARA_MARKERS;
use scripture_formats::token::make_attribute;
use scripture_formats::token::make_bad;
use scripture_formats::token::make_break;
use scripture_formats::token::make_chapter;
use scripture_formats::token::make_milestone;
use scripture_formats::token::make_printable;
use scripture_formats::token::make_pub_chapter;
use scripture_formats::token::make_tag;
use scripture_formats::token::make_verses;
use scripture_formats::token::read_attributes;
use scripture_formats::token::Category;
use scripture_formats::token::Token;

fn bits(parts: &[&str]) -> Vec<String> {
    parts.iter().map(|p| p.to_string()).collect()
}

fn sources(lexemes: &Vec<Lexeme>) -> String {
    let mut s = String::new();
    for l in lexemes.iter() {
        s.push_str(&l.source);
    }
    s
}

fn category(lexeme: &Lexeme) -> Category {
    match &lexeme.token {
        Token::Chapter(c) => c.subclass,
        Token::Verses(v) => v.subclass,
        Token::Attribute(a) => a.subclass,
        Token::PubChapter(p) => p.subclass,
        Token::Milestone(m) => m.subclass,
        Token::Tag(t) => t.subclass,
        Token::Printable(p) => p.subclass,
    }
}

#[test]
fn classify_asks_the_three_tables_and_the_book_marker() {
    assert_eq!(classify("p").ok(), Some(TagType::Paragraph));
    assert_eq!(classify("usfm").ok(), Some(TagType::Paragraph));
    assert_eq!(classify("toc").ok(), Some(TagType::Paragraph));
    assert_eq!(classify("w").ok(), Some(TagType::Character));
    assert_eq!(classify("bd").ok(), Some(TagType::Character));
    assert_eq!(classify("id").ok(), Some(TagType::Book));
    assert_eq!(classify("f").ok(), Some(TagType::Note));
    assert_eq!(classify("x").ok(), Some(TagType::Note));
}

#[test]
fn classify_refuses_an_unknown_name() {
    match classify("zzqq") {
        Err(UsfmError::UnknownMarker(name)) => assert_eq!(name, "zzqq"),
        _ => panic!("the name was accepted"),
    }
    assert!(classify("").is_err());
    assert!(classify("P").is_err());
}

#[test]
fn the_marker_tables_share_no_name() {
    for name in PARA_MARKERS.iter() {
        assert!(!table_contains(&CHAR_MARKERS, name), "{}", name);
        assert!(!table_contains(&NOTE_MARKERS, name), "{}", name);
        assert_ne!(*name, "id");
    }
    for name in CHAR_MARKERS.iter() {
        assert!(!table_contains(&NOTE_MARKERS, name), "{}", name);
        assert_ne!(*name, "id");
    }
}

#[test]
fn make_tag_reads_sign_level_and_type() {
    let t = make_tag(Category::StartTag, &bits(&["\\+it2 ", "\\+it2 ", "+it", "2", "", ""])).unwrap();
    assert_eq!(t.subclass, Category::StartTag);
    assert_eq!(t.tag_name, "it");
    assert!(t.is_nested);
    assert_eq!(t.tag_level, 2);
    assert_eq!(t.full_tag_name, "it2");
    assert_eq!(t.tag_type, TagType::Character);
}

#[test]
fn make_tag_takes_level_one_where_none_is_written() {
    let t = make_tag(Category::StartTag, &bits(&["\\q ", "\\q ", "q", "", "", ""])).unwrap();
    assert_eq!(t.tag_level, 1);
    assert_eq!(t.full_tag_name, "q");
    assert!(!t.is_nested);
    assert_eq!(t.tag_type, TagType::Paragraph);
}

#[test]
fn make_tag_leaves_a_written_level_one_out_of_the_full_name() {
    let t = make_tag(Category::EndTag, &bits(&["\\toc1*", "\\toc1*", "toc", "1", "", ""])).unwrap();
    assert_eq!(t.tag_level, 1);
    assert_eq!(t.full_tag_name, "toc");
    assert_eq!(t.subclass, Category::EndTag);
}

#[test]
fn make_tag_reports_the_level_before_the_name() {
    match make_tag(Category::StartTag, &bits(&["", "", "zzqq", "1-2", "", ""])) {
        Err(UsfmError::MalformedNumber(text)) => assert_eq!(text, "1-2"),
        _ => panic!("expected the failure of the level"),
    }
    match make_tag(Category::StartTag, &bits(&["", "", "+zzqq", "3", "", ""])) {
        Err(UsfmError::UnknownMarker(name)) => assert_eq!(name, "zzqq"),
        _ => panic!("expected the failure of the name"),
    }
}

#[test]
fn make_chapter_keeps_the_text_and_the_value() {
    let c = make_chapter(Category::Chapter, &bits(&["\\c 12\n", "\\c 12\n", "12"])).unwrap();
    assert_eq!(c.number_string, "12");
    assert_eq!(c.number, 12);
    assert_eq!(c.subclass, Category::Chapter);
    match make_chapter(Category::Chapter, &bits(&["", "", "٣"])) {
        Err(UsfmError::MalformedNumber(text)) => assert_eq!(text, "٣"),
        _ => panic!("the number was accepted"),
    }
}

#[test]
fn make_verses_and_pub_chapter_keep_the_text() {
    let v = make_verses(Category::Verses, &bits(&["\\v 1-3 ", "\\v 1-3 ", "1-3"]));
    assert_eq!(v.number_string, "1-3");
    let p = make_pub_chapter(Category::PubChapter, &bits(&["\\cp A\n", "\\cp A\n", "A"]));
    assert_eq!(p.number_string, "A");
}

#[test]
fn make_attribute_trims_and_turns_slashes_into_plus() {
    let a = make_attribute(Category::Attribute, &bits(&["", "", "x-morph", " Gr/N ", ""]));
    assert_eq!(a.key, "x-morph");
    assert_eq!(a.value_string, "Gr+N");
    let d = make_attribute(Category::DefaultAttribute, &bits(&["|Man ", "|Man ", "Man "]));
    assert_eq!(d.key, "default");
    assert_eq!(d.value_string, "Man");
    assert_eq!(d.subclass, Category::DefaultAttribute);
}

#[test]
fn make_printable_turns_tildes_into_no_break_spaces() {
    let p = make_printable(Category::NoBreakSpace, &bits(&["~", "~"]));
    assert_eq!(p.print_value, "\u{a0}");
    let q = make_printable(Category::Quote, &bits(&["\"", "\""]));
    assert_eq!(q.print_value, "\"");
    let b = make_break(Category::Eol, &bits(&[" \n", " \n"]));
    assert_eq!(b.print_value, " \n");
    assert_eq!(b.subclass, Category::Eol);
    let bad = make_bad(Category::Unknown, &bits(&["\u{1}", "\u{1}"]));
    assert_eq!(bad.print_value, "\u{1}");
}

#[test]
fn make_milestone_reads_name_side_and_attributes() {
    let start = make_milestone(Category::StartMilestoneTag, &bits(&["\\zaln-s", "\\zaln-s", "zaln", "s"]));
    assert_eq!(start.tag_name, Some("zaln".to_string()));
    assert_eq!(start.s_or_e, Some("s".to_string()));
    assert_eq!(start.attributes.len(), 0);

    let end = make_milestone(Category::EndMilestoneTag, &bits(&["\\*", "\\*", "*"]));
    assert_eq!(end.tag_name, None);
    assert_eq!(end.s_or_e, None);

    let whole = make_milestone(Category::EmptyMilestone, &bits(&["\\ts\\*", "\\ts|a=\"1\"|bad|b=2\\*", "ts"]));
    assert_eq!(whole.tag_name, Some("ts".to_string()));
    assert_eq!(whole.s_or_e, None);
    assert_eq!(whole.attributes.len(), 2);
    assert_eq!(whole.attributes.get("a"), Some("1".to_string()));
    assert_eq!(whole.attributes.get("b"), Some("2".to_string()));

    let short = make_milestone(Category::EmptyMilestone, &bits(&["x"]));
    assert_eq!(short.tag_name, None);
    assert_eq!(short.attributes.len(), 0);
}

#[test]
fn read_attributes_passes_over_the_first_part_and_parts_without_one_equals_sign() {
    let a = read_attributes("k=v|x=\"y\"|z|p=q=r|s=*t\\");
    assert_eq!(a.len(), 2);
    assert_eq!(a.key_at(0), "x");
    assert_eq!(a.value_at(0), "y");
    assert_eq!(a.key_at(1), "s");
    assert_eq!(a.value_at(1), "t");
    assert_eq!(read_attributes("").len(), 0);
}

#[test]
fn the_category_of_a_match_is_the_first_whose_group_took_part() {
    let mut groups: Vec<Option<String>> = vec![None; 38];
    groups[0] = Some("x".to_string());
    assert_eq!(find_category(&groups), Category::Unknown);
    groups[34] = Some("x".to_string());
    assert_eq!(find_category(&groups), Category::WordLike);
    groups[5] = Some("\\v 1 ".to_string());
    assert_eq!(find_category(&groups), Category::Verses);
    assert_eq!(find_category(&Vec::new()), Category::Unknown);
}

#[test]
fn every_character_lies_in_exactly_one_token() {
    let texts = [
        "\\id PSA Title\n\\c 1\n\\p\n\\v 1 Blessed is the \\w man|Man\\w* who walks.",
        "plain text, with punctuation! «quoted» ~ // \\ \"",
        "\u{1}\u{7f}\u{200b}\u{2028}x\u{e000}",
        "\\zaln-s |x-strong=\"G1\"\\*text\\zaln-e\\*",
        "",
        "   \n\n  \t",
    ];
    for text in texts {
        let lexemes = tokenize(text).unwrap();
        assert_eq!(sources(&lexemes), text);
        for l in lexemes.iter() {
            assert!(!l.source.is_empty());
        }
    }
}

#[test]
fn earlier_categories_claim_their_text_first() {
    let lexemes = tokenize("\\c 1\n\\cp A\n\\v 2 \\p \\ts\\*\\x-s\\*\\bd*~//a b.\"\\").unwrap();
    let found: Vec<Category> = lexemes.iter().map(category).collect();
    assert_eq!(
        found,
        vec![
            Category::Chapter,
            Category::PubChapter,
            Category::Verses,
            Category::StartTag,
            Category::EmptyMilestone,
            Category::StartMilestoneTag,
            Category::EndMilestoneTag,
            Category::EndTag,
            Category::NoBreakSpace,
            Category::SoftLinebreak,
            Category::WordLike,
            Category::LineSpace,
            Category::WordLike,
            Category::Punctuation,
            Category::Quote,
            Category::BareSlash,
        ]
    );
    assert_eq!(lexemes[0].source, "\\c 1\n");
    assert_eq!(lexemes[3].source, "\\p ");
}

#[test]
fn a_match_that_does_not_stand_at_the_position_is_not_taken() {
    let mut first: Vec<Option<String>> = vec![None; 38];
    first[0] = Some("b".to_string());
    first[34] = Some("b".to_string());
    let lexemes = tokens_from_matches("ab", &vec![first]).ok().unwrap();
    assert_eq!(lexemes.len(), 2);
    assert_eq!(lexemes[0].source, "a");
    assert_eq!(category(&lexemes[0]), Category::Unknown);
    assert_eq!(lexemes[1].source, "b");
    assert_eq!(category(&lexemes[1]), Category::WordLike);
}

#[test]
fn text_without_matches_becomes_one_token_per_character() {
    let lexemes = tokens_from_matches("a~", &Vec::new()).ok().unwrap();
    assert_eq!(lexemes.len(), 2);
    match &lexemes[1].token {
        Token::Printable(p) => assert_eq!(p.print_value, "\u{a0}"),
        _ => panic!("expected a printable"),
    }
    assert_eq!(lexemes[1].source, "~");
}

#[test]
fn an_unknown_tag_ends_the_tokenizing() {
    match tokenize("\\p text \\zzqq more") {
        Err(UsfmError::UnknownMarker(name)) => assert_eq!(name, "zzqq"),
        _ => panic!("the tag was accepted"),
    }
}

#[test]
fn the_headers_of_a_tag_stream_give_their_attributes() {
    let a = scripture_formats::headers::extract_usfm_attributes("\\id PSA Psalms\n\\ide UTF-8\n\\h The Psalms\n\\toc1 The Book of Psalms\n\\toc2 Psalms\n");
    assert_eq!(a.get("marker"), Some("h".to_string()));
    assert_eq!(a.get("code"), Some("PSA".to_string()));
    assert_eq!(a.get("encoding"), Some("UTF".to_string()));
    assert_eq!(a.get("title"), Some("The Psalms".to_string()));
    assert_eq!(a.get("toc1"), Some("The Book of Psalms".to_string()));
    assert_eq!(a.get("toc2"), None);
    assert_eq!(a.len(), 5);
    assert_eq!(scripture_formats::headers::extract_usfm_attributes("nothing here").len(), 0);
}

#[test]
fn the_attributes_of_headers_follow_the_matches_given() {
    let id = Some(vec![Some("\\id GEN".to_string()), Some("GEN".to_string())]);
    let toc = Some(vec![Some("\\toc3 Gen".to_string()), Some("3".to_string()), None]);
    let a = scripture_formats::headers::attributes_of_headers(&id, &None, &None, &toc);
    assert_eq!(a.len(), 3);
    assert_eq!(a.get("marker"), Some("id".to_string()));
    assert_eq!(a.get("code"), Some("GEN".to_string()));
    assert_eq!(a.get("toc3"), Some("".to_string()));
    assert_eq!(scripture_formats::headers::first_of("(b)(c)?", "abc"), Some(vec![Some("bc".to_string()), Some("b".to_string()), Some("c".to_string())]));
    assert_eq!(scripture_formats::headers::first_of("x", "abc"), None);
    assert_eq!(scripture_formats::headers::first_of("(", "abc"), None);
}
