use scripture_formats::model::index_items;
use scripture_formats::model::BookObject;
use scripture_formats::model::CellObject;
use scripture_formats::model::ChapterObject;
use scripture_formats::model::CharMarkerObject;
use scripture_formats::model::Content;
use scripture_formats::model::FigureObject;
use scripture_formats::model::InParaObject;
use scripture_formats::model::MilestoneObject;
use scripture_formats::model::NoteObject;
use scripture_formats::model::ParaMarkerObject;
use scripture_formats::model::Root;
use scripture_formats::model::RowObject;
use scripture_formats::model::SidebarObject;
use scripture_formats::model::TableObject;
use scripture_formats::model::VerseObject;

fn verse(number: &str) -> VerseObject {
    VerseObject { index: 99, marker: "v".to_string(), number: number.to_string(), altnumber: None, pubnumber: None }
}

fn milestone(index: usize) -> MilestoneObject {
    MilestoneObject { index, marker: "ts".to_string(), who: None, additional_properties: None }
}

fn figure(index: usize) -> FigureObject {
    FigureObject { index, marker: "fig".to_string(), content: None, file: None, size: None, reference: None }
}

fn span(content: Option<Vec<InParaObject>>) -> CharMarkerObject {
    CharMarkerObject { index: 99, marker: "bd".to_string(), content, link_id: None, link_href: None, srcloc: None, strong: None }
}

fn note(index: usize, content: Option<Vec<InParaObject>>) -> NoteObject {
    NoteObject { index, marker: "f".to_string(), content, caller: Some("+".to_string()) }
}

fn text(s: &str) -> InParaObject {
    InParaObject::String(s.to_string())
}

fn para(marker: &str, content: Option<Vec<InParaObject>>) -> ParaMarkerObject {
    ParaMarkerObject { index: 99, marker: marker.to_string(), content }
}

fn cell(content: Option<Vec<InParaObject>>) -> CellObject {
    CellObject { index: 77, marker: "tc".to_string(), content, align: None, colspan: Some(2) }
}

#[test]
fn a_verse_counts_the_characters_of_its_number() {
    let mut v = verse("12-13");
    v.init_index();
    assert_eq!(v.index, 5);
    assert_eq!(v.number, "12-13");
    assert_eq!(v.get_index(), 5);
}

#[test]
fn a_chapter_counts_the_characters_of_its_number() {
    let mut c = ChapterObject { index: 0, marker: "c".to_string(), number: "١٢٣".to_string(), altnumber: None, pubnumber: None };
    c.init_index();
    assert_eq!(c.index, 3);
}

#[test]
fn milestones_and_figures_count_for_nothing() {
    let mut m = milestone(7);
    m.init_index();
    assert_eq!(m.index, 0);
    let mut f = figure(7);
    f.init_index();
    assert_eq!(f.index, 0);
}

#[test]
fn a_book_counts_the_characters_of_its_texts() {
    let mut b = BookObject { index: 0, marker: "id".to_string(), code: "PSA".to_string(), content: Some(vec!["Psalms".to_string(), "é∀".to_string()]) };
    b.init_index();
    assert_eq!(b.index, 8);
    assert_eq!(b.get().code, "PSA");
    let mut empty = BookObject { index: 5, marker: "id".to_string(), code: "PSA".to_string(), content: None };
    empty.init_index();
    assert_eq!(empty.index, 0);
}

#[test]
fn a_paragraph_sums_its_items() {
    let mut p = para(
        "p",
        Some(vec![
            InParaObject::Verse(verse("10")),
            text("abc"),
            InParaObject::Char(span(Some(vec![text("de"), InParaObject::Milestone(milestone(9))]))),
            InParaObject::Milestone(milestone(4)),
            InParaObject::Figure(figure(5)),
            InParaObject::Note(note(6, Some(vec![text("ignored")]))),
        ]),
    );
    p.init_index();
    assert_eq!(p.index, 2 + 3 + 2 + 4 + 5 + 6);
    let items = p.content.as_ref().unwrap();
    match &items[0] {
        InParaObject::Verse(v) => assert_eq!(v.index, 2),
        _ => panic!("expected a verse"),
    }
    match &items[2] {
        InParaObject::Char(c) => {
            assert_eq!(c.index, 2);
            match &c.content.as_ref().unwrap()[1] {
                InParaObject::Milestone(m) => assert_eq!(m.index, 0),
                _ => panic!("expected a milestone"),
            }
        }
        _ => panic!("expected a span"),
    }
    match &items[3] {
        InParaObject::Milestone(m) => assert_eq!(m.index, 4),
        _ => panic!("expected a milestone"),
    }
    match &items[5] {
        InParaObject::Note(n) => assert_eq!(n.index, 6),
        _ => panic!("expected a note"),
    }
}

#[test]
fn a_blank_line_counts_for_one() {
    let mut blank = para("b", None);
    blank.init_index();
    assert_eq!(blank.index, 1);
    let mut with_content = para("b", Some(vec![text("xy")]));
    with_content.init_index();
    assert_eq!(with_content.index, 2);
    let mut other = para("p", None);
    other.init_index();
    assert_eq!(other.index, 0);
}

#[test]
fn a_span_computes_the_notes_in_it() {
    let mut c = span(Some(vec![
        text("ab"),
        InParaObject::Note(note(50, Some(vec![text("xyz"), InParaObject::Figure(figure(4))]))),
        InParaObject::Figure(figure(8)),
        InParaObject::Char(span(None)),
    ]));
    c.init_index();
    assert_eq!(c.index, 2 + 7);
    match &c.content.as_ref().unwrap()[1] {
        InParaObject::Note(n) => assert_eq!(n.index, 7),
        _ => panic!("expected a note"),
    }
    match &c.content.as_ref().unwrap()[2] {
        InParaObject::Figure(f) => assert_eq!(f.index, 0),
        _ => panic!("expected a figure"),
    }
}

#[test]
fn a_note_sums_its_items() {
    let mut n = note(0, Some(vec![text("abc"), InParaObject::Verse(verse("7")), InParaObject::Note(note(3, None))]));
    n.init_index();
    assert_eq!(n.index, 3 + 1 + 3);
    assert_eq!(n.caller, Some("+".to_string()));
}

#[test]
fn index_items_returns_the_weight() {
    let mut items = vec![text("abcd"), InParaObject::Verse(verse("1"))];
    assert_eq!(index_items(&mut items), 5);
    assert_eq!(index_items(&mut Vec::new()), 0);
}

#[test]
fn cells_rows_and_tables_sum_the_items_of_their_cells() {
    let mut c = cell(Some(vec![text("abc"), InParaObject::Verse(verse("12"))]));
    c.init_index();
    assert_eq!(c.index, 5);
    assert_eq!(c.colspan, Some(2));

    let mut row = RowObject {
        index: 0,
        marker: "tr".to_string(),
        content: Some(vec![cell(Some(vec![text("ab")])), cell(None), cell(Some(vec![InParaObject::Verse(verse("3"))]))]),
    };
    row.init_index();
    assert_eq!(row.index, 3);
    assert_eq!(row.content.as_ref().unwrap()[0].index, 77);
    match &row.content.as_ref().unwrap()[2].content.as_ref().unwrap()[0] {
        InParaObject::Verse(v) => assert_eq!(v.index, 1),
        _ => panic!("expected a verse"),
    }

    let mut table = TableObject {
        index: 0,
        marker: "table".to_string(),
        content: Some(vec![
            RowObject { index: 11, marker: "tr".to_string(), content: Some(vec![cell(Some(vec![text("abcd")]))]) },
            RowObject { index: 12, marker: "tr".to_string(), content: None },
            RowObject { index: 13, marker: "tr".to_string(), content: Some(vec![cell(Some(vec![text("e")])), cell(Some(vec![text("fg")]))]) },
        ]),
    };
    table.init_index();
    assert_eq!(table.index, 7);
    assert_eq!(table.content.as_ref().unwrap()[0].index, 11);
    let mut none = TableObject { index: 3, marker: "table".to_string(), content: None };
    none.init_index();
    assert_eq!(none.index, 0);
}

#[test]
fn a_sidebar_sums_the_items_of_its_paragraphs() {
    let mut s = SidebarObject {
        index: 0,
        marker: "esb".to_string(),
        content: Some(vec![para("p", Some(vec![text("abc")])), para("b", None), para("q", Some(vec![InParaObject::Verse(verse("1"))]))]),
        category: Some("people".to_string()),
    };
    s.init_index();
    assert_eq!(s.index, 4);
    assert_eq!(s.content.as_ref().unwrap()[0].index, 99);
    let mut b = SidebarObject { index: 0, marker: "b".to_string(), content: Some(vec![para("p", Some(vec![text("ab")]))]), category: None };
    b.init_index();
    assert_eq!(b.index, 3);
    let mut e = SidebarObject { index: 9, marker: "b".to_string(), content: None, category: None };
    e.init_index();
    assert_eq!(e.index, 1);
}

#[test]
fn a_root_takes_books_and_a_version() {
    let mut root = Root { kind: "USJ".to_string(), version: "0.0".to_string(), content: Vec::new() };
    root.set_version("3.0");
    root.add_book(BookObject { index: 0, marker: "id".to_string(), code: "GEN".to_string(), content: None });
    assert_eq!(root.version, "3.0");
    assert_eq!(root.kind, "USJ");
    assert_eq!(root.content.len(), 1);
    match &root.content[0] {
        Content::Book(b) => assert_eq!(b.code, "GEN"),
        _ => panic!("expected a book"),
    }
}
