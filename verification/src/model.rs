//! The typed objects of a document and their indices.
//!
//! Every object has an index: a measure of the text it holds, counted in characters.
//! `init_index` computes the index of an object from its content, after computing the
//! indices of the verses and character spans in it. What `init_index` leaves of an
//! object is stated as a relation between the object before and the object after.

use vstd::prelude::*;
use vstd::string::StrSliceExecFns;
use crate::attributes::AttributeMap;
use crate::text::copy_str;
use crate::text::str_eq;

verus! {

/// What a paragraph, a note, a cell or a character span can hold.
pub enum InParaObject {
    Verse(VerseObject),
    Char(CharMarkerObject),
    Milestone(MilestoneObject),
    Figure(FigureObject),
    Note(NoteObject),
    String(String),
}

/// What a document can hold at its top level.
pub enum Content {
    Book(BookObject),
    Chapter(ChapterObject),
    Para(ParaMarkerObject),
    Table(TableObject),
    Sidebar(SidebarObject),
}

/// A verse marker.
pub struct VerseObject {
    pub index: usize,
    pub marker: String,
    pub number: String,
    pub altnumber: Option<String>,
    pub pubnumber: Option<String>,
}

/// A chapter marker.
pub struct ChapterObject {
    pub index: usize,
    pub marker: String,
    pub number: String,
    pub altnumber: Option<String>,
    pub pubnumber: Option<String>,
}

/// A milestone.
pub struct MilestoneObject {
    pub index: usize,
    pub marker: String,
    pub who: Option<String>,
    pub additional_properties: Option<AttributeMap>,
}

/// A figure.
pub struct FigureObject {
    pub index: usize,
    pub marker: String,
    pub content: Option<Vec<String>>,
    pub file: Option<String>,
    pub size: Option<String>,
    pub reference: Option<String>,
}

/// A character span.
pub struct CharMarkerObject {
    pub index: usize,
    pub marker: String,
    pub content: Option<Vec<InParaObject>>,
    pub link_id: Option<String>,
    pub link_href: Option<String>,
    pub srcloc: Option<String>,
    pub strong: Option<String>,
}

/// A note.
pub struct NoteObject {
    pub index: usize,
    pub marker: String,
    pub content: Option<Vec<InParaObject>>,
    pub caller: Option<String>,
}

/// A paragraph.
pub struct ParaMarkerObject {
    pub index: usize,
    pub marker: String,
    pub content: Option<Vec<InParaObject>>,
}

/// A cell of a table.
pub struct CellObject {
    pub index: usize,
    pub marker: String,
    pub content: Option<Vec<InParaObject>>,
    pub align: Option<String>,
    pub colspan: Option<usize>,
}

/// A row of a table.
pub struct RowObject {
    pub index: usize,
    pub marker: String,
    pub content: Option<Vec<CellObject>>,
}

/// A table.
pub struct TableObject {
    pub index: usize,
    pub marker: String,
    pub content: Option<Vec<RowObject>>,
}

/// A sidebar.
pub struct SidebarObject {
    pub index: usize,
    pub marker: String,
    pub content: Option<Vec<ParaMarkerObject>>,
    pub category: Option<String>,
}

/// The identification of a book.
pub struct BookObject {
    pub index: usize,
    pub marker: String,
    pub code: String,
    pub content: Option<Vec<String>>,
}

/// The root of a document.
pub struct Root {
    pub kind: String,
    pub version: String,
    pub content: Vec<Content>,
}

/// One object of each kind.
pub struct Model {
    pub book: BookObject,
    pub chapter: ChapterObject,
    pub para: ParaMarkerObject,
    pub table: TableObject,
    pub sidebar: SidebarObject,
    pub verse: VerseObject,
    pub char: CharMarkerObject,
    pub milestone: MilestoneObject,
    pub figure: FigureObject,
    pub note: NoteObject,
    pub string: String,
}

/// The items of an optional content: none where there is no content.
pub open spec fn items_of(content: Option<Vec<InParaObject>>) -> Seq<InParaObject> {
    match content {
        Some(v) => v@,
        None => Seq::empty(),
    }
}

/// What an item counts for inside a paragraph, a note or a cell: a text its
/// characters, a verse the characters of its number, a character span its weight, and
/// a milestone, figure or note the index it holds.
pub open spec fn item_weight(it: InParaObject) -> nat
    decreases it,
{
    match it {
        InParaObject::String(s) => s@.len(),
        InParaObject::Verse(v) => v.number@.len(),
        InParaObject::Char(c) => char_weight(c),
        InParaObject::Milestone(ms) => ms.index as nat,
        InParaObject::Figure(f) => f.index as nat,
        InParaObject::Note(n) => n.index as nat,
    }
}

/// What an item counts for inside a character span: as inside a paragraph, but a
/// milestone and a figure count for nothing and a note for its weight.
pub open spec fn inner_item_weight(it: InParaObject) -> nat
    decreases it,
{
    match it {
        InParaObject::String(s) => s@.len(),
        InParaObject::Verse(v) => v.number@.len(),
        InParaObject::Char(c) => char_weight(c),
        InParaObject::Milestone(ms) => 0,
        InParaObject::Figure(f) => 0,
        InParaObject::Note(n) => note_weight(n),
    }
}

/// The sum of what the items count for inside a paragraph, a note or a cell.
pub open spec fn items_weight(v: Seq<InParaObject>) -> nat
    decreases v,
{
    if v.len() == 0 {
        0
    } else {
        items_weight(v.drop_last()) + item_weight(v.last())
    }
}

/// The sum of what the items count for inside a character span.
pub open spec fn inner_items_weight(v: Seq<InParaObject>) -> nat
    decreases v,
{
    if v.len() == 0 {
        0
    } else {
        inner_items_weight(v.drop_last()) + inner_item_weight(v.last())
    }
}

/// The weight of a character span.
pub open spec fn char_weight(c: CharMarkerObject) -> nat
    decreases c,
{
    match c.content {
        Some(v) => inner_items_weight(v@),
        None => 0,
    }
}

/// The weight of a note.
pub open spec fn note_weight(n: NoteObject) -> nat
    decreases n,
{
    match n.content {
        Some(v) => items_weight(v@),
        None => 0,
    }
}

/// A verse after its index was computed.
pub open spec fn verse_indexed(a: VerseObject, b: VerseObject) -> bool {
    b == (VerseObject { index: a.number@.len() as usize, ..a })
}

/// An item of a paragraph, a note or a cell after the indices in it were computed:
/// a verse and a character span are indexed, anything else is as before.
pub open spec fn item_indexed(a: InParaObject, b: InParaObject) -> bool
    decreases a,
{
    match a {
        InParaObject::Verse(v) => b is Verse && verse_indexed(v, b->Verse_0),
        InParaObject::Char(c) => b is Char && char_indexed(c, b->Char_0),
        _ => b == a,
    }
}

/// An item of a character span after the indices in it were computed: a verse, a
/// character span and a note are indexed, a milestone and a figure get the index 0,
/// and a text is as before.
pub open spec fn inner_item_indexed(a: InParaObject, b: InParaObject) -> bool
    decreases a,
{
    match a {
        InParaObject::Verse(v) => b is Verse && verse_indexed(v, b->Verse_0),
        InParaObject::Char(c) => b is Char && char_indexed(c, b->Char_0),
        InParaObject::Milestone(ms) => b == InParaObject::Milestone(
            MilestoneObject { index: 0, ..ms },
        ),
        InParaObject::Figure(f) => b == InParaObject::Figure(FigureObject { index: 0, ..f }),
        InParaObject::Note(n) => b is Note && note_indexed(n, b->Note_0),
        InParaObject::String(s) => b == a,
    }
}

/// The items of a paragraph, a note or a cell after the indices in them were computed.
pub open spec fn items_indexed(a: Seq<InParaObject>, b: Seq<InParaObject>) -> bool
    decreases a,
{
    &&& b.len() == a.len()
    &&& forall|i: int| 0 <= i < a.len() ==> item_indexed(#[trigger] a[i], b[i])
}

/// The items of a character span after the indices in them were computed.
pub open spec fn inner_items_indexed(a: Seq<InParaObject>, b: Seq<InParaObject>) -> bool
    decreases a,
{
    &&& b.len() == a.len()
    &&& forall|i: int| 0 <= i < a.len() ==> inner_item_indexed(#[trigger] a[i], b[i])
}

/// An optional content after the indices in it were computed.
pub open spec fn content_indexed(
    a: Option<Vec<InParaObject>>,
    b: Option<Vec<InParaObject>>,
) -> bool
    decreases a,
{
    match a {
        Some(v) => b is Some && items_indexed(v@, b->0@),
        None => b is None,
    }
}

/// A character span after its index was computed: the index is the weight, the
/// content is indexed, and everything else is as before.
pub open spec fn char_indexed(a: CharMarkerObject, b: CharMarkerObject) -> bool
    decreases a,
{
    &&& b.index == char_weight(a)
    &&& b.marker == a.marker
    &&& b.link_id == a.link_id
    &&& b.link_href == a.link_href
    &&& b.srcloc == a.srcloc
    &&& b.strong == a.strong
    &&& match a.content {
        Some(v) => b.content is Some && inner_items_indexed(v@, b.content->0@),
        None => b.content is None,
    }
}

/// A note after its index was computed.
pub open spec fn note_indexed(a: NoteObject, b: NoteObject) -> bool
    decreases a,
{
    &&& b.index == note_weight(a)
    &&& b.marker == a.marker
    &&& b.caller == a.caller
    &&& match a.content {
        Some(v) => b.content is Some && items_indexed(v@, b.content->0@),
        None => b.content is None,
    }
}

/// The weight of a prefix grows by the weight of the next item, and no prefix weighs
/// more than the whole.
pub proof fn lemma_items_weight_step(v: Seq<InParaObject>, i: int)
    requires
        0 <= i < v.len(),
    ensures
        items_weight(v.take(i + 1)) == items_weight(v.take(i)) + item_weight(v[i]),
        items_weight(v.take(i + 1)) <= items_weight(v),
    decreases v.len() - i,
{
    assert(v.take(i + 1).drop_last() == v.take(i));
    assert(v.take(i + 1).last() == v[i]);
    if i + 1 < v.len() {
        lemma_items_weight_step(v, i + 1);
    } else {
        assert(v.take(i + 1) == v);
    }
}

/// The same, for the weight inside a character span.
pub proof fn lemma_inner_items_weight_step(v: Seq<InParaObject>, i: int)
    requires
        0 <= i < v.len(),
    ensures
        inner_items_weight(v.take(i + 1)) == inner_items_weight(v.take(i)) + inner_item_weight(
            v[i],
        ),
        inner_items_weight(v.take(i + 1)) <= inner_items_weight(v),
    decreases v.len() - i,
{
    assert(v.take(i + 1).drop_last() == v.take(i));
    assert(v.take(i + 1).last() == v[i]);
    if i + 1 < v.len() {
        lemma_inner_items_weight_step(v, i + 1);
    } else {
        assert(v.take(i + 1) == v);
    }
}

/// Computes the indices of the verses and character spans among `items` and returns
/// the weight of the items.
pub fn index_items(items: &mut Vec<InParaObject>) -> (tot: usize)
    requires
        items_weight(old(items)@) <= usize::MAX,
    ensures
        tot == items_weight(old(items)@),
        items_indexed(old(items)@, final(items)@),
    decreases old(items)@,
{
    let mut tot: usize = 0;
    let mut i: usize = 0;
    let n = items.len();
    proof {
        assert(items@.take(0) == Seq::<InParaObject>::empty());
    }
    while i < n
        invariant
            i <= n,
            n == items@.len(),
            items@.len() == old(items)@.len(),
            tot == items_weight(old(items)@.take(i as int)),
            forall|j: int| 0 <= j < i ==> item_indexed(#[trigger] old(items)@[j], items@[j]),
            forall|j: int| i <= j < n ==> items@[j] == old(items)@[j],
            items_weight(old(items)@) <= usize::MAX,
        decreases n - i,
    {
        proof {
            lemma_items_weight_step(old(items)@, i as int);
        }
        let ghost before = items@;
        match &mut items[i] {
            InParaObject::String(st) => {
                tot = tot + st.as_str().unicode_len();
            },
            InParaObject::Verse(verse) => {
                verse.init_index();
                tot = tot + verse.index;
            },
            InParaObject::Char(c) => {
                c.init_index();
                tot = tot + c.index;
            },
            InParaObject::Milestone(ms) => {
                tot = tot + ms.index;
            },
            InParaObject::Figure(fig) => {
                tot = tot + fig.index;
            },
            InParaObject::Note(nt) => {
                tot = tot + nt.index;
            },
        }
        assert(items@.len() == before.len());
        assert(forall|j: int| 0 <= j < n && j != i ==> items@[j] == before[j]);
        i = i + 1;
    }
    proof {
        assert(old(items)@.take(n as int) == old(items)@);
    }
    tot
}

/// Computes the indices of everything among the items of a character span and
/// returns the weight of the items.
pub fn index_inner_items(items: &mut Vec<InParaObject>) -> (tot: usize)
    requires
        inner_items_weight(old(items)@) <= usize::MAX,
    ensures
        tot == inner_items_weight(old(items)@),
        inner_items_indexed(old(items)@, final(items)@),
    decreases old(items)@,
{
    let mut tot: usize = 0;
    let mut i: usize = 0;
    let n = items.len();
    proof {
        assert(items@.take(0) == Seq::<InParaObject>::empty());
    }
    while i < n
        invariant
            i <= n,
            n == items@.len(),
            items@.len() == old(items)@.len(),
            tot == inner_items_weight(old(items)@.take(i as int)),
            forall|j: int| 0 <= j < i ==> inner_item_indexed(#[trigger] old(items)@[j], items@[j]),
            forall|j: int| i <= j < n ==> items@[j] == old(items)@[j],
            inner_items_weight(old(items)@) <= usize::MAX,
        decreases n - i,
    {
        proof {
            lemma_inner_items_weight_step(old(items)@, i as int);
        }
        let ghost before = items@;
        match &mut items[i] {
            InParaObject::String(st) => {
                tot = tot + st.as_str().unicode_len();
            },
            InParaObject::Verse(verse) => {
                verse.init_index();
                tot = tot + verse.index;
            },
            InParaObject::Char(c) => {
                c.init_index();
                tot = tot + c.index;
            },
            InParaObject::Milestone(ms) => {
                ms.init_index();
                tot = tot + ms.index;
            },
            InParaObject::Figure(fig) => {
                fig.init_index();
                tot = tot + fig.index;
            },
            InParaObject::Note(nt) => {
                nt.init_index();
                tot = tot + nt.index;
            },
        }
        assert(items@.len() == before.len());
        assert(forall|j: int| 0 <= j < n && j != i ==> items@[j] == before[j]);
        i = i + 1;
    }
    proof {
        assert(old(items)@.take(n as int) == old(items)@);
    }
    tot
}

impl VerseObject {
    /// Sets the index to the number of characters of the verse number.
    pub fn init_index(&mut self)
        ensures
            verse_indexed(*old(self), *final(self)),
    {
        self.index = self.number.as_str().unicode_len();
    }

    /// The index of the verse.
    pub fn get_index(self) -> (i: usize)
        ensures
            i == self.index,
    {
        self.index
    }
}

impl ChapterObject {
    /// Sets the index to the number of characters of the chapter number.
    pub fn init_index(&mut self)
        ensures
            *final(self) == (ChapterObject {
                index: old(self).number@.len() as usize,
                ..*old(self)
            }),
    {
        self.index = self.number.as_str().unicode_len();
    }
}

impl MilestoneObject {
    /// Sets the index to 0: a milestone holds no text.
    pub fn init_index(&mut self)
        ensures
            *final(self) == (MilestoneObject { index: 0, ..*old(self) }),
    {
        self.index = 0;
    }
}

impl FigureObject {
    /// Sets the index to 0: a figure counts for no text.
    pub fn init_index(&mut self)
        ensures
            *final(self) == (FigureObject { index: 0, ..*old(self) }),
    {
        self.index = 0;
    }
}

impl CharMarkerObject {
    /// Computes the indices of everything in the span, and sets the index of the span
    /// to its weight.
    pub fn init_index(&mut self)
        requires
            char_weight(*old(self)) <= usize::MAX,
        ensures
            char_indexed(*old(self), *final(self)),
        decreases *old(self),
    {
        let tot = match &mut self.content {
            Some(items) => index_inner_items(items),
            None => 0,
        };
        self.index = tot;
    }
}

impl NoteObject {
    /// Computes the indices of the verses and character spans in the note, and sets
    /// the index of the note to its weight.
    pub fn init_index(&mut self)
        requires
            note_weight(*old(self)) <= usize::MAX,
        ensures
            note_indexed(*old(self), *final(self)),
        decreases *old(self),
    {
        let tot = match &mut self.content {
            Some(items) => index_items(items),
            None => 0,
        };
        self.index = tot;
    }
}

/// Whether a paragraph is a blank line: the marker `b` without content.
pub open spec fn is_blank_line(p: ParaMarkerObject) -> bool {
    p.marker@ == "b"@ && p.content is None
}

/// The weight of a paragraph: 1 for a blank line, else the weight of its items.
pub open spec fn para_weight(p: ParaMarkerObject) -> nat {
    if is_blank_line(p) {
        1
    } else {
        items_weight(items_of(p.content))
    }
}

impl ParaMarkerObject {
    /// Computes the indices of the verses and character spans in the paragraph, and
    /// sets the index of the paragraph to its weight.
    pub fn init_index(&mut self)
        requires
            para_weight(*old(self)) <= usize::MAX,
        ensures
            final(self).index == para_weight(*old(self)),
            final(self).marker == old(self).marker,
            content_indexed(old(self).content, final(self).content),
    {
        if str_eq(self.marker.as_str(), "b") && self.content.is_none() {
            self.index = 1;
            return ;
        }
        let tot = match &mut self.content {
            Some(items) => index_items(items),
            None => 0,
        };
        self.index = tot;
    }
}

impl CellObject {
    /// Computes the indices of the verses and character spans in the cell, and sets
    /// the index of the cell to the weight of its items.
    pub fn init_index(&mut self)
        requires
            items_weight(items_of(old(self).content)) <= usize::MAX,
        ensures
            final(self).index == items_weight(items_of(old(self).content)),
            final(self).marker == old(self).marker,
            final(self).align == old(self).align,
            final(self).colspan == old(self).colspan,
            content_indexed(old(self).content, final(self).content),
    {
        let tot = match &mut self.content {
            Some(items) => index_items(items),
            None => 0,
        };
        self.index = tot;
    }
}

/// The weight of the items of a cell.
pub open spec fn cell_weight(c: CellObject) -> nat {
    items_weight(items_of(c.content))
}

/// The sum of the weights of the items of the cells.
pub open spec fn cells_weight(v: Seq<CellObject>) -> nat
    decreases v.len(),
{
    if v.len() == 0 {
        0
    } else {
        cells_weight(v.drop_last()) + cell_weight(v.last())
    }
}

/// The cells of an optional content: none where there is no content.
pub open spec fn cells_of(content: Option<Vec<CellObject>>) -> Seq<CellObject> {
    match content {
        Some(v) => v@,
        None => Seq::empty(),
    }
}

/// The weight of a row: that of its cells.
pub open spec fn row_weight(r: RowObject) -> nat {
    cells_weight(cells_of(r.content))
}

/// The sum of the weights of the rows.
pub open spec fn rows_weight(v: Seq<RowObject>) -> nat
    decreases v.len(),
{
    if v.len() == 0 {
        0
    } else {
        rows_weight(v.drop_last()) + row_weight(v.last())
    }
}

/// The sum of the weights of the items of the paragraphs.
pub open spec fn paras_weight(v: Seq<ParaMarkerObject>) -> nat
    decreases v.len(),
{
    if v.len() == 0 {
        0
    } else {
        paras_weight(v.drop_last()) + items_weight(items_of(v.last().content))
    }
}

/// A cell after the indices in its content were computed; its own index is as before.
pub open spec fn cell_content_indexed(a: CellObject, b: CellObject) -> bool {
    &&& b.index == a.index
    &&& b.marker == a.marker
    &&& b.align == a.align
    &&& b.colspan == a.colspan
    &&& content_indexed(a.content, b.content)
}

/// Cells after the indices in their contents were computed.
pub open spec fn cells_indexed(a: Seq<CellObject>, b: Seq<CellObject>) -> bool {
    &&& b.len() == a.len()
    &&& forall|i: int| 0 <= i < a.len() ==> cell_content_indexed(#[trigger] a[i], b[i])
}

/// An optional list of cells after the indices in it were computed.
pub open spec fn cells_content_indexed(
    a: Option<Vec<CellObject>>,
    b: Option<Vec<CellObject>>,
) -> bool {
    match a {
        Some(v) => b is Some && cells_indexed(v@, b->0@),
        None => b is None,
    }
}

/// A row after the indices in its cells were computed; its own index is as before.
pub open spec fn row_content_indexed(a: RowObject, b: RowObject) -> bool {
    &&& b.index == a.index
    &&& b.marker == a.marker
    &&& cells_content_indexed(a.content, b.content)
}

/// Rows after the indices in their cells were computed.
pub open spec fn rows_indexed(a: Seq<RowObject>, b: Seq<RowObject>) -> bool {
    &&& b.len() == a.len()
    &&& forall|i: int| 0 <= i < a.len() ==> row_content_indexed(#[trigger] a[i], b[i])
}

/// A paragraph after the indices in its content were computed; its own index is as
/// before.
pub open spec fn para_content_indexed(a: ParaMarkerObject, b: ParaMarkerObject) -> bool {
    &&& b.index == a.index
    &&& b.marker == a.marker
    &&& content_indexed(a.content, b.content)
}

/// Paragraphs after the indices in their contents were computed.
pub open spec fn paras_indexed(a: Seq<ParaMarkerObject>, b: Seq<ParaMarkerObject>) -> bool {
    &&& b.len() == a.len()
    &&& forall|i: int| 0 <= i < a.len() ==> para_content_indexed(#[trigger] a[i], b[i])
}

/// The weight of a prefix of cells grows by the weight of the next cell, and no prefix
/// weighs more than the whole.
pub proof fn lemma_cells_weight_step(v: Seq<CellObject>, i: int)
    requires
        0 <= i < v.len(),
    ensures
        cells_weight(v.take(i + 1)) == cells_weight(v.take(i)) + cell_weight(v[i]),
        cells_weight(v.take(i + 1)) <= cells_weight(v),
    decreases v.len() - i,
{
    assert(v.take(i + 1).drop_last() == v.take(i));
    assert(v.take(i + 1).last() == v[i]);
    if i + 1 < v.len() {
        lemma_cells_weight_step(v, i + 1);
    } else {
        assert(v.take(i + 1) == v);
    }
}

/// The same, for rows.
pub proof fn lemma_rows_weight_step(v: Seq<RowObject>, i: int)
    requires
        0 <= i < v.len(),
    ensures
        rows_weight(v.take(i + 1)) == rows_weight(v.take(i)) + row_weight(v[i]),
        rows_weight(v.take(i + 1)) <= rows_weight(v),
    decreases v.len() - i,
{
    assert(v.take(i + 1).drop_last() == v.take(i));
    assert(v.take(i + 1).last() == v[i]);
    if i + 1 < v.len() {
        lemma_rows_weight_step(v, i + 1);
    } else {
        assert(v.take(i + 1) == v);
    }
}

/// The same, for the paragraphs of a sidebar.
pub proof fn lemma_paras_weight_step(v: Seq<ParaMarkerObject>, i: int)
    requires
        0 <= i < v.len(),
    ensures
        paras_weight(v.take(i + 1)) == paras_weight(v.take(i)) + items_weight(
            items_of(v[i].content),
        ),
        paras_weight(v.take(i + 1)) <= paras_weight(v),
    decreases v.len() - i,
{
    assert(v.take(i + 1).drop_last() == v.take(i));
    assert(v.take(i + 1).last() == v[i]);
    if i + 1 < v.len() {
        lemma_paras_weight_step(v, i + 1);
    } else {
        assert(v.take(i + 1) == v);
    }
}

/// Computes the indices in the contents of the cells and returns the weight of the
/// cells.
pub fn index_cells(cells: &mut Vec<CellObject>) -> (tot: usize)
    requires
        cells_weight(old(cells)@) <= usize::MAX,
    ensures
        tot == cells_weight(old(cells)@),
        cells_indexed(old(cells)@, final(cells)@),
{
    let mut tot: usize = 0;
    let mut i: usize = 0;
    let n = cells.len();
    proof {
        assert(cells@.take(0) == Seq::<CellObject>::empty());
    }
    while i < n
        invariant
            i <= n,
            n == cells@.len(),
            cells@.len() == old(cells)@.len(),
            tot == cells_weight(old(cells)@.take(i as int)),
            forall|j: int| 0 <= j < i ==> cell_content_indexed(#[trigger] old(cells)@[j], cells@[j]),
            forall|j: int| i <= j < n ==> cells@[j] == old(cells)@[j],
            cells_weight(old(cells)@) <= usize::MAX,
        decreases n - i,
    {
        proof {
            lemma_cells_weight_step(old(cells)@, i as int);
        }
        let ghost before = cells@;
        let cell = &mut cells[i];
        let t = match &mut cell.content {
            Some(items) => index_items(items),
            None => 0,
        };
        tot = tot + t;
        assert(cells@.len() == before.len());
        assert(forall|j: int| 0 <= j < n && j != i ==> cells@[j] == before[j]);
        i = i + 1;
    }
    proof {
        assert(old(cells)@.take(n as int) == old(cells)@);
    }
    tot
}

/// Computes the indices in the cells of the rows and returns the weight of the rows.
pub fn index_rows(rows: &mut Vec<RowObject>) -> (tot: usize)
    requires
        rows_weight(old(rows)@) <= usize::MAX,
    ensures
        tot == rows_weight(old(rows)@),
        rows_indexed(old(rows)@, final(rows)@),
{
    let mut tot: usize = 0;
    let mut i: usize = 0;
    let n = rows.len();
    proof {
        assert(rows@.take(0) == Seq::<RowObject>::empty());
    }
    while i < n
        invariant
            i <= n,
            n == rows@.len(),
            rows@.len() == old(rows)@.len(),
            tot == rows_weight(old(rows)@.take(i as int)),
            forall|j: int| 0 <= j < i ==> row_content_indexed(#[trigger] old(rows)@[j], rows@[j]),
            forall|j: int| i <= j < n ==> rows@[j] == old(rows)@[j],
            rows_weight(old(rows)@) <= usize::MAX,
        decreases n - i,
    {
        proof {
            lemma_rows_weight_step(old(rows)@, i as int);
        }
        let ghost before = rows@;
        let row = &mut rows[i];
        let t = match &mut row.content {
            Some(cells) => index_cells(cells),
            None => 0,
        };
        tot = tot + t;
        assert(rows@.len() == before.len());
        assert(forall|j: int| 0 <= j < n && j != i ==> rows@[j] == before[j]);
        i = i + 1;
    }
    proof {
        assert(old(rows)@.take(n as int) == old(rows)@);
    }
    tot
}

/// Computes the indices in the contents of the paragraphs and returns the sum of the
/// weights of their items.
pub fn index_paras(paras: &mut Vec<ParaMarkerObject>) -> (tot: usize)
    requires
        paras_weight(old(paras)@) <= usize::MAX,
    ensures
        tot == paras_weight(old(paras)@),
        paras_indexed(old(paras)@, final(paras)@),
{
    let mut tot: usize = 0;
    let mut i: usize = 0;
    let n = paras.len();
    proof {
        assert(paras@.take(0) == Seq::<ParaMarkerObject>::empty());
    }
    while i < n
        invariant
            i <= n,
            n == paras@.len(),
            paras@.len() == old(paras)@.len(),
            tot == paras_weight(old(paras)@.take(i as int)),
            forall|j: int| 0 <= j < i ==> para_content_indexed(#[trigger] old(paras)@[j], paras@[j]),
            forall|j: int| i <= j < n ==> paras@[j] == old(paras)@[j],
            paras_weight(old(paras)@) <= usize::MAX,
        decreases n - i,
    {
        proof {
            lemma_paras_weight_step(old(paras)@, i as int);
        }
        let ghost before = paras@;
        let para = &mut paras[i];
        let t = match &mut para.content {
            Some(items) => index_items(items),
            None => 0,
        };
        tot = tot + t;
        assert(paras@.len() == before.len());
        assert(forall|j: int| 0 <= j < n && j != i ==> paras@[j] == before[j]);
        i = i + 1;
    }
    proof {
        assert(old(paras)@.take(n as int) == old(paras)@);
    }
    tot
}

impl RowObject {
    /// Computes the indices in the cells of the row, and sets the index of the row to
    /// the weight of its cells.
    pub fn init_index(&mut self)
        requires
            row_weight(*old(self)) <= usize::MAX,
        ensures
            final(self).index == row_weight(*old(self)),
            final(self).marker == old(self).marker,
            cells_content_indexed(old(self).content, final(self).content),
    {
        let tot = match &mut self.content {
            Some(cells) => index_cells(cells),
            None => 0,
        };
        self.index = tot;
    }
}

/// The weight of a table: that of its rows.
pub open spec fn table_weight(t: TableObject) -> nat {
    match t.content {
        Some(v) => rows_weight(v@),
        None => 0,
    }
}

impl TableObject {
    /// Computes the indices in the cells of the table, and sets the index of the table
    /// to the weight of its rows.
    pub fn init_index(&mut self)
        requires
            table_weight(*old(self)) <= usize::MAX,
        ensures
            final(self).index == table_weight(*old(self)),
            final(self).marker == old(self).marker,
            match old(self).content {
                Some(v) => final(self).content is Some && rows_indexed(v@, final(self).content->0@),
                None => final(self).content is None,
            },
    {
        let tot = match &mut self.content {
            Some(rows) => index_rows(rows),
            None => 0,
        };
        self.index = tot;
    }
}

/// The weight of a sidebar: 1 where its marker is `b`, and the items of its
/// paragraphs.
pub open spec fn sidebar_weight(s: SidebarObject) -> nat {
    let blank: nat = if s.marker@ == "b"@ {
        1
    } else {
        0
    };
    match s.content {
        Some(v) => blank + paras_weight(v@),
        None => blank,
    }
}

impl SidebarObject {
    /// Computes the indices in the paragraphs of the sidebar, and sets the index of
    /// the sidebar to its weight.
    pub fn init_index(&mut self)
        requires
            sidebar_weight(*old(self)) <= usize::MAX,
        ensures
            final(self).index == sidebar_weight(*old(self)),
            final(self).marker == old(self).marker,
            final(self).category == old(self).category,
            match old(self).content {
                Some(v) => final(self).content is Some && paras_indexed(
                    v@,
                    final(self).content->0@,
                ),
                None => final(self).content is None,
            },
    {
        let blank: usize = if str_eq(self.marker.as_str(), "b") {
            1
        } else {
            0
        };
        let tot = match &mut self.content {
            Some(paras) => index_paras(paras),
            None => 0,
        };
        self.index = blank + tot;
    }
}

/// The sum of the numbers of characters of the strings of `v`.
pub open spec fn strings_weight(v: Seq<String>) -> nat
    decreases v.len(),
{
    if v.len() == 0 {
        0
    } else {
        strings_weight(v.drop_last()) + v.last()@.len()
    }
}

/// The weight of a prefix of strings grows by the length of the next string, and no
/// prefix weighs more than the whole.
pub proof fn lemma_strings_weight_step(v: Seq<String>, i: int)
    requires
        0 <= i < v.len(),
    ensures
        strings_weight(v.take(i + 1)) == strings_weight(v.take(i)) + v[i]@.len(),
        strings_weight(v.take(i + 1)) <= strings_weight(v),
    decreases v.len() - i,
{
    assert(v.take(i + 1).drop_last() == v.take(i));
    assert(v.take(i + 1).last() == v[i]);
    if i + 1 < v.len() {
        lemma_strings_weight_step(v, i + 1);
    } else {
        assert(v.take(i + 1) == v);
    }
}

/// The weight of a book: the characters of its texts.
pub open spec fn book_weight(b: BookObject) -> nat {
    match b.content {
        Some(v) => strings_weight(v@),
        None => 0,
    }
}

impl BookObject {
    /// Sets the index to the number of characters of the texts of the book.
    pub fn init_index(&mut self)
        requires
            book_weight(*old(self)) <= usize::MAX,
        ensures
            *final(self) == (BookObject { index: book_weight(*old(self)) as usize, ..*old(self) }),
    {
        let mut tot: usize = 0;
        match &self.content {
            Some(v) => {
                let mut i: usize = 0;
                proof {
                    assert(v@.take(0) == Seq::<String>::empty());
                }
                while i < v.len()
                    invariant
                        i <= v@.len(),
                        tot == strings_weight(v@.take(i as int)),
                        strings_weight(v@) <= usize::MAX,
                    decreases v@.len() - i,
                {
                    proof {
                        lemma_strings_weight_step(v@, i as int);
                    }
                    tot = tot + v[i].as_str().unicode_len();
                    i = i + 1;
                }
                proof {
                    assert(v@.take(i as int) == v@);
                }
            },
            None => {},
        }
        self.index = tot;
    }

    /// The book itself.
    pub fn get(&self) -> (b: &BookObject)
        ensures
            b == self,
    {
        self
    }
}

impl Root {
    /// Adds a book after the content of the document.
    pub fn add_book(&mut self, book: BookObject)
        ensures
            final(self).content@ == old(self).content@.push(Content::Book(book)),
            final(self).kind == old(self).kind,
            final(self).version == old(self).version,
    {
        self.content.push(Content::Book(book));
    }

    /// Sets the version of the document.
    pub fn set_version(&mut self, new_version: &str)
        ensures
            final(self).version@ == new_version@,
            final(self).kind == old(self).kind,
            final(self).content == old(self).content,
    {
        self.version = copy_str(new_version);
    }
}

} // verus!
