//! The document under construction.
//!
//! Three stacks hold what is open: at most one paragraph (or book identification, or
//! version line), at most one note, and the character spans, innermost last. What is
//! added goes into the innermost open container. Closing a container closes first what
//! is open inside it, innermost first, so that nothing closed holds anything open.

use vstd::prelude::*;
use crate::attributes::insert_entry;
use crate::attributes::AttributeMap;
use crate::attributes::Entries;
use crate::text::copy_str;
use crate::text::chars_of;
use crate::text::str_eq;
use crate::text::string_of_range;
use crate::tree::joined_text;
use crate::tree::nodes_model;
use crate::tree::text_of;
use crate::tree::Document;
use crate::tree::DocumentModel;
use crate::tree::Item;
use crate::tree::ItemModel;
use crate::tree::Node;
use crate::tree::NodeKind;
use crate::tree::NodeModel;

verus! {

/// The model of a document under construction.
pub struct ModelState {
    /// The version, once a version line was closed.
    pub version: Option<Seq<char>>,
    /// The top-level nodes that are finished.
    pub paras: Seq<NodeModel>,
    /// The open paragraph, book identification or version line.
    pub current_para: Option<NodeModel>,
    /// The open note.
    pub note: Option<NodeModel>,
    /// The open character spans, innermost last.
    pub chars: Seq<NodeModel>,
}

/// The state in which nothing was read yet.
pub open spec fn empty_state() -> ModelState {
    ModelState {
        version: None,
        paras: Seq::empty(),
        current_para: None,
        note: None,
        chars: Seq::empty(),
    }
}

/// Whether nothing is open.
pub open spec fn all_closed(m: ModelState) -> bool {
    m.current_para is None && m.note is None && m.chars.len() == 0
}

/// `n` with `item` added at the end of its content.
pub open spec fn with_item(n: NodeModel, item: ItemModel) -> NodeModel {
    NodeModel { content: n.content.push(item), ..n }
}

/// The paragraph that is opened for content that arrives while nothing is open.
pub open spec fn implicit_para(item: ItemModel) -> NodeModel {
    NodeModel {
        kind: NodeKind::Para,
        marker: Seq::empty(),
        nested: false,
        attributes: Seq::empty(),
        content: seq![item],
    }
}

/// The state after `item` was added to the innermost open container: the innermost
/// character span, else the note, else the paragraph, else a paragraph opened for it.
pub open spec fn append_inline(m: ModelState, item: ItemModel) -> ModelState {
    if m.chars.len() > 0 {
        ModelState { chars: m.chars.update(m.chars.len() - 1, with_item(m.chars.last(), item)), ..m }
    } else if m.note is Some {
        ModelState { note: Some(with_item(m.note->0, item)), ..m }
    } else if m.current_para is Some {
        ModelState { current_para: Some(with_item(m.current_para->0, item)), ..m }
    } else {
        ModelState { current_para: Some(implicit_para(item)), ..m }
    }
}

/// The state after the pending text, if there is any, was added as a text.
pub open spec fn flush(m: ModelState, text: Seq<char>) -> ModelState {
    if text.len() > 0 {
        append_inline(m, ItemModel::Text(text))
    } else {
        m
    }
}

/// The state after the innermost character span was closed and added to what encloses
/// it; the state itself where no span is open.
pub open spec fn close_char(m: ModelState) -> ModelState {
    if m.chars.len() > 0 {
        append_inline(ModelState { chars: m.chars.drop_last(), ..m }, ItemModel::Node(m.chars.last()))
    } else {
        m
    }
}

/// The state after every open character span was closed, innermost first.
pub open spec fn close_all_chars(m: ModelState) -> ModelState
    decreases m.chars.len(),
{
    if m.chars.len() > 0 {
        close_all_chars(close_char(m))
    } else {
        m
    }
}

/// The state after the open note, with the spans open in it, was closed.
pub open spec fn close_note(m: ModelState) -> ModelState {
    let m1 = close_all_chars(m);
    match m1.note {
        Some(n) => append_inline(ModelState { note: None, ..m1 }, ItemModel::Node(n)),
        None => m1,
    }
}

/// The code of a book: the first three characters of the text of its line.
pub open spec fn book_code(text: Seq<char>) -> Seq<char> {
    if text.len() >= 3 {
        text.take(3)
    } else {
        text
    }
}

/// The finished node of a book identification: its code is taken from the text of its
/// line, and what follows the code and one more character is its one text.
pub open spec fn book_node(p: NodeModel) -> NodeModel {
    let text = joined_text(p.content);
    NodeModel {
        kind: NodeKind::Book,
        marker: p.marker,
        nested: false,
        attributes: insert_entry(p.attributes, "code"@, book_code(text)),
        content: if text.len() >= 4 {
            seq![ItemModel::Text(text.skip(4))]
        } else {
            Seq::empty()
        },
    }
}

/// Whether a paragraph is the line that gives the version.
pub open spec fn is_version_line(p: NodeModel) -> bool {
    p.kind == NodeKind::Para && p.marker == "usfm"@
}

/// The state after the closed top-level container `p` was put where it belongs: a
/// version line gives the version, a book identification a book node, and a paragraph
/// is finished as it is.
pub open spec fn finalize(m: ModelState, p: NodeModel) -> ModelState {
    if p.kind == NodeKind::Book {
        ModelState { paras: m.paras.push(book_node(p)), ..m }
    } else if is_version_line(p) {
        ModelState { version: Some(joined_text(p.content)), ..m }
    } else {
        ModelState { paras: m.paras.push(p), ..m }
    }
}

/// The state after the open paragraph, with the note and spans open in it, was closed.
pub open spec fn close_para(m: ModelState) -> ModelState {
    let m2 = close_note(m);
    match m2.current_para {
        Some(p) => finalize(ModelState { current_para: None, ..m2 }, p),
        None => m2,
    }
}

/// Closing every span leaves no span open, and changes neither the finished nodes nor
/// the version.
pub proof fn lemma_close_all_chars(m: ModelState)
    ensures
        close_all_chars(m).chars.len() == 0,
        close_all_chars(m).paras == m.paras,
        close_all_chars(m).version == m.version,
        m.note is Some ==> close_all_chars(m).note is Some,
        m.note is None ==> close_all_chars(m).note is None,
        m.chars.len() == 0 ==> close_all_chars(m) == m,
    decreases m.chars.len(),
{
    if m.chars.len() > 0 {
        lemma_close_all_chars(close_char(m));
    }
}

/// Closing the note leaves neither a span nor a note open.
pub proof fn lemma_close_note(m: ModelState)
    ensures
        close_note(m).chars.len() == 0,
        close_note(m).note is None,
        close_note(m).paras == m.paras,
        close_note(m).version == m.version,
{
    lemma_close_all_chars(m);
}

/// Closing the paragraph leaves nothing open.
pub proof fn lemma_close_para_closes_all(m: ModelState)
    ensures
        all_closed(close_para(m)),
{
    lemma_close_note(m);
}

/// Adding to the innermost container, and closing spans and the note, leave the
/// finished nodes and the version as they are.
pub proof fn lemma_inner_steps_keep_finished(m: ModelState, item: ItemModel, text: Seq<char>)
    ensures
        append_inline(m, item).paras == m.paras,
        append_inline(m, item).version == m.version,
        flush(m, text).paras == m.paras,
        flush(m, text).version == m.version,
        close_char(m).paras == m.paras,
        close_char(m).version == m.version,
        close_all_chars(m).paras == m.paras,
        close_note(m).paras == m.paras,
{
    lemma_close_all_chars(m);
    lemma_close_note(m);
}

/// Closing the paragraph changes no finished node: the finished nodes before are the
/// first of the finished nodes after.
pub proof fn lemma_close_para_keeps_finished(m: ModelState)
    ensures
        m.paras.is_prefix_of(close_para(m).paras),
{
    lemma_close_note(m);
}

/// The open spans closed into each other: the outermost span, with the span that it
/// encloses, closed in the same way, as its last item.
pub open spec fn nested(chars: Seq<NodeModel>) -> NodeModel
    recommends
        chars.len() > 0,
    decreases chars.len(),
{
    if chars.len() <= 1 {
        chars[0]
    } else {
        with_item(chars[0], ItemModel::Node(nested(chars.skip(1))))
    }
}

/// The open spans after the innermost was closed into the span that encloses it.
pub open spec fn innermost_closed(chars: Seq<NodeModel>) -> Seq<NodeModel>
    recommends
        chars.len() >= 2,
{
    chars.drop_last().update(
        chars.len() - 2,
        with_item(chars[chars.len() - 2], ItemModel::Node(chars.last())),
    )
}

/// Closing the innermost span first does not change what the spans close into.
pub proof fn lemma_nested_innermost_first(chars: Seq<NodeModel>)
    requires
        chars.len() >= 2,
    ensures
        nested(innermost_closed(chars)) == nested(chars),
    decreases chars.len(),
{
    let closed = innermost_closed(chars);
    let rest = chars.skip(1);
    if chars.len() == 2 {
        assert(rest.len() == 1);
        assert(rest[0] == chars[1]);
        assert(nested(rest) == chars[1]);
        assert(closed.len() == 1);
        assert(nested(closed) == closed[0]);
        assert(nested(chars) == with_item(chars[0], ItemModel::Node(nested(rest))));
    } else {
        lemma_nested_innermost_first(rest);
        assert(closed.skip(1) == innermost_closed(rest));
        assert(closed[0] == chars[0]);
        assert(nested(closed) == with_item(closed[0], ItemModel::Node(nested(closed.skip(1)))));
        assert(nested(chars) == with_item(chars[0], ItemModel::Node(nested(rest))));
    }
}

/// Spans close in the reverse order of their opening: closing every open span adds to
/// what encloses them the outermost span alone, in which each span is the last item of
/// the span that was opened before it.
pub proof fn lemma_spans_close_innermost_first(m: ModelState)
    requires
        m.chars.len() > 0,
    ensures
        close_all_chars(m) == append_inline(
            ModelState { chars: Seq::empty(), ..m },
            ItemModel::Node(nested(m.chars)),
        ),
    decreases m.chars.len(),
{
    if m.chars.len() == 1 {
        assert(m.chars.drop_last() == Seq::<NodeModel>::empty());
        assert(close_all_chars(close_char(m)) == close_char(m));
    } else {
        let next = close_char(m);
        assert(next.chars == innermost_closed(m.chars));
        lemma_spans_close_innermost_first(next);
        lemma_nested_innermost_first(m.chars);
        assert(ModelState { chars: Seq::empty(), ..next } == ModelState { chars: Seq::empty(), ..m });
    }
}

/// Whether an attribute key is kept off the nodes: the keys that name a part of every
/// node, and the keys that name a place in another encoding.
pub open spec fn is_reserved_key(k: Seq<char>) -> bool {
    k == "type"@ || k == "content"@ || k == "marker"@ || k == "sid"@ || k == "vid"@ || k == "eid"@
        || k == "style"@
}

/// The attributes that a node gets from the pending ones: all but the reserved keys.
pub open spec fn node_attrs(pending: Entries) -> Entries {
    pending.filter(|e: (Seq<char>, Seq<char>)| !is_reserved_key(e.0))
}

/// `base` after each pair of `extra` was given to it, in order.
pub open spec fn insert_all(base: Entries, extra: Entries) -> Entries
    decreases extra.len(),
{
    if extra.len() == 0 {
        base
    } else {
        let init = insert_all(base, extra.drop_last());
        insert_entry(init, extra.last().0, extra.last().1)
    }
}

/// Tests whether an attribute key is kept off the nodes.
pub fn reserved_key(k: &str) -> (b: bool)
    ensures
        b == is_reserved_key(k@),
{
    str_eq(k, "type") || str_eq(k, "content") || str_eq(k, "marker") || str_eq(k, "sid") || str_eq(
        k,
        "vid",
    ) || str_eq(k, "eid") || str_eq(k, "style")
}

/// The attributes that a node gets from the pending ones.
pub fn node_attributes(pending: &AttributeMap) -> (r: AttributeMap)
    ensures
        r@ == node_attrs(pending@),
{
    let ghost keep = |e: (Seq<char>, Seq<char>)| !is_reserved_key(e.0);
    let mut r = AttributeMap { entries: Vec::new() };
    let mut i: usize = 0;
    proof {
        assert(pending@.take(0) == Seq::<(Seq<char>, Seq<char>)>::empty());
        assert(r@ == Seq::<(Seq<char>, Seq<char>)>::empty());
        broadcast use vstd::seq_lib::group_filter_ensures;
    }
    while i < pending.len()
        invariant
            i <= pending@.len(),
            keep == (|e: (Seq<char>, Seq<char>)| !is_reserved_key(e.0)),
            r@ == pending@.take(i as int).filter(keep),
        decreases pending@.len() - i,
    {
        let ghost before = r@;
        proof {
            assert(pending@.take(i + 1).drop_last() == pending@.take(i as int));
            assert(pending@.take(i + 1).last() == pending@[i as int]);
            reveal_with_fuel(Seq::filter, 2);
        }
        if !reserved_key(pending.key_at(i).as_str()) {
            let k = copy_str(pending.key_at(i).as_str());
            let v = copy_str(pending.value_at(i).as_str());
            r.entries.push((k, v));
            assert(r@ == before.push(pending@[i as int]));
        }
        i = i + 1;
    }
    assert(pending@.take(i as int) == pending@);
    r
}

/// Gives `base` each pair of `extra`, in order.
pub fn insert_attributes(base: &mut AttributeMap, extra: &AttributeMap)
    ensures
        final(base)@ == insert_all(old(base)@, extra@),
{
    let mut i: usize = 0;
    proof {
        assert(extra@.take(0) == Seq::<(Seq<char>, Seq<char>)>::empty());
    }
    while i < extra.len()
        invariant
            i <= extra@.len(),
            base@ == insert_all(old(base)@, extra@.take(i as int)),
        decreases extra@.len() - i,
    {
        proof {
            assert(extra@.take(i + 1).drop_last() == extra@.take(i as int));
            assert(extra@.take(i + 1).last() == extra@[i as int]);
        }
        let k = copy_str(extra.key_at(i).as_str());
        let v = copy_str(extra.value_at(i).as_str());
        base.insert(k, v);
        i = i + 1;
    }
    assert(extra@.take(i as int) == extra@);
}

/// A document under construction.
pub struct AosjStringModel {
    /// The version, once a version line was closed.
    pub root_version: Option<String>,
    /// The top-level nodes that are finished.
    pub paras: Vec<Node>,
    /// The open paragraph, book identification or version line.
    pub current_para: Option<Node>,
    /// The open note.
    pub note_stack: Option<Node>,
    /// The open character spans, innermost last.
    pub char_marker_stack: Vec<Node>,
}

impl AosjStringModel {
    /// The model of the document under construction.
    pub open spec fn view(&self) -> ModelState {
        ModelState {
            version: match self.root_version {
                Some(v) => Some(v@),
                None => None,
            },
            paras: nodes_model(self.paras@),
            current_para: match self.current_para {
                Some(p) => Some(p@),
                None => None,
            },
            note: match self.note_stack {
                Some(n) => Some(n@),
                None => None,
            },
            chars: nodes_model(self.char_marker_stack@),
        }
    }

    /// A document of which nothing was read yet.
    pub fn new() -> (m: Self)
        ensures
            m@ == empty_state(),
    {
        let m = AosjStringModel {
            root_version: None,
            paras: Vec::new(),
            current_para: None,
            note_stack: None,
            char_marker_stack: Vec::new(),
        };
        assert(m@.paras == Seq::<NodeModel>::empty());
        assert(m@.chars == Seq::<NodeModel>::empty());
        m
    }

    /// Sets the version of the document.
    pub fn add_root_metadata(&mut self, version_value: &String)
        ensures
            final(self)@ == (ModelState { version: Some(version_value@), ..old(self)@ }),
    {
        self.root_version = Some(copy_str(version_value.as_str()));
    }

    /// Adds `item` to the innermost open container, opening a paragraph for it where
    /// nothing is open.
    pub fn append_inline(&mut self, item: Item)
        ensures
            final(self)@ == append_inline(old(self)@, item@),
    {
        if self.char_marker_stack.len() > 0 {
            let ghost before = self.char_marker_stack@;
            let mut top = self.char_marker_stack.pop().unwrap();
            top.push_item(item);
            self.char_marker_stack.push(top);
            assert(nodes_model(self.char_marker_stack@) == nodes_model(before).update(
                before.len() - 1,
                with_item(before.last()@, item@),
            ));
        } else if self.note_stack.is_some() {
            let mut note = self.note_stack.take().unwrap();
            note.push_item(item);
            self.note_stack = Some(note);
        } else if self.current_para.is_some() {
            let mut para = self.current_para.take().unwrap();
            para.push_item(item);
            self.current_para = Some(para);
        } else {
            let mut para = Node::new(NodeKind::Para, String::new(), false, AttributeMap::new());
            para.push_item(item);
            assert(para@.content == seq![item@]);
            self.current_para = Some(para);
        }
    }

    /// Adds the pending text, if there is any, as a text, and empties it.
    pub fn add_string_to_in_para(&mut self, txt: &mut String)
        ensures
            final(self)@ == flush(old(self)@, old(txt)@),
            final(txt)@.len() == 0,
    {
        if !txt.as_str().is_empty() {
            let mut taken = String::new();
            core::mem::swap(txt, &mut taken);
            self.append_inline(Item::Text(taken));
        }
    }

    /// Closes the innermost character span, if one is open.
    pub fn close_char(&mut self)
        ensures
            final(self)@ == close_char(old(self)@),
    {
        if self.char_marker_stack.len() > 0 {
            let ghost before = self.char_marker_stack@;
            let top = self.char_marker_stack.pop().unwrap();
            assert(nodes_model(self.char_marker_stack@) == nodes_model(before).drop_last());
            self.append_inline(Item::Node(top));
        }
    }

    /// Closes every open character span, innermost first.
    pub fn close_all_chars(&mut self)
        ensures
            final(self)@ == close_all_chars(old(self)@),
    {
        while self.char_marker_stack.len() > 0
            invariant
                close_all_chars(self@) == close_all_chars(old(self)@),
            decreases self.char_marker_stack@.len(),
        {
            self.close_char();
        }
    }

    /// Closes the open note, if there is one, after the spans open in it.
    pub fn close_note(&mut self)
        ensures
            final(self)@ == close_note(old(self)@),
    {
        self.close_all_chars();
        if self.note_stack.is_some() {
            let note = self.note_stack.take().unwrap();
            self.append_inline(Item::Node(note));
        }
    }

    /// Puts the closed top-level container `p` where it belongs.
    pub fn finalize(&mut self, p: Node)
        ensures
            final(self)@ == finalize(old(self)@, p@),
    {
        let ghost before = self.paras@;
        match p.kind {
            NodeKind::Book => {
                let text = text_of(&p);
                let chars = chars_of(text.as_str());
                let n = chars.len();
                let code = if n >= 3 {
                    string_of_range(&chars, 0, 3)
                } else {
                    string_of_range(&chars, 0, n)
                };
                proof {
                    assert(chars@.subrange(0, n as int) == chars@);
                    assert(n >= 3 ==> chars@.subrange(0, 3) == chars@.take(3));
                }
                let mut attributes = p.attributes;
                attributes.insert(copy_str("code"), code);
                let mut book = Node::new(NodeKind::Book, p.marker, false, attributes);
                if n >= 4 {
                    let rest = string_of_range(&chars, 4, n);
                    assert(chars@.subrange(4, n as int) == chars@.skip(4));
                    book.push_item(Item::Text(rest));
                    assert(book@.content == seq![ItemModel::Text(rest@)]);
                }
                self.paras.push(book);
                assert(nodes_model(self.paras@) == nodes_model(before).push(book_node(p@)));
            },
            NodeKind::Para => {
                if str_eq(p.marker.as_str(), "usfm") {
                    self.root_version = Some(text_of(&p));
                } else {
                    self.paras.push(p);
                    assert(nodes_model(self.paras@) == nodes_model(before).push(p@));
                }
            },
            _ => {
                self.paras.push(p);
                assert(nodes_model(self.paras@) == nodes_model(before).push(p@));
            },
        }
    }

    /// Closes the open paragraph, book identification or version line, if there is
    /// one, after the note and the spans open in it. Nothing is open afterwards.
    pub fn end_new_para(&mut self)
        ensures
            final(self)@ == close_para(old(self)@),
            all_closed(final(self)@),
    {
        proof {
            lemma_close_para_closes_all(self@);
        }
        self.close_note();
        if self.current_para.is_some() {
            let p = self.current_para.take().unwrap();
            self.finalize(p);
        }
    }

    /// Closes the open book identification; the same as closing a paragraph.
    pub fn end_book(&mut self)
        ensures
            final(self)@ == close_para(old(self)@),
            all_closed(final(self)@),
    {
        self.end_new_para();
    }

    /// Opens a paragraph with the given marker and attributes in place of what was the
    /// open paragraph.
    pub fn start_new_para(&mut self, marker: String, attributes: AttributeMap)
        ensures
            final(self)@ == (ModelState {
                current_para: Some(
                    NodeModel {
                        kind: NodeKind::Para,
                        marker: marker@,
                        nested: false,
                        attributes: attributes@,
                        content: Seq::empty(),
                    },
                ),
                ..old(self)@
            }),
    {
        self.current_para = Some(Node::new(NodeKind::Para, marker, false, attributes));
    }

    /// Opens a book identification with the given marker in place of what was the open
    /// paragraph.
    pub fn start_book(&mut self, marker: String)
        ensures
            final(self)@ == (ModelState {
                current_para: Some(
                    NodeModel {
                        kind: NodeKind::Book,
                        marker: marker@,
                        nested: false,
                        attributes: Seq::empty(),
                        content: Seq::empty(),
                    },
                ),
                ..old(self)@
            }),
    {
        self.current_para = Some(Node::new(NodeKind::Book, marker, false, AttributeMap::new()));
    }

    /// Opens a note with the given marker and attributes in place of what was the open
    /// note.
    pub fn start_add_note(&mut self, marker: String, attributes: AttributeMap)
        ensures
            final(self)@ == (ModelState {
                note: Some(
                    NodeModel {
                        kind: NodeKind::Note,
                        marker: marker@,
                        nested: false,
                        attributes: attributes@,
                        content: Seq::empty(),
                    },
                ),
                ..old(self)@
            }),
    {
        self.note_stack = Some(Node::new(NodeKind::Note, marker, false, attributes));
    }

    /// Opens a character span inside what is open.
    pub fn start_add_char_marker(&mut self, marker: String, nested: bool, attributes: AttributeMap)
        ensures
            final(self)@ == (ModelState {
                chars: old(self)@.chars.push(
                    NodeModel {
                        kind: NodeKind::Char,
                        marker: marker@,
                        nested,
                        attributes: attributes@,
                        content: Seq::empty(),
                    },
                ),
                ..old(self)@
            }),
    {
        let ghost before = self.char_marker_stack@;
        let node = Node::new(NodeKind::Char, marker, nested, attributes);
        self.char_marker_stack.push(node);
        assert(nodes_model(self.char_marker_stack@) == nodes_model(before).push(node@));
    }

    /// Closes the innermost character span with the pending text as the end of its
    /// content. Where no span is open, nothing changes and the text stays pending.
    pub fn end_add_char_marker(&mut self, txt: &mut String)
        ensures
            old(self)@.chars.len() > 0 ==> final(self)@ == close_char(
                flush(old(self)@, old(txt)@),
            ) && final(txt)@.len() == 0,
            old(self)@.chars.len() == 0 ==> final(self)@ == old(self)@ && final(txt)@ == old(
                txt,
            )@,
    {
        if self.char_marker_stack.len() > 0 {
            self.add_string_to_in_para(txt);
            self.close_char();
        }
    }

    /// Closes the open note with the pending text as the end of its content. Where no
    /// note is open, nothing changes and the text stays pending.
    pub fn end_add_note(&mut self, txt: &mut String)
        ensures
            old(self)@.note is Some ==> final(self)@ == close_note(flush(old(self)@, old(txt)@))
                && final(txt)@.len() == 0,
            old(self)@.note is None ==> final(self)@ == old(self)@ && final(txt)@ == old(txt)@,
    {
        if self.note_stack.is_some() {
            self.add_string_to_in_para(txt);
            self.close_note();
        }
    }

    /// Adds a finished chapter node after the finished top-level nodes.
    pub fn add_chapter(&mut self, attributes: AttributeMap)
        ensures
            final(self)@ == (ModelState {
                paras: old(self)@.paras.push(leaf_node(NodeKind::Chapter, "c"@, attributes@)),
                ..old(self)@
            }),
    {
        let ghost before = self.paras@;
        let node = Node::new(NodeKind::Chapter, copy_str("c"), false, attributes);
        self.paras.push(node);
        assert(nodes_model(self.paras@) == nodes_model(before).push(node@));
    }

    /// Adds a verse node to the innermost open container.
    pub fn add_verse_to_in_para(&mut self, attributes: AttributeMap)
        ensures
            final(self)@ == append_inline(
                old(self)@,
                ItemModel::Node(leaf_node(NodeKind::Verse, "v"@, attributes@)),
            ),
    {
        let node = Node::new(NodeKind::Verse, copy_str("v"), false, attributes);
        self.append_inline(Item::Node(node));
    }

    /// Adds a milestone node to the innermost open container.
    pub fn add_milestone(&mut self, marker: String, attributes: AttributeMap)
        ensures
            final(self)@ == append_inline(
                old(self)@,
                ItemModel::Node(leaf_node(NodeKind::Milestone, marker@, attributes@)),
            ),
    {
        let node = Node::new(NodeKind::Milestone, marker, false, attributes);
        self.append_inline(Item::Node(node));
    }

    /// Ends the construction: what is open is closed, and the document is handed out.
    pub fn into_document(self) -> (d: Document)
        ensures
            d@ == document_of_state(self@),
    {
        let mut m = self;
        m.end_new_para();
        Document { version: m.root_version, content: m.paras }
    }
}

/// A node without content.
pub open spec fn leaf_node(kind: NodeKind, marker: Seq<char>, attributes: Entries) -> NodeModel {
    NodeModel { kind, marker, nested: false, attributes, content: Seq::empty() }
}

/// The document that a state gives once what is open in it is closed.
pub open spec fn document_of_state(m: ModelState) -> DocumentModel {
    DocumentModel { version: close_para(m).version, content: close_para(m).paras }
}

} // verus!
