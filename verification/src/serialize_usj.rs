//! The canonical tree prepared for the object-tree encoding: every chapter and every
//! verse that stands in a paragraph gets the identifier of its place.
//!
//! The identifier of a chapter is the code of the book and the number of the chapter;
//! the identifier of a verse adds a colon and the number of the verse. The code is that
//! of the last book before the place, the chapter that of the last chapter before it.

use vstd::prelude::*;
use vstd::string::StringExecFns;
use crate::attributes::has_key;
use crate::attributes::insert_entry;
use crate::attributes::value_of;
use crate::emit::nodes_json;
use crate::emit::version_json;
use crate::emit::write_nodes;
use crate::emit::write_quoted;
use crate::text::copy_str;
use crate::tree::items_model;
use crate::tree::lemma_node_content;
use crate::tree::nodes_model;
use crate::tree::Document;
use crate::tree::DocumentModel;
use crate::tree::Item;
use crate::tree::ItemModel;
use crate::tree::Node;
use crate::tree::NodeKind;
use crate::tree::NodeModel;

verus! {

/// The identifier of a chapter.
pub open spec fn chapter_sid(book: Seq<char>, number: Seq<char>) -> Seq<char> {
    book + " "@ + number
}

/// The identifier of a verse.
pub open spec fn verse_sid(book: Seq<char>, chapter: Seq<char>, number: Seq<char>) -> Seq<char> {
    book + " "@ + chapter + ":"@ + number
}

/// A node with the attribute `sid` given the value `sid`.
pub open spec fn with_sid(n: NodeModel, sid: Seq<char>) -> NodeModel {
    NodeModel { attributes: insert_entry(n.attributes, "sid"@, sid), ..n }
}

/// Whether an item is a verse with a number.
pub open spec fn is_numbered_verse(it: ItemModel) -> bool {
    it matches ItemModel::Node(n) && n.kind == NodeKind::Verse && has_key(n.attributes, "number"@)
}

/// An item of a paragraph with its identifier: a verse with a number gets one, any
/// other item is as before.
pub open spec fn item_with_sid(it: ItemModel, book: Seq<char>, chapter: Seq<char>) -> ItemModel {
    if is_numbered_verse(it) {
        ItemModel::Node(
            with_sid(it->Node_0, verse_sid(book, chapter, value_of(it->Node_0.attributes, "number"@)->0)),
        )
    } else {
        it
    }
}

/// The items of a paragraph with their identifiers.
pub open spec fn items_with_sid(
    items: Seq<ItemModel>,
    book: Seq<char>,
    chapter: Seq<char>,
) -> Seq<ItemModel> {
    Seq::new(items.len(), |i: int| item_with_sid(items[i], book, chapter))
}

/// What is known while the top-level nodes are passed: the nodes so far, with their
/// identifiers, the code of the last book and the number of the last chapter.
pub struct SidState {
    pub nodes: Seq<NodeModel>,
    pub book: Seq<char>,
    pub chapter: Seq<char>,
}

/// The state after one more top-level node: a book with a code gives the code; a
/// chapter with a number gives the number and gets its identifier; the verses of a
/// paragraph get theirs; any other node is as before.
pub open spec fn sid_step(s: SidState, n: NodeModel) -> SidState {
    if n.kind == NodeKind::Book {
        SidState {
            nodes: s.nodes.push(n),
            book: match value_of(n.attributes, "code"@) {
                Some(code) => code,
                None => s.book,
            },
            ..s
        }
    } else if n.kind == NodeKind::Chapter && has_key(n.attributes, "number"@) {
        let number = value_of(n.attributes, "number"@)->0;
        SidState {
            nodes: s.nodes.push(with_sid(n, chapter_sid(s.book, number))),
            chapter: number,
            ..s
        }
    } else if n.kind == NodeKind::Para {
        SidState {
            nodes: s.nodes.push(
                NodeModel { content: items_with_sid(n.content, s.book, s.chapter), ..n },
            ),
            ..s
        }
    } else {
        SidState { nodes: s.nodes.push(n), ..s }
    }
}

/// The state after the first `n` top-level nodes.
pub open spec fn sid_run(nodes: Seq<NodeModel>, n: int) -> SidState
    decreases n,
{
    if n <= 0 || n > nodes.len() {
        SidState { nodes: Seq::empty(), book: Seq::empty(), chapter: Seq::empty() }
    } else {
        sid_step(sid_run(nodes, n - 1), nodes[n - 1])
    }
}

/// A document with the identifiers of its chapters and verses.
pub open spec fn with_sids(d: DocumentModel) -> DocumentModel {
    DocumentModel {
        version: d.version,
        content: sid_run(d.content, d.content.len() as int).nodes,
    }
}

/// Adding identifiers changes neither the number of the top-level nodes nor their
/// kinds and markers.
pub proof fn lemma_sids_keep_shape(nodes: Seq<NodeModel>, n: int)
    requires
        0 <= n <= nodes.len(),
    ensures
        sid_run(nodes, n).nodes.len() == n,
        forall|i: int|
            0 <= i < n ==> (#[trigger] sid_run(nodes, n).nodes[i]).kind == nodes[i].kind
                && sid_run(nodes, n).nodes[i].marker == nodes[i].marker,
    decreases n,
{
    if n > 0 {
        lemma_sids_keep_shape(nodes, n - 1);
    }
}

/// Gives the verses with a number among `items` their identifiers.
pub fn add_sid_to_items(items: &mut Vec<Item>, book: &str, chapter: &str)
    ensures
        items_model(final(items)@) == items_with_sid(items_model(old(items)@), book@, chapter@),
{
    let mut j: usize = 0;
    let n = items.len();
    while j < n
        invariant
            j <= n,
            n == items@.len(),
            items@.len() == old(items)@.len(),
            forall|x: int|
                0 <= x < j ==> (#[trigger] items@[x])@ == item_with_sid(
                    old(items)@[x]@,
                    book@,
                    chapter@,
                ),
            forall|x: int| j <= x < n ==> items@[x] == old(items)@[x],
        decreases n - j,
    {
        let ghost before = items@;
        match &mut items[j] {
            Item::Node(v) => {
                let numbered = match v.kind {
                    NodeKind::Verse => v.attributes.get("number"),
                    _ => None,
                };
                match numbered {
                    Some(number) => {
                        let sid = copy_str(book).concat(" ").concat(chapter).concat(":").concat(
                            number.as_str(),
                        );
                        let ghost content = v@.content;
                        v.attributes.insert(copy_str("sid"), sid);
                        assert(v@.content == content);
                    },
                    None => {},
                }
            },
            Item::Text(_) => {},
        }
        assert(items@.len() == before.len());
        assert(forall|x: int| 0 <= x < n && x != j ==> items@[x] == before[x]);
        j = j + 1;
    }
    assert(items_model(items@) == items_with_sid(items_model(old(items)@), book@, chapter@));
}

/// Gives every chapter, and every verse that stands in a paragraph, the identifier of
/// its place.
pub fn add_sid_to_usj(usj: &mut Document)
    ensures
        final(usj)@ == with_sids(old(usj)@),
{
    let mut book = String::new();
    let mut chapter = String::new();
    let ghost models = nodes_model(usj.content@);
    let n = usj.content.len();
    let mut i: usize = 0;
    while i < n
        invariant
            i <= n,
            n == usj.content@.len(),
            usj.content@.len() == old(usj).content@.len(),
            usj.version == old(usj).version,
            models == nodes_model(old(usj).content@),
            sid_run(models, i as int).book == book@,
            sid_run(models, i as int).chapter == chapter@,
            sid_run(models, i as int).nodes == nodes_model(usj.content@).take(i as int),
            forall|x: int| i <= x < n ==> usj.content@[x] == old(usj).content@[x],
        decreases n - i,
    {
        let ghost before = usj.content@;
        let ghost state = sid_run(models, i as int);
        proof {
            assert(models[i as int] == old(usj).content@[i as int]@);
        }
        let node = &mut usj.content[i];
        let ghost unmarked = node@;
        match node.kind {
            NodeKind::Book => {
                match node.attributes.get("code") {
                    Some(code) => {
                        book = code;
                    },
                    None => {},
                }
            },
            NodeKind::Chapter => {
                match node.attributes.get("number") {
                    Some(number) => {
                        let sid = copy_str(book.as_str()).concat(" ").concat(number.as_str());
                        let ghost content = node@.content;
                        node.attributes.insert(copy_str("sid"), sid);
                        assert(node@.content == content);
                        chapter = number;
                    },
                    None => {},
                }
            },
            NodeKind::Para => {
                proof {
                    lemma_node_content(node);
                }
                add_sid_to_items(&mut node.content, book.as_str(), chapter.as_str());
                proof {
                    lemma_node_content(node);
                }
            },
            _ => {},
        }
        assert(usj.content@.len() == before.len());
        assert(forall|x: int| 0 <= x < n && x != i ==> usj.content@[x] == before[x]);
        assert(usj.content@[i as int]@ == sid_step(state, unmarked).nodes.last());
        i = i + 1;
        assert(nodes_model(usj.content@).take(i as int) == sid_run(models, i as int).nodes) by {
            let a = nodes_model(usj.content@).take(i as int);
            let b = sid_run(models, i as int).nodes;
            assert(b == state.nodes.push(sid_step(state, unmarked).nodes.last()));
            assert(a.len() == b.len());
            assert forall|x: int| 0 <= x < a.len() implies a[x] == b[x] by {
                if x < i - 1 {
                    assert(a[x] == nodes_model(before).take(i - 1)[x]);
                }
            }
        }
    }
    proof {
        assert(nodes_model(usj.content@).take(n as int) == nodes_model(usj.content@));
    }
}

/// Gives a document the identifiers of its chapters and verses.
pub fn serialize_to_usj(usj: Document) -> (r: Document)
    ensures
        r@ == with_sids(usj@),
{
    let mut r = usj;
    add_sid_to_usj(&mut r);
    r
}

/// A document as the JSON text of the object-tree encoding: the type of the encoding,
/// the version and the content.
pub open spec fn usj_json(d: DocumentModel) -> Seq<char> {
    "{ \"type\": \"USJ\", "@ + version_json(d.version) + "\"content\": ["@ + nodes_json(d.content)
        + "] }"@
}

/// Writes a document as the JSON text of the object-tree encoding.
pub fn usj_text(usj: &Document) -> (s: String)
    ensures
        s@ == usj_json(usj@),
{
    let mut out = String::new();
    out.append("{ \"type\": \"USJ\", ");
    match &usj.version {
        Some(v) => {
            out.append("\"version\": ");
            write_quoted(v.as_str(), &mut out);
            out.append(", ");
        },
        None => {},
    }
    assert(out@ == "{ \"type\": \"USJ\", "@ + version_json(usj@.version));
    out.append("\"content\": [");
    write_nodes(&usj.content, &mut out);
    out.append("] }");
    assert(out@ == usj_json(usj@));
    out
}

} // verus!
