//! What holds of every node that the reader of tag streams builds: its attributes have
//! distinct keys, and none of them is named like a member that every node has.
//!
//! So a node written as an object has no member twice.

use vstd::prelude::*;
use crate::attributes::insert_entry;
use crate::attributes::key_index;
use crate::attributes::lemma_insert_entry;
use crate::attributes::lemma_key_index;
use crate::attributes::unique_keys;
use crate::attributes::Entries;
use crate::builder::append_inline;
use crate::builder::book_node;
use crate::builder::close_all_chars;
use crate::builder::close_char;
use crate::builder::close_note;
use crate::builder::close_para;
use crate::builder::empty_state;
use crate::builder::finalize;
use crate::builder::flush;
use crate::builder::implicit_para;
use crate::builder::insert_all;
use crate::builder::is_reserved_key;
use crate::builder::leaf_node;
use crate::builder::node_attrs;
use crate::builder::with_item;
use crate::builder::ModelState;
use crate::token::TokenModel;
use crate::tree::ItemModel;
use crate::tree::NodeModel;
use crate::usfm::document_of_tokens;
use crate::usfm::final_state;
use crate::usfm::initial_state;
use crate::usfm::open_node;
use crate::usfm::run;
use crate::usfm::step;
use crate::usfm::word_link;
use crate::usfm::ReaderState;

verus! {

/// Whether a key is the name of a member that every node has.
pub open spec fn is_member_key(k: Seq<char>) -> bool {
    k == "type"@ || k == "marker"@ || k == "content"@
}

/// Whether attributes can be the members of an object beside the members that every
/// node has: their keys are distinct, and none is the name of such a member.
pub open spec fn attributes_ok(a: Entries) -> bool {
    &&& unique_keys(a)
    &&& forall|i: int| 0 <= i < a.len() ==> !is_member_key(#[trigger] a[i].0)
}

/// Whether the attributes of an item, and of every node inside it, are in order.
pub open spec fn item_ok(it: ItemModel) -> bool
    decreases it,
{
    match it {
        ItemModel::Text(_) => true,
        ItemModel::Node(n) => node_ok(n),
    }
}

/// Whether the attributes of a node, and of every node inside it, are in order.
pub open spec fn node_ok(n: NodeModel) -> bool
    decreases n,
{
    &&& attributes_ok(n.attributes)
    &&& forall|i: int| 0 <= i < n.content.len() ==> item_ok(#[trigger] n.content[i])
}

/// Whether every node of a sequence is in order.
pub open spec fn nodes_ok(s: Seq<NodeModel>) -> bool {
    forall|i: int| 0 <= i < s.len() ==> node_ok(#[trigger] s[i])
}

/// Whether every node of a document under construction is in order.
pub open spec fn state_ok(m: ModelState) -> bool {
    &&& nodes_ok(m.paras)
    &&& (m.current_para is Some ==> node_ok(m.current_para->0))
    &&& (m.note is Some ==> node_ok(m.note->0))
    &&& nodes_ok(m.chars)
}

/// Whether a reader is in order: its document is, and its pending attributes have
/// distinct keys.
pub open spec fn reader_ok(s: ReaderState) -> bool {
    state_ok(s.model) && unique_keys(s.pending)
}

/// The place among the pending attributes of the `i`-th attribute that a node keeps.
pub open spec fn source_index(s: Entries, i: int) -> int
    decreases s.len(),
{
    if s.len() == 0 {
        0
    } else if i < node_attrs(s.drop_last()).len() {
        source_index(s.drop_last(), i)
    } else {
        s.len() - 1
    }
}

/// Whether the `i`-th attribute that a node keeps is the pending attribute at its
/// place, and has no reserved key.
pub open spec fn kept_at(s: Entries, i: int) -> bool {
    &&& 0 <= source_index(s, i) < s.len()
    &&& node_attrs(s)[i] == s[source_index(s, i)]
    &&& !is_reserved_key(node_attrs(s)[i].0)
}

/// The attributes that a node keeps are pending attributes without a reserved key, in
/// the order in which they are pending.
pub proof fn lemma_node_attrs(s: Entries)
    ensures
        forall|i: int| 0 <= i < node_attrs(s).len() ==> #[trigger] kept_at(s, i),
        forall|a: int, b: int|
            0 <= a < b < node_attrs(s).len() ==> #[trigger] source_index(s, a) < #[trigger] source_index(
                s,
                b,
            ),
    decreases s.len(),
{
    reveal(Seq::filter);
    let keep = |e: (Seq<char>, Seq<char>)| !is_reserved_key(e.0);
    if s.len() > 0 {
        let init = s.drop_last();
        let sub = node_attrs(init);
        let f = node_attrs(s);
        lemma_node_attrs(init);
        assert(f == if keep(s.last()) {
            sub.push(s.last())
        } else {
            sub
        });
        assert forall|i: int| 0 <= i < f.len() implies #[trigger] kept_at(s, i) by {
            if i < sub.len() {
                assert(kept_at(init, i));
                assert(f[i] == sub[i]);
                assert(init[source_index(init, i)] == s[source_index(init, i)]);
            }
        }
        assert forall|a: int, b: int| 0 <= a < b < f.len() implies #[trigger] source_index(s, a)
            < #[trigger] source_index(s, b) by {
            assert(kept_at(init, a));
            if b < sub.len() {
                assert(kept_at(init, b));
            }
        }
    } else {
        assert(node_attrs(s).len() == 0);
    }
}

/// The attributes that a node gets from pending attributes with distinct keys are in
/// order.
pub proof fn lemma_node_attrs_ok(pending: Entries)
    requires
        unique_keys(pending),
    ensures
        attributes_ok(node_attrs(pending)),
{
    lemma_node_attrs(pending);
    let f = node_attrs(pending);
    assert forall|a: int, b: int| 0 <= a < b < f.len() implies (#[trigger] f[a]).0 != (
    #[trigger] f[b]).0 by {
        assert(source_index(pending, a) < source_index(pending, b));
        assert(kept_at(pending, a));
        assert(kept_at(pending, b));
    }
    assert forall|i: int| 0 <= i < f.len() implies !is_member_key(#[trigger] f[i].0) by {
        assert(kept_at(pending, i));
    }
}

/// Giving attributes in order a value for a key that names no member leaves them in
/// order.
pub proof fn lemma_insert_ok(a: Entries, k: Seq<char>, v: Seq<char>)
    requires
        attributes_ok(a),
        !is_member_key(k),
    ensures
        attributes_ok(insert_entry(a, k, v)),
{
    lemma_insert_entry(a, k, v);
    lemma_key_index(a, k);
    let r = insert_entry(a, k, v);
    assert forall|i: int| 0 <= i < r.len() implies !is_member_key(#[trigger] r[i].0) by {
        if i < a.len() && i != key_index(a, k) {
            assert(r[i] == a[i]);
        }
    }
}

/// Giving attributes with distinct keys each pair of others leaves their keys distinct.
pub proof fn lemma_insert_all_unique(base: Entries, extra: Entries)
    requires
        unique_keys(base),
    ensures
        unique_keys(insert_all(base, extra)),
    decreases extra.len(),
{
    if extra.len() > 0 {
        lemma_insert_all_unique(base, extra.drop_last());
        lemma_insert_entry(insert_all(base, extra.drop_last()), extra.last().0, extra.last().1);
    }
}

/// A node in order with one more item in order is in order.
pub proof fn lemma_with_item_ok(n: NodeModel, item: ItemModel)
    requires
        node_ok(n),
        item_ok(item),
    ensures
        node_ok(with_item(n, item)),
{
    let r = with_item(n, item);
    assert forall|i: int| 0 <= i < r.content.len() implies item_ok(#[trigger] r.content[i]) by {
        if i < n.content.len() {
            assert(r.content[i] == n.content[i]);
        }
    }
}

/// Adding an item in order to a document in order leaves it in order.
pub proof fn lemma_append_ok(m: ModelState, item: ItemModel)
    requires
        state_ok(m),
        item_ok(item),
    ensures
        state_ok(append_inline(m, item)),
{
    let r = append_inline(m, item);
    if m.chars.len() > 0 {
        lemma_with_item_ok(m.chars.last(), item);
        assert forall|i: int| 0 <= i < r.chars.len() implies node_ok(#[trigger] r.chars[i]) by {
            if i < m.chars.len() - 1 {
                assert(r.chars[i] == m.chars[i]);
            }
        }
    } else if m.note is Some {
        lemma_with_item_ok(m.note->0, item);
    } else if m.current_para is Some {
        lemma_with_item_ok(m.current_para->0, item);
    } else {
        let p = implicit_para(item);
        assert(p.content[0] == item);
        assert(node_ok(p));
    }
}

/// Adding the pending text leaves a document in order.
pub proof fn lemma_flush_ok(m: ModelState, text: Seq<char>)
    requires
        state_ok(m),
    ensures
        state_ok(flush(m, text)),
{
    if text.len() > 0 {
        lemma_append_ok(m, ItemModel::Text(text));
    }
}

/// Closing the innermost span leaves a document in order.
pub proof fn lemma_close_char_ok(m: ModelState)
    requires
        state_ok(m),
    ensures
        state_ok(close_char(m)),
{
    if m.chars.len() > 0 {
        let rest = ModelState { chars: m.chars.drop_last(), ..m };
        assert forall|i: int| 0 <= i < rest.chars.len() implies node_ok(#[trigger] rest.chars[i]) by {
            assert(rest.chars[i] == m.chars[i]);
        }
        assert(node_ok(m.chars[m.chars.len() - 1]));
        lemma_append_ok(rest, ItemModel::Node(m.chars.last()));
    }
}

/// Closing every span leaves a document in order.
pub proof fn lemma_close_all_chars_ok(m: ModelState)
    requires
        state_ok(m),
    ensures
        state_ok(close_all_chars(m)),
    decreases m.chars.len(),
{
    if m.chars.len() > 0 {
        lemma_close_char_ok(m);
        lemma_close_all_chars_ok(close_char(m));
    }
}

/// Closing the note leaves a document in order.
pub proof fn lemma_close_note_ok(m: ModelState)
    requires
        state_ok(m),
    ensures
        state_ok(close_note(m)),
{
    lemma_close_all_chars_ok(m);
    let m1 = close_all_chars(m);
    if m1.note is Some {
        lemma_append_ok(ModelState { note: None, ..m1 }, ItemModel::Node(m1.note->0));
    }
}

/// Finished nodes in order with one more node in order are in order.
pub proof fn lemma_push_ok(s: Seq<NodeModel>, n: NodeModel)
    requires
        nodes_ok(s),
        node_ok(n),
    ensures
        nodes_ok(s.push(n)),
{
    assert forall|i: int| 0 <= i < s.push(n).len() implies node_ok(#[trigger] s.push(n)[i]) by {
        if i < s.len() {
            assert(s.push(n)[i] == s[i]);
        }
    }
}

/// Closing the paragraph leaves a document in order.
pub proof fn lemma_close_para_ok(m: ModelState)
    requires
        state_ok(m),
    ensures
        state_ok(close_para(m)),
{
    lemma_close_note_ok(m);
    let m2 = close_note(m);
    if m2.current_para is Some {
        let p = m2.current_para->0;
        let rest = ModelState { current_para: None, ..m2 };
        reveal_strlit("code");
        reveal_strlit("type");
        reveal_strlit("marker");
        reveal_strlit("content");
        assert(!is_member_key("code"@)) by {
            assert("code"@.len() == 4);
            assert("code"@[1] == 'o');
            assert("type"@[1] == 'y');
            assert("marker"@.len() == 6);
            assert("content"@.len() == 7);
        }
        let b = book_node(p);
        lemma_insert_ok(p.attributes, "code"@, crate::builder::book_code(crate::tree::joined_text(p.content)));
        assert(node_ok(b)) by {
            assert forall|i: int| 0 <= i < b.content.len() implies item_ok(#[trigger] b.content[i]) by {
                assert(b.content[i] is Text);
            }
        }
        lemma_push_ok(rest.paras, b);
        lemma_push_ok(rest.paras, p);
        assert(state_ok(finalize(rest, p)));
    }
}

/// A node opened without content, with the attributes that pending attributes with
/// distinct keys give, is in order.
pub proof fn lemma_open_node_ok(n: NodeModel, pending: Entries)
    requires
        unique_keys(pending),
        n.attributes == node_attrs(pending),
        n.content.len() == 0,
    ensures
        node_ok(n),
{
    lemma_node_attrs_ok(pending);
}

/// The key `number` names no member that every node has.
pub proof fn lemma_number_is_no_member()
    ensures
        !is_member_key("number"@),
{
    reveal_strlit("number");
    reveal_strlit("type");
    reveal_strlit("marker");
    reveal_strlit("content");
    assert("number"@.len() == 6);
    assert("number"@[0] == 'n');
    assert("marker"@[0] == 'm');
    assert("type"@.len() == 4);
    assert("content"@.len() == 7);
}

/// A token leaves a reader in order.
pub proof fn lemma_step_ok(s: ReaderState, t: TokenModel)
    requires
        reader_ok(s),
    ensures
        reader_ok(step(s, t)),
{
    let flushed = flush(s.model, s.text);
    lemma_flush_ok(s.model, s.text);
    lemma_close_para_ok(flushed);
    lemma_close_note_ok(flushed);
    lemma_close_all_chars_ok(flushed);
    lemma_close_char_ok(flushed);
    lemma_node_attrs_ok(s.pending);
    lemma_number_is_no_member();
    let empty: Entries = Seq::empty();
    assert(unique_keys(empty));
    match t {
        TokenModel::Tag { subclass, tag_name, is_nested, tag_level, full_tag_name, tag_type } => {
            let w = word_link(is_nested, s.pending, s.text);
            assert(node_ok(w)) by {
                assert forall|i: int| 0 <= i < w.content.len() implies item_ok(
                    #[trigger] w.content[i],
                ) by {
                    assert(w.content[i] is Text);
                }
            }
            lemma_append_ok(s.model, ItemModel::Node(w));
            let m = if is_nested {
                flushed
            } else {
                close_all_chars(flushed)
            };
            lemma_push_ok(m.chars, open_node(crate::tree::NodeKind::Char, tag_name, is_nested, node_attrs(s.pending)));
            assert(attributes_ok(empty));
        },
        TokenModel::Printable { subclass, print_value } => {},
        TokenModel::Chapter { subclass, number_string, number } => {
            lemma_insert_ok(node_attrs(s.pending), "number"@, number_string);
            let m = close_para(flushed);
            lemma_push_ok(
                m.paras,
                leaf_node(
                    crate::tree::NodeKind::Chapter,
                    "c"@,
                    insert_entry(node_attrs(s.pending), "number"@, number_string),
                ),
            );
        },
        TokenModel::Verses { subclass, number_string } => {
            lemma_insert_ok(node_attrs(s.pending), "number"@, number_string);
            lemma_append_ok(
                flushed,
                ItemModel::Node(
                    leaf_node(
                        crate::tree::NodeKind::Verse,
                        "v"@,
                        insert_entry(node_attrs(s.pending), "number"@, number_string),
                    ),
                ),
            );
        },
        TokenModel::Milestone { subclass, s_or_e, tag_name, attributes } => {
            lemma_insert_all_unique(s.pending, attributes);
            lemma_node_attrs_ok(insert_all(s.pending, attributes));
            lemma_append_ok(
                flushed,
                ItemModel::Node(
                    leaf_node(
                        crate::tree::NodeKind::Milestone,
                        crate::usfm::text_or_empty(tag_name),
                        node_attrs(insert_all(s.pending, attributes)),
                    ),
                ),
            );
            if s.milestone is Some {
                lemma_append_ok(
                    flushed,
                    ItemModel::Node(
                        leaf_node(
                            crate::tree::NodeKind::Milestone,
                            s.milestone->0,
                            node_attrs(s.pending),
                        ),
                    ),
                );
            }
        },
        TokenModel::Attribute { subclass, key, value_string } => {
            lemma_insert_entry(s.pending, key, value_string);
        },
        TokenModel::PubChapter { subclass, number_string } => {},
    }
}

/// Tokens lead from a reader in order to a reader in order.
pub proof fn lemma_run_ok(s: ReaderState, tokens: Seq<TokenModel>)
    requires
        reader_ok(s),
    ensures
        reader_ok(run(s, tokens)),
    decreases tokens.len(),
{
    if tokens.len() > 0 {
        lemma_run_ok(s, tokens.drop_last());
        lemma_step_ok(run(s, tokens.drop_last()), tokens.last());
    }
}

/// In the document of any tokens, every node has attributes with distinct keys, none
/// of them named like a member that every node has.
pub proof fn lemma_built_documents_are_in_order(tokens: Seq<TokenModel>)
    ensures
        nodes_ok(document_of_tokens(tokens).content),
{
    let start = initial_state();
    assert(state_ok(empty_state()));
    assert(unique_keys(start.pending));
    lemma_run_ok(start, tokens);
    let s = run(start, tokens);
    lemma_flush_ok(s.model, s.text);
    lemma_close_para_ok(flush(s.model, s.text));
    assert(document_of_tokens(tokens).content == final_state(s).paras);
}

} // verus!
