//! The reader of tag streams: from tokens to the canonical tree.
//!
//! The reader keeps the document under construction, the text that is pending, the
//! attributes that are pending, and the marker of a milestone whose end is awaited. Each
//! token takes the reader from one state to the next; the end of the input closes what
//! is open.

use vstd::prelude::*;
use vstd::string::StringExecFns;
use crate::attributes::insert_entry;
use crate::attributes::AttributeMap;
use crate::attributes::Entries;
use crate::builder::all_closed;
use crate::builder::append_inline;
use crate::builder::close_all_chars;
use crate::builder::close_char;
use crate::builder::close_note;
use crate::builder::close_para;
use crate::builder::empty_state;
use crate::builder::flush;
use crate::builder::insert_all;
use crate::builder::insert_attributes;
use crate::builder::is_version_line;
use crate::builder::leaf_node;
use crate::builder::lemma_close_para_closes_all;
use crate::builder::lemma_close_para_keeps_finished;
use crate::builder::lemma_inner_steps_keep_finished;
use crate::builder::node_attributes;
use crate::builder::node_attrs;
use crate::builder::AosjStringModel;
use crate::emit::document_json;
use crate::builder::ModelState;
use crate::error::ErrorModel;
use crate::error::UsfmError;
use crate::lexer::pattern_matches;
use crate::lexer::lexemes_model;
use crate::lexer::lexemes_spec;
use crate::lexer::tokenize;
use crate::lexer::Lexeme;
use crate::lexer::LexemeModel;
use crate::lexer::GRAMMAR;
use crate::markers::TagType;
use crate::text::collapse_blanks;
use crate::text::collapse_blanks_spec;
use crate::text::copy_str;
use crate::text::str_eq;
use crate::token::Category;
use crate::token::Tag;
use crate::token::Token;
use crate::token::TokenModel;
use crate::tree::Document;
use crate::tree::DocumentModel;
use crate::tree::Item;
use crate::tree::ItemModel;
use crate::tree::Node;
use crate::tree::NodeKind;
use crate::tree::NodeModel;

verus! {

/// The model of a reader.
pub struct ReaderState {
    /// The document under construction.
    pub model: ModelState,
    /// The text that was read and not yet added.
    pub text: Seq<char>,
    /// The attributes that were read and not yet given to a node.
    pub pending: Entries,
    /// The marker of a milestone whose start tag was read and whose end is awaited.
    pub milestone: Option<Seq<char>>,
}

/// The state of a reader that has read nothing.
pub open spec fn initial_state() -> ReaderState {
    ReaderState {
        model: empty_state(),
        text: Seq::empty(),
        pending: Seq::empty(),
        milestone: None,
    }
}

/// A node that is opened without content.
pub open spec fn open_node(
    kind: NodeKind,
    marker: Seq<char>,
    nested: bool,
    attributes: Entries,
) -> NodeModel {
    NodeModel { kind, marker, nested, attributes, content: Seq::empty() }
}

/// The state after the tag `tag` closed what it closes, with the pending text as the
/// end of the content: a paragraph or book tag closes the open paragraph and what is
/// open in it; a character tag closes the innermost span, if there is one; a note tag
/// closes the open note, if there is one. Where nothing is closed, nothing changes.
pub open spec fn end_tag_state(m: ModelState, text: Seq<char>, tag_type: TagType) -> (
    ModelState,
    Seq<char>,
) {
    match tag_type {
        TagType::Paragraph | TagType::Book => (close_para(flush(m, text)), Seq::empty()),
        TagType::Character => if m.chars.len() > 0 {
            (close_char(flush(m, text)), Seq::empty())
        } else {
            (m, text)
        },
        TagType::Note => if m.note is Some {
            (close_note(flush(m, text)), Seq::empty())
        } else {
            (m, text)
        },
    }
}

/// The span of a word link: the pending attributes, and the pending text as its one
/// text.
pub open spec fn word_link(nested: bool, pending: Entries, text: Seq<char>) -> NodeModel {
    NodeModel {
        kind: NodeKind::Char,
        marker: "w"@,
        nested,
        attributes: node_attrs(pending),
        content: if text.len() > 0 {
            seq![ItemModel::Text(text)]
        } else {
            Seq::empty()
        },
    }
}

/// The state after a start tag.
pub open spec fn after_start_tag(
    s: ReaderState,
    tag_type: TagType,
    tag_name: Seq<char>,
    full_tag_name: Seq<char>,
    is_nested: bool,
) -> ReaderState {
    let flushed = flush(s.model, s.text);
    match tag_type {
        TagType::Paragraph => ReaderState {
            model: ModelState {
                current_para: Some(
                    open_node(NodeKind::Para, full_tag_name, false, node_attrs(s.pending)),
                ),
                ..close_para(flushed)
            },
            text: Seq::empty(),
            pending: Seq::empty(),
            ..s
        },
        TagType::Book => ReaderState {
            model: ModelState {
                current_para: Some(open_node(NodeKind::Book, tag_name, false, Seq::empty())),
                ..close_para(flushed)
            },
            text: Seq::empty(),
            ..s
        },
        TagType::Character => if tag_name == "w"@ {
            ReaderState { model: flushed, text: Seq::empty(), ..s }
        } else {
            let m = if is_nested {
                flushed
            } else {
                close_all_chars(flushed)
            };
            ReaderState {
                model: ModelState {
                    chars: m.chars.push(
                        open_node(NodeKind::Char, tag_name, is_nested, node_attrs(s.pending)),
                    ),
                    ..m
                },
                text: Seq::empty(),
                pending: Seq::empty(),
                ..s
            }
        },
        TagType::Note => ReaderState {
            model: ModelState {
                note: Some(open_node(NodeKind::Note, full_tag_name, false, node_attrs(s.pending))),
                ..close_note(flushed)
            },
            text: Seq::empty(),
            pending: Seq::empty(),
            ..s
        },
    }
}

/// The state after an end tag. The end of a word link adds the span of the link. Any
/// other end tag closes what its type says, if that is open.
pub open spec fn after_end_tag(
    s: ReaderState,
    tag_type: TagType,
    tag_name: Seq<char>,
    is_nested: bool,
) -> ReaderState {
    match tag_type {
        TagType::Character => if tag_name == "w"@ {
            ReaderState {
                model: append_inline(
                    s.model,
                    ItemModel::Node(word_link(is_nested, s.pending, s.text)),
                ),
                text: Seq::empty(),
                pending: Seq::empty(),
                ..s
            }
        } else {
            let r = end_tag_state(s.model, s.text, tag_type);
            ReaderState { model: r.0, text: r.1, ..s }
        },
        TagType::Note => {
            let r = end_tag_state(s.model, s.text, tag_type);
            ReaderState { model: r.0, text: r.1, ..s }
        },
        _ => s,
    }
}

/// The state after a line break: the pending text is added, and an open book
/// identification or version line is closed.
pub open spec fn after_line_break(s: ReaderState) -> ReaderState {
    let m = flush(s.model, s.text);
    let closes = m.current_para is Some && (m.current_para->0.kind == NodeKind::Book
        || is_version_line(m.current_para->0));
    ReaderState {
        model: if closes {
            close_para(m)
        } else {
            m
        },
        text: Seq::empty(),
        ..s
    }
}

/// The marker of a milestone with a side: the name, a hyphen and the side.
pub open spec fn milestone_marker(name: Seq<char>, side: Seq<char>) -> Option<Seq<char>> {
    if side == "s"@ {
        Some(name + "-s"@)
    } else if side == "e"@ {
        Some(name + "-e"@)
    } else {
        None
    }
}

/// The text of an optional text: empty where there is none.
pub open spec fn text_or_empty(o: Option<Seq<char>>) -> Seq<char> {
    match o {
        Some(s) => s,
        None => Seq::empty(),
    }
}

/// The state after a milestone token. A whole milestone adds its node, with the
/// pending attributes and its own. A start tag
/// with a side makes its marker awaited. The end marker adds the node of the awaited
/// marker with the pending attributes, and is passed over where none is awaited.
pub open spec fn after_milestone(
    s: ReaderState,
    subclass: Category,
    side: Option<Seq<char>>,
    name: Option<Seq<char>>,
    attributes: Entries,
) -> ReaderState {
    let m = flush(s.model, s.text);
    match subclass {
        Category::EmptyMilestone => ReaderState {
            model: append_inline(
                m,
                ItemModel::Node(
                    leaf_node(
                        NodeKind::Milestone,
                        text_or_empty(name),
                        node_attrs(insert_all(s.pending, attributes)),
                    ),
                ),
            ),
            text: Seq::empty(),
            pending: Seq::empty(),
            ..s
        },
        Category::StartMilestoneTag => ReaderState {
            model: m,
            text: Seq::empty(),
            milestone: match milestone_marker(text_or_empty(name), text_or_empty(side)) {
                Some(marker) => Some(marker),
                None => s.milestone,
            },
            ..s
        },
        Category::EndMilestoneTag => match s.milestone {
            Some(marker) => ReaderState {
                model: append_inline(
                    m,
                    ItemModel::Node(leaf_node(NodeKind::Milestone, marker, node_attrs(s.pending))),
                ),
                text: Seq::empty(),
                pending: Seq::empty(),
                milestone: None,
            },
            None => ReaderState { model: m, text: Seq::empty(), ..s },
        },
        _ => ReaderState { model: m, text: Seq::empty(), ..s },
    }
}

/// The state after one token.
pub open spec fn step(s: ReaderState, t: TokenModel) -> ReaderState {
    match t {
        TokenModel::Tag { subclass, tag_name, is_nested, tag_level, full_tag_name, tag_type } => {
            if subclass == Category::StartTag {
                after_start_tag(s, tag_type, tag_name, full_tag_name, is_nested)
            } else if subclass == Category::EndTag {
                after_end_tag(s, tag_type, tag_name, is_nested)
            } else {
                s
            }
        },
        TokenModel::Printable { subclass, print_value } => {
            if subclass == Category::Eol {
                after_line_break(s)
            } else {
                ReaderState { text: s.text + collapse_blanks_spec(print_value), ..s }
            }
        },
        TokenModel::Chapter { subclass, number_string, number } => {
            let m = close_para(flush(s.model, s.text));
            ReaderState {
                model: ModelState {
                    paras: m.paras.push(
                        leaf_node(
                            NodeKind::Chapter,
                            "c"@,
                            insert_entry(node_attrs(s.pending), "number"@, number_string),
                        ),
                    ),
                    ..m
                },
                text: Seq::empty(),
                pending: Seq::empty(),
                ..s
            }
        },
        TokenModel::Verses { subclass, number_string } => ReaderState {
            model: append_inline(
                flush(s.model, s.text),
                ItemModel::Node(
                    leaf_node(
                        NodeKind::Verse,
                        "v"@,
                        insert_entry(node_attrs(s.pending), "number"@, number_string),
                    ),
                ),
            ),
            text: Seq::empty(),
            pending: Seq::empty(),
            ..s
        },
        TokenModel::Milestone { subclass, s_or_e, tag_name, attributes } => after_milestone(
            s,
            subclass,
            s_or_e,
            tag_name,
            attributes,
        ),
        TokenModel::Attribute { subclass, key, value_string } => ReaderState {
            pending: insert_entry(s.pending, key, value_string),
            ..s
        },
        TokenModel::PubChapter { subclass, number_string } => s,
    }
}

/// The state after the tokens `tokens`, read in order from the state `s`.
pub open spec fn run(s: ReaderState, tokens: Seq<TokenModel>) -> ReaderState
    decreases tokens.len(),
{
    if tokens.len() == 0 {
        s
    } else {
        step(run(s, tokens.drop_last()), tokens.last())
    }
}

/// The state of the document at the end of the input: the pending text is added and
/// what is open is closed.
pub open spec fn final_state(s: ReaderState) -> ModelState {
    close_para(flush(s.model, s.text))
}

/// The document that the tokens `tokens` make.
pub open spec fn document_of_tokens(tokens: Seq<TokenModel>) -> DocumentModel {
    let m = final_state(run(initial_state(), tokens));
    DocumentModel { version: m.version, content: m.paras }
}

/// The tokens of a sequence of lexemes.
pub open spec fn tokens_of(lexemes: Seq<LexemeModel>) -> Seq<TokenModel> {
    Seq::new(lexemes.len(), |i: int| lexemes[i].token)
}

/// At the end of the input no paragraph, book identification, note or character span
/// is left open, whatever the tokens were, and the document is what was finished.
pub proof fn lemma_end_of_input_closes_everything(tokens: Seq<TokenModel>)
    ensures
        all_closed(final_state(run(initial_state(), tokens))),
        document_of_tokens(tokens).content == final_state(run(initial_state(), tokens)).paras,
        document_of_tokens(tokens).version == final_state(run(initial_state(), tokens)).version,
{
    let s = run(initial_state(), tokens);
    lemma_close_para_closes_all(flush(s.model, s.text));
}

/// A token changes no finished node: the finished nodes before it are the first of the
/// finished nodes after it.
pub proof fn lemma_step_keeps_finished(s: ReaderState, t: TokenModel)
    ensures
        s.model.paras.is_prefix_of(step(s, t).model.paras),
{
    let flushed = flush(s.model, s.text);
    lemma_inner_steps_keep_finished(s.model, ItemModel::Text(s.text), s.text);
    lemma_inner_steps_keep_finished(flushed, ItemModel::Text(s.text), s.text);
    lemma_close_para_keeps_finished(flushed);
    lemma_close_para_keeps_finished(s.model);
    match t {
        TokenModel::Tag { subclass, tag_name, is_nested, tag_level, full_tag_name, tag_type } => {
            lemma_inner_steps_keep_finished(
                s.model,
                ItemModel::Node(word_link(is_nested, s.pending, s.text)),
                s.text,
            );
            lemma_inner_steps_keep_finished(close_all_chars(flushed), ItemModel::Text(s.text), s.text);
        },
        TokenModel::Verses { subclass, number_string } => {
            lemma_inner_steps_keep_finished(
                flushed,
                ItemModel::Node(
                    leaf_node(
                        NodeKind::Verse,
                        "v"@,
                        insert_entry(node_attrs(s.pending), "number"@, number_string),
                    ),
                ),
                s.text,
            );
        },
        TokenModel::Milestone { subclass, s_or_e, tag_name, attributes } => {
            lemma_inner_steps_keep_finished(
                flushed,
                ItemModel::Node(
                    leaf_node(
                        NodeKind::Milestone,
                        text_or_empty(tag_name),
                        node_attrs(insert_all(s.pending, attributes)),
                    ),
                ),
                s.text,
            );
            if s.milestone is Some {
                lemma_inner_steps_keep_finished(
                    flushed,
                    ItemModel::Node(
                        leaf_node(NodeKind::Milestone, s.milestone->0, node_attrs(s.pending)),
                    ),
                    s.text,
                );
            }
        },
        _ => {},
    }
}

/// What is finished stays: the finished nodes of a state are the first of the finished
/// nodes of every state that tokens lead to from it.
pub proof fn lemma_run_keeps_finished(s: ReaderState, tokens: Seq<TokenModel>)
    ensures
        s.model.paras.is_prefix_of(run(s, tokens).model.paras),
    decreases tokens.len(),
{
    if tokens.len() > 0 {
        lemma_run_keeps_finished(s, tokens.drop_last());
        lemma_step_keeps_finished(run(s, tokens.drop_last()), tokens.last());
        let a = s.model.paras;
        let b = run(s, tokens.drop_last()).model.paras;
        let c = run(s, tokens).model.paras;
        assert(c.take(a.len() as int) == a) by {
            assert(c.take(b.len() as int) == b);
            assert(b.take(a.len() as int) == a);
            assert forall|i: int| 0 <= i < a.len() implies c.take(a.len() as int)[i] == a[i] by {
                assert(c[i] == c.take(b.len() as int)[i]);
                assert(b[i] == b.take(a.len() as int)[i]);
            }
        }
    }
}

/// Whether a token leaves the pending text pending: text itself, an attribute, a
/// published chapter number, and an end tag that closes nothing.
pub open spec fn leaves_text_pending(s: ReaderState, t: TokenModel) -> bool {
    match t {
        TokenModel::Printable { subclass, print_value } => subclass != Category::Eol,
        TokenModel::Attribute { subclass, key, value_string } => true,
        TokenModel::PubChapter { subclass, number_string } => true,
        TokenModel::Tag { subclass, tag_name, is_nested, tag_level, full_tag_name, tag_type } => {
            if subclass == Category::StartTag {
                false
            } else if subclass == Category::EndTag {
                match tag_type {
                    TagType::Character => tag_name != "w"@ && s.model.chars.len() == 0,
                    TagType::Note => s.model.note is None,
                    _ => true,
                }
            } else {
                true
            }
        },
        _ => false,
    }
}

/// Every other token is a structural transition, and no text is pending after it: the
/// text that was pending has been added before the structure changed.
pub proof fn lemma_structural_token_flushes(s: ReaderState, t: TokenModel)
    requires
        !leaves_text_pending(s, t),
    ensures
        step(s, t).text.len() == 0,
{
}

/// Closes what the tag `token` closes, with the pending text as the end of the content.
pub fn do_end_tag(model: &mut AosjStringModel, token: &Tag, txt: &mut String)
    ensures
        (final(model)@, final(txt)@) == end_tag_state(old(model)@, old(txt)@, token.tag_type),
{
    match token.tag_type {
        TagType::Paragraph | TagType::Book => {
            model.add_string_to_in_para(txt);
            model.end_new_para();
            assert(txt@ == Seq::<char>::empty());
        },
        TagType::Character => {
            model.end_add_char_marker(txt);
            assert(old(model)@.chars.len() > 0 ==> txt@ == Seq::<char>::empty());
        },
        TagType::Note => {
            model.end_add_note(txt);
            assert(old(model)@.note is Some ==> txt@ == Seq::<char>::empty());
        },
    }
}

/// A reader of tokens.
pub struct UsfmReader {
    /// The document under construction.
    pub model: AosjStringModel,
    /// The text that was read and not yet added.
    pub txt: String,
    /// The attributes that were read and not yet given to a node.
    pub attributes: AttributeMap,
    /// The marker of a milestone whose end is awaited.
    pub milestone: Option<String>,
}

impl UsfmReader {
    /// The model of the reader.
    pub open spec fn view(&self) -> ReaderState {
        ReaderState {
            model: self.model@,
            text: self.txt@,
            pending: self.attributes@,
            milestone: match self.milestone {
                Some(m) => Some(m@),
                None => None,
            },
        }
    }

    /// A reader that has read nothing.
    pub fn new() -> (r: Self)
        ensures
            r@ == initial_state(),
    {
        UsfmReader {
            model: AosjStringModel::new(),
            txt: String::new(),
            attributes: AttributeMap::new(),
            milestone: None,
        }
    }

    /// Hands out the attributes for a node and empties the pending ones.
    fn take_attributes(&mut self) -> (a: AttributeMap)
        ensures
            a@ == node_attrs(old(self)@.pending),
            final(self)@ == (ReaderState { pending: Seq::empty(), ..old(self)@ }),
    {
        let a = node_attributes(&self.attributes);
        self.attributes.clear();
        a
    }

    /// Reads a start tag.
    fn start_tag(&mut self, t: &Tag)
        ensures
            final(self)@ == after_start_tag(
                old(self)@,
                t.tag_type,
                t.tag_name@,
                t.full_tag_name@,
                t.is_nested,
            ),
    {
        self.model.add_string_to_in_para(&mut self.txt);
        assert(self.txt@ == Seq::<char>::empty());
        match t.tag_type {
            TagType::Paragraph => {
                self.model.end_new_para();
                let attributes = self.take_attributes();
                self.model.start_new_para(copy_str(t.full_tag_name.as_str()), attributes);
            },
            TagType::Book => {
                self.model.end_new_para();
                self.model.start_book(copy_str(t.tag_name.as_str()));
            },
            TagType::Character => {
                if !str_eq(t.tag_name.as_str(), "w") {
                    if !t.is_nested {
                        self.model.close_all_chars();
                    }
                    let attributes = self.take_attributes();
                    self.model.start_add_char_marker(
                        copy_str(t.tag_name.as_str()),
                        t.is_nested,
                        attributes,
                    );
                }
            },
            TagType::Note => {
                self.model.close_note();
                let attributes = self.take_attributes();
                self.model.start_add_note(copy_str(t.full_tag_name.as_str()), attributes);
            },
        }
    }

    /// Reads an end tag.
    fn end_tag(&mut self, t: &Tag)
        ensures
            final(self)@ == after_end_tag(old(self)@, t.tag_type, t.tag_name@, t.is_nested),
    {
        match t.tag_type {
            TagType::Character => {
                if str_eq(t.tag_name.as_str(), "w") {
                    let attributes = self.take_attributes();
                    let mut node = Node::new(NodeKind::Char, copy_str("w"), t.is_nested, attributes);
                    if !self.txt.as_str().is_empty() {
                        let mut taken = String::new();
                        core::mem::swap(&mut self.txt, &mut taken);
                        node.push_item(Item::Text(taken));
                        assert(node@.content == seq![ItemModel::Text(taken@)]);
                    }
                    assert(self.txt@ == Seq::<char>::empty());
                    self.model.append_inline(Item::Node(node));
                } else {
                    do_end_tag(&mut self.model, t, &mut self.txt);
                }
            },
            TagType::Note => {
                do_end_tag(&mut self.model, t, &mut self.txt);
            },
            _ => {},
        }
    }

    /// Reads a milestone token.
    fn milestone_token(&mut self, m: &crate::token::Milestone)
        ensures
            final(self)@ == after_milestone(
                old(self)@,
                m.subclass,
                crate::token::option_view(m.s_or_e),
                crate::token::option_view(m.tag_name),
                m.attributes@,
            ),
    {
        self.model.add_string_to_in_para(&mut self.txt);
        assert(self.txt@ == Seq::<char>::empty());
        match m.subclass {
            Category::EmptyMilestone => {
                let marker = match &m.tag_name {
                    Some(name) => copy_str(name.as_str()),
                    None => String::new(),
                };
                insert_attributes(&mut self.attributes, &m.attributes);
                let attributes = self.take_attributes();
                self.model.add_milestone(marker, attributes);
            },
            Category::StartMilestoneTag => {
                let name = match &m.tag_name {
                    Some(name) => copy_str(name.as_str()),
                    None => String::new(),
                };
                let side = match &m.s_or_e {
                    Some(side) => copy_str(side.as_str()),
                    None => String::new(),
                };
                if str_eq(side.as_str(), "s") {
                    self.milestone = Some(name.concat("-s"));
                } else if str_eq(side.as_str(), "e") {
                    self.milestone = Some(name.concat("-e"));
                }
            },
            Category::EndMilestoneTag => {
                if self.milestone.is_some() {
                    let marker = self.milestone.take().unwrap();
                    let attributes = self.take_attributes();
                    self.model.add_milestone(marker, attributes);
                }
            },
            _ => {},
        }
    }

    /// Reads one token.
    pub fn step(&mut self, token: &Token)
        ensures
            final(self)@ == step(old(self)@, token@),
    {
        match token {
            Token::Tag(t) => {
                match t.subclass {
                    Category::StartTag => {
                        self.start_tag(t);
                    },
                    Category::EndTag => {
                        self.end_tag(t);
                    },
                    _ => {},
                }
            },
            Token::Printable(p) => {
                match p.subclass {
                    Category::Eol => {
                        self.model.add_string_to_in_para(&mut self.txt);
                        assert(self.txt@ == Seq::<char>::empty());
                        let closes = match &self.model.current_para {
                            Some(para) => match para.kind {
                                NodeKind::Book => true,
                                NodeKind::Para => str_eq(para.marker.as_str(), "usfm"),
                                _ => false,
                            },
                            None => false,
                        };
                        if closes {
                            self.model.end_new_para();
                        }
                    },
                    _ => {
                        let collapsed = collapse_blanks(p.print_value.as_str());
                        self.txt.append(collapsed.as_str());
                    },
                }
            },
            Token::Chapter(c) => {
                self.model.add_string_to_in_para(&mut self.txt);
                assert(self.txt@ == Seq::<char>::empty());
                self.model.end_new_para();
                let mut attributes = self.take_attributes();
                attributes.insert(copy_str("number"), copy_str(c.number_string.as_str()));
                self.model.add_chapter(attributes);
            },
            Token::Verses(v) => {
                self.model.add_string_to_in_para(&mut self.txt);
                assert(self.txt@ == Seq::<char>::empty());
                let mut attributes = self.take_attributes();
                attributes.insert(copy_str("number"), copy_str(v.number_string.as_str()));
                self.model.add_verse_to_in_para(attributes);
            },
            Token::Milestone(m) => {
                self.milestone_token(m);
            },
            Token::Attribute(a) => {
                self.attributes.insert(
                    copy_str(a.key.as_str()),
                    copy_str(a.value_string.as_str()),
                );
            },
            Token::PubChapter(_) => {},
        }
    }

    /// Ends the reading: the pending text is added, what is open is closed, and the
    /// document is handed out.
    pub fn finish(self) -> (d: Document)
        ensures
            d@.version == final_state(self@).version,
            d@.content == final_state(self@).paras,
            all_closed(final_state(self@)),
    {
        let mut r = self;
        proof {
            lemma_close_para_closes_all(flush(r@.model, r@.text));
        }
        r.model.add_string_to_in_para(&mut r.txt);
        r.model.into_document()
    }
}

/// Builds the document of a sequence of lexemes.
pub fn build_document_from_tokens(lexemes: &Vec<Lexeme>) -> (d: Document)
    ensures
        d@ == document_of_tokens(tokens_of(lexemes_model(lexemes@))),
{
    let ghost tokens = tokens_of(lexemes_model(lexemes@));
    let mut reader = UsfmReader::new();
    let mut i: usize = 0;
    proof {
        assert(tokens.take(0) == Seq::<TokenModel>::empty());
    }
    while i < lexemes.len()
        invariant
            i <= lexemes@.len(),
            tokens == tokens_of(lexemes_model(lexemes@)),
            reader@ == run(initial_state(), tokens.take(i as int)),
        decreases lexemes@.len() - i,
    {
        proof {
            assert(tokens.take(i + 1).drop_last() == tokens.take(i as int));
            assert(tokens.take(i + 1).last() == lexemes@[i as int].token@);
        }
        reader.step(&lexemes[i].token);
        i = i + 1;
    }
    proof {
        assert(tokens.take(i as int) == tokens);
    }
    reader.finish()
}

/// The outcome of reading the text `text`, given what the search for the grammar
/// yields in it.
pub open spec fn document_of_search(text: Seq<char>, found: Option<Seq<crate::lexer::Groups>>) -> Result<
    DocumentModel,
    ErrorModel,
> {
    match found {
        None => Err(ErrorModel::Grammar),
        Some(ms) => match lexemes_spec(text, ms) {
            Ok(lexemes) => Ok(document_of_tokens(tokens_of(lexemes))),
            Err(e) => Err(e),
        },
    }
}

/// Builds the document that the text of a tag stream writes.
///
/// The text is tokenized and the tokens are read. A tag whose name is in no marker
/// table, and a chapter number or tag level that is no numeral, end the conversion
/// with a failure.
pub fn build_document_from_tagstream(text: &str) -> (r: Result<Document, UsfmError>)
    ensures
        match document_of_search(text@, pattern_matches(GRAMMAR@, text@)) {
            Ok(d) => r is Ok && r->Ok_0@ == d,
            Err(e) => r is Err && r->Err_0@ == e,
        },
{
    match tokenize(text) {
        Ok(lexemes) => Ok(build_document_from_tokens(&lexemes)),
        Err(e) => Err(e),
    }
}

/// The outcome of converting the text `text` to JSON, given what the search for the
/// grammar yields in it.
pub open spec fn json_of_search(text: Seq<char>, found: Option<Seq<crate::lexer::Groups>>) -> Result<
    Seq<char>,
    ErrorModel,
> {
    match document_of_search(text, found) {
        Ok(d) => Ok(document_json(d)),
        Err(e) => Err(e),
    }
}

/// Converts the text of a tag stream to the JSON text of its document.
pub fn deserialize_from_file_usfm(content: String) -> (r: Result<String, UsfmError>)
    ensures
        match json_of_search(content@, pattern_matches(GRAMMAR@, content@)) {
            Ok(json) => r is Ok && r->Ok_0@ == json,
            Err(e) => r is Err && r->Err_0@ == e,
        },
{
    match build_document_from_tagstream(content.as_str()) {
        Ok(document) => Ok(document.to_json()),
        Err(e) => Err(e),
    }
}

/// Converts the text of a tag stream to the JSON text of its document.
pub fn deserialize_from_file(content: String) -> (r: Result<String, UsfmError>)
    ensures
        match json_of_search(content@, pattern_matches(GRAMMAR@, content@)) {
            Ok(json) => r is Ok && r->Ok_0@ == json,
            Err(e) => r is Err && r->Err_0@ == e,
        },
{
    deserialize_from_file_usfm(content)
}

/// The JSON text of the document of a text in the line-per-verse encoding: no part of
/// that encoding is read, so the document is empty whatever the text.
pub fn deserialize_from_file_e_bible(content: String) -> (r: String)
    ensures
        r@ == document_json(DocumentModel { version: None, content: Seq::empty() }),
{
    let model = AosjStringModel::new();
    model.assemble_model()
}

} // verus!
