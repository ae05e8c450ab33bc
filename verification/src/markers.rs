//! The marker vocabulary and the classification of tag names.
//!
//! Three tables list the names that open a paragraph, a character span and a note.
//! A name is looked up without its nesting sign and without its level.

use vstd::prelude::*;
use crate::error::UsfmError;
use crate::text::copy_str;
use crate::text::str_eq;

verus! {

/// The markers that open a paragraph, title, heading or other block.
pub const PARA_MARKERS: [&'static str; 68] = [
    "usfm", "ide", "sts", "rem", "h", "toc", "toca",
    "imt", "is", "ip", "ipi", "im", "imi", "ipq", "imq", "ipr", "iq", "ib", "ili", "iot", "io",
    "iex", "imte", "ie",
    "mt", "mte", "ms", "mr", "s", "sr", "r", "d", "sp", "sd",
    "p", "m", "po", "pr", "cls", "pmo", "pm", "pmc", "pmr", "pi", "mi", "nb", "pc", "ph", "b",
    "lit",
    "q", "qr", "qc", "qa", "qm", "qd",
    "lh", "li", "lf", "lim",
    "tr",
    "cl", "cd",
    "periph", "restore", "esb", "esbe", "pb",
];

/// The markers that open a character span.
pub const CHAR_MARKERS: [&'static str; 71] = [
    "add", "bk", "dc", "k", "nd", "ord", "pn", "png", "addpn", "qt", "sig", "sls", "tl", "wj",
    "em", "bd", "it", "bdit", "no", "sc", "sup",
    "ndx", "pro", "rb", "w", "wg", "wh", "wa", "fig", "jmp",
    "qs", "qac", "litl", "lik", "liv", "rq", "ior", "iqt",
    "va", "vp", "ca",
    "fr", "fq", "fqa", "fk", "fl", "fw", "fp", "fv", "ft", "fdc", "fm",
    "xo", "xk", "xq", "xt", "xta", "xop", "xot", "xnt", "xdc",
    "th", "thr", "tc", "tcr", "thc", "tcc",
    "cat", "efm", "ref", "lk",
];

/// The markers that open a note.
pub const NOTE_MARKERS: [&'static str; 5] = ["f", "fe", "ef", "x", "ex"];

/// What a tag is, as far as the structure of a document goes.
#[derive(Debug, Clone, Copy, PartialEq, Eq, Structural)]
pub enum TagType {
    /// The tag opens a paragraph.
    Paragraph,
    /// The tag opens or closes a character span.
    Character,
    /// The tag opens or closes a note.
    Note,
    /// The tag opens the identification of the book.
    Book,
}

/// Whether `name` is the name of some entry of `table`.
pub open spec fn names_contain(table: Seq<&'static str>, name: Seq<char>) -> bool {
    exists|i: int| 0 <= i < table.len() && (#[trigger] table[i])@ == name
}

/// Whether `name` opens a paragraph.
pub open spec fn is_para_marker(name: Seq<char>) -> bool {
    names_contain(PARA_MARKERS@, name)
}

/// Whether `name` opens a character span.
pub open spec fn is_char_marker(name: Seq<char>) -> bool {
    names_contain(CHAR_MARKERS@, name)
}

/// Whether `name` opens a note.
pub open spec fn is_note_marker(name: Seq<char>) -> bool {
    names_contain(NOTE_MARKERS@, name)
}

/// The type of the tag named `name`, if the name is known: the paragraph table is
/// asked first, then the character table, then the name of the book identification,
/// then the note table.
pub open spec fn classify_spec(name: Seq<char>) -> Option<TagType> {
    if is_para_marker(name) {
        Some(TagType::Paragraph)
    } else if is_char_marker(name) {
        Some(TagType::Character)
    } else if name == "id"@ {
        Some(TagType::Book)
    } else if is_note_marker(name) {
        Some(TagType::Note)
    } else {
        None
    }
}

/// Looks `name` up in `table`.
pub fn table_contains(table: &[&'static str], name: &str) -> (b: bool)
    ensures
        b == names_contain(table@, name@),
{
    let mut i: usize = 0;
    while i < table.len()
        invariant
            i <= table@.len(),
            forall|j: int| 0 <= j < i ==> (#[trigger] table@[j])@ != name@,
        decreases table@.len() - i,
    {
        if str_eq(table[i], name) {
            return true;
        }
        i = i + 1;
    }
    false
}

/// Classifies a tag name, given without nesting sign and level. A name that no table
/// holds is an error that carries the name.
pub fn classify(name: &str) -> (r: Result<TagType, UsfmError>)
    ensures
        match classify_spec(name@) {
            Some(t) => r == Ok::<TagType, UsfmError>(t),
            None => r is Err && r->Err_0@ == crate::error::ErrorModel::UnknownMarker(name@),
        },
{
    if table_contains(&PARA_MARKERS, name) {
        Ok(TagType::Paragraph)
    } else if table_contains(&CHAR_MARKERS, name) {
        Ok(TagType::Character)
    } else if str_eq(name, "id") {
        Ok(TagType::Book)
    } else if table_contains(&NOTE_MARKERS, name) {
        Ok(TagType::Note)
    } else {
        Err(UsfmError::UnknownMarker(copy_str(name)))
    }
}

} // verus!
