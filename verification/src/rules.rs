//! The rules on the attributes of the elements of a document.
//!
//! For each kind of element a table lists the attributes that it must have and a table
//! lists the attributes that it may have. An element of any other kind may have any
//! attribute.

use vstd::prelude::*;
use vstd::string::StringExecFns;
use crate::attributes::has_key;
use crate::attributes::AttributeMap;
use crate::attributes::Entries;
use crate::markers::names_contain;
use crate::markers::table_contains;
use crate::text::copy_str;
use crate::text::str_eq;

verus! {

/// What a paragraph must have.
pub const PARA_REQUIRED: [&'static str; 2] = ["type", "marker"];

/// What a paragraph may have.
pub const PARA_ALLOWED: [&'static str; 4] = ["type", "content", "marker", "sid"];

/// What a book must have.
pub const BOOK_REQUIRED: [&'static str; 3] = ["type", "marker", "code"];

/// What a book may have.
pub const BOOK_ALLOWED: [&'static str; 4] = ["type", "content", "marker", "code"];

/// What a chapter must have.
pub const CHAPTER_REQUIRED: [&'static str; 3] = ["type", "marker", "number"];

/// What a chapter may have.
pub const CHAPTER_ALLOWED: [&'static str; 6] = [
    "type",
    "marker",
    "number",
    "sid",
    "altnumber",
    "pubnumber",
];

/// What a character span must have.
pub const CHAR_REQUIRED: [&'static str; 2] = ["type", "marker"];

/// What a character span may have.
pub const CHAR_ALLOWED: [&'static str; 5] = ["type", "content", "marker", "link_id", "link_href"];

/// The index of the first name of `required` that `attrs` lacks, or the length of
/// `required`.
pub open spec fn first_missing(attrs: Entries, required: Seq<&'static str>, from: int) -> int
    decreases required.len() - from,
{
    if from < 0 || from >= required.len() {
        required.len() as int
    } else if !has_key(attrs, required[from]@) {
        from
    } else {
        first_missing(attrs, required, from + 1)
    }
}

/// The index of the first pair of `attrs` whose key is not in `allowed`, or the length
/// of `attrs`.
pub open spec fn first_unexpected(attrs: Entries, allowed: Seq<&'static str>, from: int) -> int
    decreases attrs.len() - from,
{
    if from < 0 || from >= attrs.len() {
        attrs.len() as int
    } else if !names_contain(allowed, attrs[from].0) {
        from
    } else {
        first_unexpected(attrs, allowed, from + 1)
    }
}

/// The message for a missing attribute.
pub open spec fn missing_message(name: Seq<char>) -> Seq<char> {
    "Missing required attribute '"@ + name + "'"@
}

/// The message for an attribute that may not be there.
pub open spec fn unexpected_message(key: Seq<char>) -> Seq<char> {
    "Unexpected attribute '"@ + key + "' in 'para'"@
}

/// The verdict on attributes against a table of required and a table of allowed
/// names: the first required name that is missing is reported; else the first
/// attribute that is not allowed; else the attributes are accepted.
pub open spec fn check_tables(
    attrs: Entries,
    required: Seq<&'static str>,
    allowed: Seq<&'static str>,
) -> Result<(), Seq<char>> {
    let m = first_missing(attrs, required, 0);
    let u = first_unexpected(attrs, allowed, 0);
    if m < required.len() {
        Err(missing_message(required[m]@))
    } else if u < attrs.len() {
        Err(unexpected_message(attrs[u].0))
    } else {
        Ok(())
    }
}

/// The verdict on the attributes of an element named `tag_name`.
pub open spec fn validate_spec(tag_name: Seq<char>, attrs: Entries) -> Result<(), Seq<char>> {
    if tag_name == "para"@ {
        check_tables(attrs, PARA_REQUIRED@, PARA_ALLOWED@)
    } else if tag_name == "book"@ {
        check_tables(attrs, BOOK_REQUIRED@, BOOK_ALLOWED@)
    } else if tag_name == "chapter"@ {
        check_tables(attrs, CHAPTER_REQUIRED@, CHAPTER_ALLOWED@)
    } else if tag_name == "char"@ {
        check_tables(attrs, CHAR_REQUIRED@, CHAR_ALLOWED@)
    } else {
        Ok(())
    }
}

/// Checks attributes against a table of required and a table of allowed names.
pub fn check_against(
    attributes: &AttributeMap,
    required: &[&'static str],
    allowed: &[&'static str],
) -> (r: Result<(), String>)
    ensures
        match check_tables(attributes@, required@, allowed@) {
            Ok(_) => r is Ok,
            Err(message) => r is Err && r->Err_0@ == message,
        },
{
    let mut i: usize = 0;
    while i < required.len()
        invariant
            i <= required@.len(),
            first_missing(attributes@, required@, 0) == first_missing(
                attributes@,
                required@,
                i as int,
            ),
        decreases required@.len() - i,
    {
        if !attributes.contains_key(required[i]) {
            return Err(copy_str("Missing required attribute '").concat(required[i]).concat("'"));
        }
        i = i + 1;
    }
    let mut j: usize = 0;
    while j < attributes.len()
        invariant
            j <= attributes@.len(),
            first_missing(attributes@, required@, 0) == required@.len(),
            first_unexpected(attributes@, allowed@, 0) == first_unexpected(
                attributes@,
                allowed@,
                j as int,
            ),
        decreases attributes@.len() - j,
    {
        if !table_contains(allowed, attributes.key_at(j).as_str()) {
            return Err(
                copy_str("Unexpected attribute '").concat(attributes.key_at(j).as_str()).concat(
                    "' in 'para'",
                ),
            );
        }
        j = j + 1;
    }
    Ok(())
}

/// Checks the attributes of an element named `tag_name` against the rules of its kind.
pub fn validate_attributes(tag_name: &str, attributes: &AttributeMap) -> (r: Result<(), String>)
    ensures
        match validate_spec(tag_name@, attributes@) {
            Ok(_) => r is Ok,
            Err(message) => r is Err && r->Err_0@ == message,
        },
{
    if str_eq(tag_name, "para") {
        check_against(attributes, &PARA_REQUIRED, &PARA_ALLOWED)
    } else if str_eq(tag_name, "book") {
        check_against(attributes, &BOOK_REQUIRED, &BOOK_ALLOWED)
    } else if str_eq(tag_name, "chapter") {
        check_against(attributes, &CHAPTER_REQUIRED, &CHAPTER_ALLOWED)
    } else if str_eq(tag_name, "char") {
        check_against(attributes, &CHAR_REQUIRED, &CHAR_ALLOWED)
    } else {
        Ok(())
    }
}

} // verus!
