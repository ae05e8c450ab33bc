//! The headers of a tag stream: the identification, the encoding, the running header
//! and a table-of-contents line, found without reading the whole stream.

use vstd::prelude::*;
use vstd::string::StringExecFns;
use crate::attributes::insert_entry;
use crate::attributes::AttributeMap;
use crate::attributes::Entries;
use crate::lexer::find_matches;
use crate::lexer::pattern_matches;
use crate::lexer::groups_model;
use crate::lexer::matches_model;
use crate::lexer::piece;
use crate::lexer::piece_of;
use crate::lexer::Groups;
use crate::text::copy_str;

verus! {

/// The pattern of the identification: its code is group 1.
pub const ID_PATTERN: &'static str = r"\\id (\w+)";

/// The pattern of the encoding: its name is group 1.
pub const IDE_PATTERN: &'static str = r"\\ide (\w+)";

/// The pattern of the running header: its text is group 1.
pub const H_PATTERN: &'static str = r"\\h (.+)";

/// The pattern of a table-of-contents line: its level is group 1, its text group 2.
pub const TOC_PATTERN: &'static str = r"\\toc(\d) (.+)";

/// The groups of the first match of a search; nothing where the pattern was refused or
/// nothing was found.
pub open spec fn first_match(found: Option<Seq<Groups>>) -> Option<Groups> {
    match found {
        Some(ms) => if ms.len() > 0 {
            Some(ms[0])
        } else {
            None
        },
        None => None,
    }
}

/// The attributes after the identification was looked at.
pub open spec fn with_id(a: Entries, id: Option<Groups>) -> Entries {
    match id {
        Some(g) => insert_entry(insert_entry(a, "marker"@, "id"@), "code"@, piece(g, 1)),
        None => a,
    }
}

/// The attributes after the encoding was looked at.
pub open spec fn with_ide(a: Entries, ide: Option<Groups>) -> Entries {
    match ide {
        Some(g) => insert_entry(insert_entry(a, "marker"@, "ide"@), "encoding"@, piece(g, 1)),
        None => a,
    }
}

/// The attributes after the running header was looked at.
pub open spec fn with_h(a: Entries, h: Option<Groups>) -> Entries {
    match h {
        Some(g) => insert_entry(insert_entry(a, "marker"@, "h"@), "title"@, piece(g, 1)),
        None => a,
    }
}

/// The attributes after the table-of-contents line was looked at.
pub open spec fn with_toc(a: Entries, toc: Option<Groups>) -> Entries {
    match toc {
        Some(g) => insert_entry(a, "toc"@ + piece(g, 1), piece(g, 2)),
        None => a,
    }
}

/// The attributes that the first matches of the four headers give: the marker is that
/// of the last header found among identification, encoding and running header.
pub open spec fn header_attributes(
    id: Option<Groups>,
    ide: Option<Groups>,
    h: Option<Groups>,
    toc: Option<Groups>,
) -> Entries {
    with_toc(with_h(with_ide(with_id(Seq::empty(), id), ide), h), toc)
}

/// The model of the groups of an optional first match.
pub open spec fn first_model(g: Option<Vec<Option<String>>>) -> Option<Groups> {
    match g {
        Some(v) => Some(groups_model(v@)),
        None => None,
    }
}

/// Makes the attributes of the headers from the first match of each.
pub fn attributes_of_headers(
    id: &Option<Vec<Option<String>>>,
    ide: &Option<Vec<Option<String>>>,
    h: &Option<Vec<Option<String>>>,
    toc: &Option<Vec<Option<String>>>,
) -> (a: AttributeMap)
    ensures
        a@ == header_attributes(
            first_model(*id),
            first_model(*ide),
            first_model(*h),
            first_model(*toc),
        ),
{
    let mut a = AttributeMap::new();
    match id {
        Some(g) => {
            a.insert(copy_str("marker"), copy_str("id"));
            a.insert(copy_str("code"), piece_of(g, 1));
        },
        None => {},
    }
    match ide {
        Some(g) => {
            a.insert(copy_str("marker"), copy_str("ide"));
            a.insert(copy_str("encoding"), piece_of(g, 1));
        },
        None => {},
    }
    match h {
        Some(g) => {
            a.insert(copy_str("marker"), copy_str("h"));
            a.insert(copy_str("title"), piece_of(g, 1));
        },
        None => {},
    }
    match toc {
        Some(g) => {
            let level = piece_of(g, 1);
            a.insert(copy_str("toc").concat(level.as_str()), piece_of(g, 2));
        },
        None => {},
    }
    a
}

/// The first match of a pattern in a text.
pub fn first_of(pattern: &str, text: &str) -> (g: Option<Vec<Option<String>>>)
    ensures
        first_model(g) == first_match(pattern_matches(pattern@, text@)),
{
    match find_matches(pattern, text) {
        Some(mut matches) => {
            if matches.len() > 0 {
                let ghost all = matches@;
                let first = matches.swap_remove(0);
                assert(first == all[0]);
                assert(matches_model(all)[0] == groups_model(all[0]@));
                Some(first)
            } else {
                None
            }
        },
        None => None,
    }
}

/// Finds the headers of a tag stream and makes their attributes.
pub fn extract_usfm_attributes(content: &str) -> (a: AttributeMap)
    ensures
        a@ == header_attributes(
            first_match(pattern_matches(ID_PATTERN@, content@)),
            first_match(pattern_matches(IDE_PATTERN@, content@)),
            first_match(pattern_matches(H_PATTERN@, content@)),
            first_match(pattern_matches(TOC_PATTERN@, content@)),
        ),
{
    let id = first_of(ID_PATTERN, content);
    let ide = first_of(IDE_PATTERN, content);
    let h = first_of(H_PATTERN, content);
    let toc = first_of(TOC_PATTERN, content);
    attributes_of_headers(&id, &ide, &h, &toc)
}

} // verus!
