//! The tokens of a tag stream and their construction from the pieces of a match.
//!
//! A match of the lexical grammar is handed over as its pieces: piece 0 is the whole
//! matched text, piece 1 the text of the category's own group, and the pieces from 2 on
//! are the inner groups of the category, empty where a group took no part.

use vstd::prelude::*;
use vstd::string::StringExecFns;
use crate::attributes::AttributeMap;
use crate::attributes::Entries;
use crate::error::ErrorModel;
use crate::error::UsfmError;
use crate::markers::classify;
use crate::markers::classify_spec;
use crate::markers::TagType;
use crate::text::chars_of;
use crate::text::copy_str;
use crate::text::lemma_split_nonempty;
use crate::text::parse_i32;
use crate::text::parse_i32_spec;
use crate::text::replace_char;
use crate::text::replace_char_spec;
use crate::text::split;
use crate::text::split_spec;
use crate::text::str_eq;
use crate::text::string_of;
use crate::text::string_of_range;
use crate::text::strip_quoting;
use crate::text::strip_quoting_spec;
use crate::text::trim;
use crate::text::trim_spec;
use crate::text::views;

verus! {

/// The lexical categories, in the order in which the grammar tries them.
#[derive(Debug, Clone, Copy, PartialEq, Eq, Structural)]
pub enum Category {
    Chapter,
    PubChapter,
    Verses,
    Attribute,
    DefaultAttribute,
    EmptyMilestone,
    StartMilestoneTag,
    EndMilestoneTag,
    EndTag,
    StartTag,
    BareSlash,
    Quote,
    Eol,
    NoBreakSpace,
    SoftLinebreak,
    WordLike,
    LineSpace,
    Punctuation,
    Unknown,
}

/// A run of text that is printed as it stands.
#[derive(Debug, Clone, PartialEq, Eq)]
pub struct Printable {
    pub subclass: Category,
    pub print_value: String,
}

/// A chapter marker with its number.
#[derive(Debug, Clone, PartialEq, Eq)]
pub struct Chapter {
    pub subclass: Category,
    pub number_string: String,
    pub number: i32,
}

/// A verse marker with its number or range of numbers.
#[derive(Debug, Clone, PartialEq, Eq)]
pub struct Verses {
    pub subclass: Category,
    pub number_string: String,
}

/// An attribute: a key with its value, or a value alone under the key `default`.
#[derive(Debug, Clone, PartialEq, Eq)]
pub struct Attribute {
    pub subclass: Category,
    pub key: String,
    pub value_string: String,
}

/// A published chapter number.
#[derive(Debug, Clone, PartialEq, Eq)]
pub struct PubChapter {
    pub subclass: Category,
    pub number_string: String,
}

/// A milestone: a whole one, the tag that starts one, or the marker that ends one.
pub struct Milestone {
    pub subclass: Category,
    pub s_or_e: Option<String>,
    pub tag_name: Option<String>,
    pub attributes: AttributeMap,
}

/// A start or end tag, classified.
#[derive(Debug, Clone, PartialEq, Eq)]
pub struct Tag {
    pub subclass: Category,
    pub tag_name: String,
    pub is_nested: bool,
    pub tag_level: i32,
    pub full_tag_name: String,
    pub tag_type: TagType,
}

/// A token of a tag stream.
pub enum Token {
    Chapter(Chapter),
    Verses(Verses),
    Attribute(Attribute),
    PubChapter(PubChapter),
    Milestone(Milestone),
    Tag(Tag),
    Printable(Printable),
}

/// The model of a token.
#[allow(inconsistent_fields)]
pub enum TokenModel {
    Chapter { subclass: Category, number_string: Seq<char>, number: i32 },
    Verses { subclass: Category, number_string: Seq<char> },
    Attribute { subclass: Category, key: Seq<char>, value_string: Seq<char> },
    PubChapter { subclass: Category, number_string: Seq<char> },
    Milestone {
        subclass: Category,
        s_or_e: Option<Seq<char>>,
        tag_name: Option<Seq<char>>,
        attributes: Entries,
    },
    Tag {
        subclass: Category,
        tag_name: Seq<char>,
        is_nested: bool,
        tag_level: i32,
        full_tag_name: Seq<char>,
        tag_type: TagType,
    },
    Printable { subclass: Category, print_value: Seq<char> },
}

/// The view of an optional string.
pub open spec fn option_view(o: Option<String>) -> Option<Seq<char>> {
    match o {
        Some(s) => Some(s@),
        None => None,
    }
}

impl Printable {
    pub open spec fn view(&self) -> TokenModel {
        TokenModel::Printable { subclass: self.subclass, print_value: self.print_value@ }
    }
}

impl Chapter {
    pub open spec fn view(&self) -> TokenModel {
        TokenModel::Chapter {
            subclass: self.subclass,
            number_string: self.number_string@,
            number: self.number,
        }
    }
}

impl Verses {
    pub open spec fn view(&self) -> TokenModel {
        TokenModel::Verses { subclass: self.subclass, number_string: self.number_string@ }
    }
}

impl Attribute {
    pub open spec fn view(&self) -> TokenModel {
        TokenModel::Attribute {
            subclass: self.subclass,
            key: self.key@,
            value_string: self.value_string@,
        }
    }
}

impl PubChapter {
    pub open spec fn view(&self) -> TokenModel {
        TokenModel::PubChapter { subclass: self.subclass, number_string: self.number_string@ }
    }
}

impl Milestone {
    pub open spec fn view(&self) -> TokenModel {
        TokenModel::Milestone {
            subclass: self.subclass,
            s_or_e: option_view(self.s_or_e),
            tag_name: option_view(self.tag_name),
            attributes: self.attributes@,
        }
    }
}

impl Tag {
    pub open spec fn view(&self) -> TokenModel {
        TokenModel::Tag {
            subclass: self.subclass,
            tag_name: self.tag_name@,
            is_nested: self.is_nested,
            tag_level: self.tag_level,
            full_tag_name: self.full_tag_name@,
            tag_type: self.tag_type,
        }
    }
}

impl Token {
    pub open spec fn view(&self) -> TokenModel {
        match self {
            Token::Chapter(c) => c@,
            Token::Verses(v) => v@,
            Token::Attribute(a) => a@,
            Token::PubChapter(p) => p@,
            Token::Milestone(m) => m@,
            Token::Tag(t) => t@,
            Token::Printable(p) => p@,
        }
    }
}

/// The views of a sequence of strings.
pub open spec fn strs(v: Seq<String>) -> Seq<Seq<char>> {
    Seq::new(v.len(), |i: int| v[i]@)
}

/// The no-break space, which `~` stands for.
pub const NO_BREAK_SPACE: char = '\u{a0}';

/// The printable made of the whole match, with each `~` turned into a no-break space.
pub open spec fn printable_of(subclass: Category, bits: Seq<Seq<char>>) -> TokenModel {
    TokenModel::Printable {
        subclass,
        print_value: replace_char_spec(bits[0], '~', NO_BREAK_SPACE),
    }
}

/// Makes the printable of a match of text.
pub fn make_printable(subclass: Category, matched_bits: &Vec<String>) -> (r: Printable)
    requires
        matched_bits@.len() > 0,
    ensures
        r@ == printable_of(subclass, strs(matched_bits@)),
{
    Printable { subclass, print_value: replace_char(matched_bits[0].as_str(), '~', NO_BREAK_SPACE) }
}

/// Makes the printable of a line break.
pub fn make_break(subclass: Category, matched_bits: &Vec<String>) -> (r: Printable)
    requires
        matched_bits@.len() > 0,
    ensures
        r@ == printable_of(subclass, strs(matched_bits@)),
{
    Printable { subclass, print_value: replace_char(matched_bits[0].as_str(), '~', NO_BREAK_SPACE) }
}

/// Makes the printable of text that no other category claims.
pub fn make_bad(subclass: Category, matched_bits: &Vec<String>) -> (r: Printable)
    requires
        matched_bits@.len() > 0,
    ensures
        r@ == printable_of(subclass, strs(matched_bits@)),
{
    Printable { subclass, print_value: replace_char(matched_bits[0].as_str(), '~', NO_BREAK_SPACE) }
}

/// The chapter token of a match whose piece 2 is the number, or the failure where that
/// piece is no 32-bit decimal numeral.
pub open spec fn chapter_of(subclass: Category, bits: Seq<Seq<char>>) -> Result<
    TokenModel,
    ErrorModel,
> {
    match parse_i32_spec(bits[2]) {
        Some(n) => Ok(TokenModel::Chapter { subclass, number_string: bits[2], number: n }),
        None => Err(ErrorModel::MalformedNumber(bits[2])),
    }
}

/// Makes the token of a chapter marker.
pub fn make_chapter(subclass: Category, matched_bits: &Vec<String>) -> (r: Result<
    Chapter,
    UsfmError,
>)
    requires
        matched_bits@.len() > 2,
    ensures
        match chapter_of(subclass, strs(matched_bits@)) {
            Ok(m) => r is Ok && r->Ok_0@ == m,
            Err(e) => r is Err && r->Err_0@ == e,
        },
{
    let number_string = copy_str(matched_bits[2].as_str());
    match parse_i32(number_string.as_str()) {
        Some(number) => Ok(Chapter { subclass, number_string, number }),
        None => Err(UsfmError::MalformedNumber(number_string)),
    }
}

/// The verse token of a match whose piece 2 is the number or range.
pub open spec fn verses_of(subclass: Category, bits: Seq<Seq<char>>) -> TokenModel {
    TokenModel::Verses { subclass, number_string: bits[2] }
}

/// Makes the token of a verse marker.
pub fn make_verses(subclass: Category, matched_bits: &Vec<String>) -> (r: Verses)
    requires
        matched_bits@.len() > 2,
    ensures
        r@ == verses_of(subclass, strs(matched_bits@)),
{
    Verses { subclass, number_string: copy_str(matched_bits[2].as_str()) }
}

/// The value of an attribute as it is kept: trimmed, with `+` in place of each `/`.
pub open spec fn attribute_value(raw: Seq<char>) -> Seq<char> {
    replace_char_spec(trim_spec(raw), '/', '+')
}

/// The attribute token of a match: for the default attribute, the key `default` and
/// the value of piece 2; otherwise the key of piece 2 and the value of piece 3.
pub open spec fn attribute_of(subclass: Category, bits: Seq<Seq<char>>) -> TokenModel {
    if subclass == Category::DefaultAttribute {
        TokenModel::Attribute { subclass, key: "default"@, value_string: attribute_value(bits[2]) }
    } else {
        TokenModel::Attribute { subclass, key: bits[2], value_string: attribute_value(bits[3]) }
    }
}

/// Makes the token of an attribute.
pub fn make_attribute(subclass: Category, matched_bits: &Vec<String>) -> (r: Attribute)
    requires
        matched_bits@.len() > 3 || (subclass == Category::DefaultAttribute && matched_bits@.len()
            > 2),
    ensures
        r@ == attribute_of(subclass, strs(matched_bits@)),
{
    match subclass {
        Category::DefaultAttribute => {
            let trimmed = trim(matched_bits[2].as_str());
            Attribute {
                subclass,
                key: copy_str("default"),
                value_string: replace_char(trimmed.as_str(), '/', '+'),
            }
        },
        _ => {
            let trimmed = trim(matched_bits[3].as_str());
            Attribute {
                subclass,
                key: copy_str(matched_bits[2].as_str()),
                value_string: replace_char(trimmed.as_str(), '/', '+'),
            }
        },
    }
}

/// The published-chapter token of a match whose piece 2 is the number.
pub open spec fn pub_chapter_of(subclass: Category, bits: Seq<Seq<char>>) -> TokenModel {
    TokenModel::PubChapter { subclass, number_string: bits[2] }
}

/// Makes the token of a published chapter number.
pub fn make_pub_chapter(subclass: Category, matched_bits: &Vec<String>) -> (r: PubChapter)
    requires
        matched_bits@.len() > 2,
    ensures
        r@ == pub_chapter_of(subclass, strs(matched_bits@)),
{
    PubChapter { subclass, number_string: copy_str(matched_bits[2].as_str()) }
}

/// The attribute that one `|`-separated part writes: a key, `=`, and a value, from
/// which quotes, backslashes and stars are dropped; nothing where the part does not
/// hold exactly one `=`.
pub open spec fn part_attribute(part: Seq<char>) -> Option<(Seq<char>, Seq<char>)> {
    let kv = split_spec(part, '=');
    if kv.len() == 2 {
        Some((kv[0], strip_quoting_spec(kv[1])))
    } else {
        None
    }
}

/// The attributes that a list of parts writes, in order.
pub open spec fn decode_parts(parts: Seq<Seq<char>>) -> Entries
    decreases parts.len(),
{
    if parts.len() == 0 {
        Seq::empty()
    } else {
        let init = decode_parts(parts.drop_last());
        match part_attribute(parts.last()) {
            Some(e) => init.push(e),
            None => init,
        }
    }
}

/// The attributes written inside a matched text: the text is cut at each `|`, and
/// every part but the first is read as one attribute.
pub open spec fn decode_attributes(whole: Seq<char>) -> Entries {
    decode_parts(split_spec(whole, '|').skip(1))
}

/// Reads the attributes written inside a matched text.
pub fn read_attributes(whole: &str) -> (r: AttributeMap)
    ensures
        r@ == decode_attributes(whole@),
{
    let chars = chars_of(whole);
    let parts = split(&chars, '|');
    let mut out = AttributeMap { entries: Vec::new() };
    proof {
        lemma_split_nonempty(whole@, '|');
        assert(views(parts@).subrange(1, 1) == Seq::<Seq<char>>::empty());
        assert(out@ == Seq::<(Seq<char>, Seq<char>)>::empty());
    }
    let mut i: usize = 1;
    while i < parts.len()
        invariant
            1 <= i <= parts@.len(),
            out@ == decode_parts(views(parts@).subrange(1, i as int)),
        decreases parts@.len() - i,
    {
        let kv = split(&parts[i], '=');
        proof {
            let t = views(parts@).subrange(1, i + 1);
            assert(t.drop_last() == views(parts@).subrange(1, i as int));
            assert(t.last() == parts@[i as int]@);
            assert(views(kv@).len() == kv@.len());
        }
        if kv.len() == 2 {
            let ghost before = out@;
            let key = string_of(&kv[0]);
            let value = strip_quoting(&kv[1]);
            proof {
                assert(views(kv@)[0] == kv@[0]@);
                assert(views(kv@)[1] == kv@[1]@);
            }
            out.entries.push((key, value));
            assert(out@ == before.push((key@, value@)));
        }
        i = i + 1;
    }
    proof {
        assert(views(parts@).subrange(1, i as int) == views(parts@).skip(1));
    }
    out
}

/// The milestone token of a match. The marker that ends a milestone holds nothing. A
/// whole milestone has the name of piece 2 and the attributes written in piece 1. The
/// tag that starts a milestone has the name of piece 2 and the side of piece 3.
pub open spec fn milestone_of(subclass: Category, bits: Seq<Seq<char>>) -> TokenModel {
    let name = if subclass != Category::EndMilestoneTag && bits.len() > 2 {
        Some(bits[2])
    } else {
        None
    };
    let side = if subclass != Category::EndMilestoneTag && subclass != Category::EmptyMilestone
        && bits.len() > 3 {
        Some(bits[3])
    } else {
        None
    };
    let attributes = if subclass == Category::EmptyMilestone && bits.len() > 1 {
        decode_attributes(bits[1])
    } else {
        Seq::empty()
    };
    TokenModel::Milestone { subclass, s_or_e: side, tag_name: name, attributes }
}

/// Makes the token of a milestone.
pub fn make_milestone(subclass: Category, matched_bits: &Vec<String>) -> (r: Milestone)
    ensures
        r@ == milestone_of(subclass, strs(matched_bits@)),
{
    let mut ret = Milestone {
        subclass,
        s_or_e: None,
        tag_name: None,
        attributes: AttributeMap::new(),
    };
    let is_end = match subclass {
        Category::EndMilestoneTag => true,
        _ => false,
    };
    let is_empty = match subclass {
        Category::EmptyMilestone => true,
        _ => false,
    };
    if !is_end {
        if matched_bits.len() > 2 {
            ret.tag_name = Some(copy_str(matched_bits[2].as_str()));
        }
        if is_empty {
            if matched_bits.len() > 1 {
                ret.attributes = read_attributes(matched_bits[1].as_str());
            }
        } else {
            if matched_bits.len() > 3 {
                ret.s_or_e = Some(copy_str(matched_bits[3].as_str()));
            }
        }
    }
    ret
}

/// Whether a raw tag name begins with the nesting sign.
pub open spec fn nested_name(raw: Seq<char>) -> bool {
    raw.len() > 0 && raw[0] == '+'
}

/// A raw tag name without its nesting sign.
pub open spec fn bare_name(raw: Seq<char>) -> Seq<char> {
    if nested_name(raw) {
        raw.drop_first()
    } else {
        raw
    }
}

/// The level that the text of a level writes: 1 where there is none.
pub open spec fn level_of(level_text: Seq<char>) -> Option<i32> {
    if level_text.len() == 0 {
        Some(1i32)
    } else {
        parse_i32_spec(level_text)
    }
}

/// The full name of a tag: the bare name, followed by the text of the level unless
/// that text is `1`.
pub open spec fn full_name(name: Seq<char>, level_text: Seq<char>) -> Seq<char> {
    if level_text == "1"@ {
        name
    } else {
        name + level_text
    }
}

/// The tag token of a match whose piece 2 is the raw name and whose piece 3 is the text
/// of the level. A level that is no numeral is a failure; so is, after that, a name
/// that is in no marker table.
pub open spec fn tag_of(subclass: Category, bits: Seq<Seq<char>>) -> Result<TokenModel, ErrorModel> {
    let name = bare_name(bits[2]);
    match level_of(bits[3]) {
        None => Err(ErrorModel::MalformedNumber(bits[3])),
        Some(level) => match classify_spec(name) {
            None => Err(ErrorModel::UnknownMarker(name)),
            Some(tag_type) => Ok(
                TokenModel::Tag {
                    subclass,
                    tag_name: name,
                    is_nested: nested_name(bits[2]),
                    tag_level: level,
                    full_tag_name: full_name(name, bits[3]),
                    tag_type,
                },
            ),
        },
    }
}

/// Makes the token of a start or end tag, classifying its name.
pub fn make_tag(subclass: Category, matched_bits: &Vec<String>) -> (r: Result<Tag, UsfmError>)
    requires
        matched_bits@.len() > 3,
    ensures
        match tag_of(subclass, strs(matched_bits@)) {
            Ok(m) => r is Ok && r->Ok_0@ == m,
            Err(e) => r is Err && r->Err_0@ == e,
        },
{
    let raw = chars_of(matched_bits[2].as_str());
    let is_nested = raw.len() > 0 && raw[0] == '+';
    let tag_name = if is_nested {
        string_of_range(&raw, 1, raw.len())
    } else {
        string_of(&raw)
    };
    let level_text = matched_bits[3].as_str();
    let tag_level: i32 = if level_text.is_empty() {
        1
    } else {
        match parse_i32(level_text) {
            Some(level) => level,
            None => {
                return Err(UsfmError::MalformedNumber(copy_str(level_text)));
            },
        }
    };
    let full_tag_name = if str_eq(level_text, "1") {
        copy_str(tag_name.as_str())
    } else {
        copy_str(tag_name.as_str()).concat(level_text)
    };
    match classify(tag_name.as_str()) {
        Ok(tag_type) => Ok(Tag { subclass, tag_name, is_nested, tag_level, full_tag_name, tag_type }),
        Err(e) => Err(e),
    }
}

} // verus!
