//! The tokenizer: from the text of a tag stream to its tokens.
//!
//! The lexical grammar is one pattern of alternatives, one per category, tried in a fixed
//! order at each position. The search itself is done by the `regex` crate. What it hands
//! back is not taken on trust for the tiling of the text: a match is accepted only where
//! its text stands at the current position, and every character that no accepted match
//! holds becomes a token of its own. So each character of the text lies in exactly one
//! token, whatever the search returned.

use vstd::prelude::*;
use crate::error::ErrorModel;
use crate::error::UsfmError;
use crate::text::chars_of;
use crate::text::copy_str;
use crate::text::string_of_range;
use crate::token::attribute_of;
use crate::token::chapter_of;
use crate::token::make_attribute;
use crate::token::make_bad;
use crate::token::make_break;
use crate::token::make_chapter;
use crate::token::make_milestone;
use crate::token::make_printable;
use crate::token::make_pub_chapter;
use crate::token::make_tag;
use crate::token::make_verses;
use crate::token::milestone_of;
use crate::token::printable_of;
use crate::token::pub_chapter_of;
use crate::token::strs;
use crate::token::tag_of;
use crate::token::verses_of;
use crate::token::Category;
use crate::token::Token;
use crate::token::TokenModel;

verus! {

/// The lexical grammar: the categories' patterns, each in a group of its own, joined in
/// the order of their priority.
pub const GRAMMAR: &'static str =
    r#"([\r\n]*\\c[ \t]+(\d+)[ \t\r\n]*)|([\r\n]*\\cp[ \t]+([^\r\n]+)[ \t\r\n]*)|(\\v[ \t]+([\d\-]+)[ \t\r\n]*)|([ \t]*\|?[ \t]*([A-Za-z0-9\-]+)="([^"]*)"[ \t]?)|([ \t]*\|[ \t]*([^|\\]*))|(\\([a-z1-9]+)\\[*])|(\\([a-z1-9]+)-([se]))|(\\([*]))|(\\([+]?[a-z\-]+)([1-9]?(-([1-9]))?)[*])|(\\([+]?[a-z\-]+)([1-9]?(-([1-9]))?)[ \t]?)|(\\)|(")|([ \t]*[\r\n]+[ \t]*)|(~)|(//)|([\p{L}\p{N}\p{M}\x{2060}]{1,127})|([\p{Zs}\t]{1,127})|([\p{P}\p{Sm}\p{Sc}\p{Sk}\p{So}])|(.)"#;

/// The categories in the order of their priority.
pub const CATEGORIES: [Category; 19] = [
    Category::Chapter,
    Category::PubChapter,
    Category::Verses,
    Category::Attribute,
    Category::DefaultAttribute,
    Category::EmptyMilestone,
    Category::StartMilestoneTag,
    Category::EndMilestoneTag,
    Category::EndTag,
    Category::StartTag,
    Category::BareSlash,
    Category::Quote,
    Category::Eol,
    Category::NoBreakSpace,
    Category::SoftLinebreak,
    Category::WordLike,
    Category::LineSpace,
    Category::Punctuation,
    Category::Unknown,
];

/// The number of the group that encloses the pattern of a category in the grammar.
pub open spec fn group_base(c: Category) -> int {
    match c {
        Category::Chapter => 1,
        Category::PubChapter => 3,
        Category::Verses => 5,
        Category::Attribute => 7,
        Category::DefaultAttribute => 10,
        Category::EmptyMilestone => 12,
        Category::StartMilestoneTag => 14,
        Category::EndMilestoneTag => 17,
        Category::EndTag => 19,
        Category::StartTag => 24,
        Category::BareSlash => 29,
        Category::Quote => 30,
        Category::Eol => 31,
        Category::NoBreakSpace => 32,
        Category::SoftLinebreak => 33,
        Category::WordLike => 34,
        Category::LineSpace => 35,
        Category::Punctuation => 36,
        Category::Unknown => 37,
    }
}

/// The number of groups inside the group of a category.
pub open spec fn inner_groups(c: Category) -> int {
    match c {
        Category::Chapter => 1,
        Category::PubChapter => 1,
        Category::Verses => 1,
        Category::Attribute => 2,
        Category::DefaultAttribute => 1,
        Category::EmptyMilestone => 1,
        Category::StartMilestoneTag => 2,
        Category::EndMilestoneTag => 1,
        Category::EndTag => 4,
        Category::StartTag => 4,
        _ => 0,
    }
}

/// The number of the group that encloses the pattern of a category.
pub fn base_of(c: Category) -> (b: usize)
    ensures
        b == group_base(c),
{
    match c {
        Category::Chapter => 1,
        Category::PubChapter => 3,
        Category::Verses => 5,
        Category::Attribute => 7,
        Category::DefaultAttribute => 10,
        Category::EmptyMilestone => 12,
        Category::StartMilestoneTag => 14,
        Category::EndMilestoneTag => 17,
        Category::EndTag => 19,
        Category::StartTag => 24,
        Category::BareSlash => 29,
        Category::Quote => 30,
        Category::Eol => 31,
        Category::NoBreakSpace => 32,
        Category::SoftLinebreak => 33,
        Category::WordLike => 34,
        Category::LineSpace => 35,
        Category::Punctuation => 36,
        Category::Unknown => 37,
    }
}

/// The number of groups inside the group of a category.
pub fn inner_of(c: Category) -> (n: usize)
    ensures
        n == inner_groups(c),
{
    match c {
        Category::Chapter => 1,
        Category::PubChapter => 1,
        Category::Verses => 1,
        Category::Attribute => 2,
        Category::DefaultAttribute => 1,
        Category::EmptyMilestone => 1,
        Category::StartMilestoneTag => 2,
        Category::EndMilestoneTag => 1,
        Category::EndTag => 4,
        Category::StartTag => 4,
        _ => 0,
    }
}

/// The model of the groups of one match: for each group its text, or nothing where the
/// group took no part in the match.
pub type Groups = Seq<Option<Seq<char>>>;

/// The model of the groups of one match as they are held.
pub open spec fn groups_model(g: Seq<Option<String>>) -> Groups {
    Seq::new(
        g.len(),
        |i: int|
            match g[i] {
                Some(s) => Some(s@),
                None => None,
            },
    )
}

/// The model of a list of matches as they are held.
pub open spec fn matches_model(m: Seq<Vec<Option<String>>>) -> Seq<Groups> {
    Seq::new(m.len(), |i: int| groups_model(m[i]@))
}

/// The model of what a search hands back.
pub open spec fn search_model(r: Option<Vec<Vec<Option<String>>>>) -> Option<Seq<Groups>> {
    match r {
        Some(m) => Some(matches_model(m@)),
        None => None,
    }
}

/// What the search for all matches of the pattern `pattern` in `text` yields: nothing
/// where the pattern is refused, else the matches in the order of their position, each
/// with the text of its groups, group 0 being the whole match.
pub uninterp spec fn pattern_matches(pattern: Seq<char>, text: Seq<char>) -> Option<Seq<Groups>>;

/// Searches `text` for all successive matches of `pattern`.
///
/// Calls `regex::Regex::new` on the pattern and `Regex::captures_iter` on the text, and
/// copies out of each match the text of every group as `Captures::iter` yields them. The
/// contract gives the outcome its name, `pattern_matches`, and claims nothing else of it:
/// the same pattern and text always yield the same outcome.
#[verifier::external_body]
pub(crate) fn find_matches(pattern: &str, text: &str) -> (r: Option<Vec<Vec<Option<String>>>>)
    ensures
        search_model(r) == pattern_matches(pattern@, text@),
{
    let re = match regex::Regex::new(pattern) {
        Ok(re) => re,
        Err(_) => return None,
    };
    Some(
        re.captures_iter(text).map(
            |c| c.iter().map(|g| g.map(|m| m.as_str().to_string())).collect(),
        ).collect(),
    )
}

/// The text of group `i`: empty where the group is missing or took no part.
pub open spec fn piece(groups: Groups, i: int) -> Seq<char> {
    if 0 <= i < groups.len() {
        match groups[i] {
            Some(s) => s,
            None => Seq::empty(),
        }
    } else {
        Seq::empty()
    }
}

/// Whether group `i` took part in the match.
pub open spec fn took_part(groups: Groups, i: int) -> bool {
    0 <= i < groups.len() && groups[i] is Some
}

/// The first category from the `i`-th on whose group took part; the last category where
/// none did.
pub open spec fn category_from(groups: Groups, i: int) -> Category
    decreases 19 - i,
{
    if i < 0 || i >= 18 {
        Category::Unknown
    } else if took_part(groups, group_base(CATEGORIES@[i])) {
        CATEGORIES@[i]
    } else {
        category_from(groups, i + 1)
    }
}

/// The category of a match: the first whose group took part.
pub open spec fn category_of(groups: Groups) -> Category {
    category_from(groups, 0)
}

/// The pieces of a match for the category `c`: the whole match, the category's group,
/// and the groups inside it.
pub open spec fn bits_of(groups: Groups, c: Category) -> Seq<Seq<char>> {
    Seq::new(
        (2 + inner_groups(c)) as nat,
        |j: int|
            if j == 0 {
                piece(groups, 0)
            } else {
                piece(groups, group_base(c) + j - 1)
            },
    )
}

/// The token that the pieces `bits` of a match of category `c` make.
pub open spec fn token_of_bits(c: Category, bits: Seq<Seq<char>>) -> Result<TokenModel, ErrorModel> {
    match c {
        Category::Chapter => chapter_of(c, bits),
        Category::PubChapter => Ok(pub_chapter_of(c, bits)),
        Category::Verses => Ok(verses_of(c, bits)),
        Category::Attribute | Category::DefaultAttribute => Ok(attribute_of(c, bits)),
        Category::EmptyMilestone | Category::StartMilestoneTag | Category::EndMilestoneTag => Ok(
            milestone_of(c, bits),
        ),
        Category::StartTag | Category::EndTag => tag_of(c, bits),
        _ => Ok(printable_of(c, bits)),
    }
}

/// The token of a match.
pub open spec fn token_of(groups: Groups) -> Result<TokenModel, ErrorModel> {
    token_of_bits(category_of(groups), bits_of(groups, category_of(groups)))
}

/// The token of a character that no match holds.
pub open spec fn stray_token(c: char) -> TokenModel {
    printable_of(Category::Unknown, seq![seq![c], seq![c]])
}

/// A token together with the text that it was made of.
pub struct Lexeme {
    /// The characters of the text that the token stands for.
    pub source: String,
    /// The token.
    pub token: Token,
}

/// The model of a lexeme: the text it was made of, and the token.
pub struct LexemeModel {
    pub source: Seq<char>,
    pub token: TokenModel,
}

impl Lexeme {
    pub open spec fn view(&self) -> LexemeModel {
        LexemeModel { source: self.source@, token: self.token@ }
    }
}

/// The models of a sequence of lexemes.
pub open spec fn lexemes_model(v: Seq<Lexeme>) -> Seq<LexemeModel> {
    Seq::new(v.len(), |i: int| v[i]@)
}

/// Whether the non-empty text `whole` stands in `text` at `pos`.
pub open spec fn stands_at(text: Seq<char>, pos: int, whole: Seq<char>) -> bool {
    whole.len() > 0 && 0 <= pos && pos + whole.len() <= text.len() && text.subrange(
        pos,
        pos + whole.len(),
    ) == whole
}

/// The lexemes of `text` from `pos` on, given the matches from the `k`-th on and the
/// lexemes `acc` made so far. The next match is taken where its text stands at `pos`;
/// otherwise the character at `pos` becomes a lexeme of its own. A match whose token
/// cannot be made ends the scan with that failure.
pub open spec fn scan(
    text: Seq<char>,
    matches: Seq<Groups>,
    pos: int,
    k: int,
    acc: Seq<LexemeModel>,
) -> Result<Seq<LexemeModel>, ErrorModel>
    decreases text.len() - pos,
{
    if pos < 0 || pos >= text.len() {
        Ok(acc)
    } else if 0 <= k < matches.len() && stands_at(text, pos, piece(matches[k], 0)) {
        let whole = piece(matches[k], 0);
        match token_of(matches[k]) {
            Err(e) => Err(e),
            Ok(t) => scan(
                text,
                matches,
                pos + whole.len(),
                k + 1,
                acc.push(LexemeModel { source: whole, token: t }),
            ),
        }
    } else {
        scan(
            text,
            matches,
            pos + 1,
            k,
            acc.push(LexemeModel { source: seq![text[pos]], token: stray_token(text[pos]) }),
        )
    }
}

/// The lexemes of `text`, given the matches that the search found in it.
pub open spec fn lexemes_spec(text: Seq<char>, matches: Seq<Groups>) -> Result<
    Seq<LexemeModel>,
    ErrorModel,
> {
    scan(text, matches, 0, 0, Seq::empty())
}

/// The texts of the lexemes, one after the other.
pub open spec fn joined_sources(lexemes: Seq<LexemeModel>) -> Seq<char>
    decreases lexemes.len(),
{
    if lexemes.len() == 0 {
        Seq::empty()
    } else {
        joined_sources(lexemes.drop_last()) + lexemes.last().source
    }
}

/// Whether every lexeme stands for at least one character.
pub open spec fn sources_nonempty(lexemes: Seq<LexemeModel>) -> bool {
    forall|i: int| 0 <= i < lexemes.len() ==> (#[trigger] lexemes[i]).source.len() > 0
}

/// A scan that starts with lexemes that tile the text up to `pos` ends with lexemes
/// that tile the whole text.
pub proof fn lemma_scan_tiles(
    text: Seq<char>,
    matches: Seq<Groups>,
    pos: int,
    k: int,
    acc: Seq<LexemeModel>,
)
    requires
        0 <= pos <= text.len(),
        joined_sources(acc) == text.subrange(0, pos),
        sources_nonempty(acc),
    ensures
        scan(text, matches, pos, k, acc) matches Ok(lexemes) ==> joined_sources(lexemes) == text
            && sources_nonempty(lexemes),
    decreases text.len() - pos,
{
    if pos >= text.len() {
        assert(text.subrange(0, pos) == text);
    } else if 0 <= k < matches.len() && stands_at(text, pos, piece(matches[k], 0)) {
        let whole = piece(matches[k], 0);
        match token_of(matches[k]) {
            Err(e) => {},
            Ok(t) => {
                let next = acc.push(LexemeModel { source: whole, token: t });
                assert(next.drop_last() == acc);
                assert(text.subrange(0, pos) + whole == text.subrange(0, pos + whole.len()));
                lemma_scan_tiles(text, matches, pos + whole.len(), k + 1, next);
            },
        }
    } else {
        let next = acc.push(
            LexemeModel { source: seq![text[pos]], token: stray_token(text[pos]) },
        );
        assert(next.drop_last() == acc);
        assert(text.subrange(0, pos) + seq![text[pos]] == text.subrange(0, pos + 1));
        lemma_scan_tiles(text, matches, pos + 1, k, next);
    }
}

/// Every character of the text lies in exactly one lexeme: the texts of the lexemes,
/// none of them empty, joined in order, are the text.
pub proof fn lemma_lexemes_tile_text(text: Seq<char>, matches: Seq<Groups>)
    ensures
        lexemes_spec(text, matches) matches Ok(lexemes) ==> joined_sources(lexemes) == text
            && sources_nonempty(lexemes),
{
    assert(text.subrange(0, 0) == Seq::<char>::empty());
    lemma_scan_tiles(text, matches, 0, 0, Seq::empty());
}

/// The text of group `i` of a match, empty where the group is missing or took no part.
pub fn piece_of(groups: &Vec<Option<String>>, i: usize) -> (s: String)
    ensures
        s@ == piece(groups_model(groups@), i as int),
{
    if i < groups.len() {
        match &groups[i] {
            Some(s) => copy_str(s.as_str()),
            None => String::new(),
        }
    } else {
        String::new()
    }
}

/// The category of a match: the first whose group took part.
pub fn find_category(groups: &Vec<Option<String>>) -> (c: Category)
    ensures
        c == category_of(groups_model(groups@)),
{
    let mut i: usize = 0;
    while i < 18
        invariant
            i <= 18,
            category_of(groups_model(groups@)) == category_from(groups_model(groups@), i as int),
        decreases 18 - i,
    {
        let c = CATEGORIES[i];
        let b = base_of(c);
        if b < groups.len() && groups[b].is_some() {
            return c;
        }
        i = i + 1;
    }
    Category::Unknown
}

/// The pieces of a match for the category `c`.
pub fn pieces_for(groups: &Vec<Option<String>>, c: Category) -> (bits: Vec<String>)
    ensures
        strs(bits@) == bits_of(groups_model(groups@), c),
{
    let n = 2 + inner_of(c);
    let b = base_of(c);
    let mut bits: Vec<String> = Vec::new();
    bits.push(piece_of(groups, 0));
    let mut j: usize = 1;
    while j < n
        invariant
            1 <= j <= n,
            n == 2 + inner_groups(c),
            b == group_base(c),
            bits@.len() == j,
            forall|x: int|
                0 <= x < j ==> (#[trigger] bits@[x])@ == bits_of(groups_model(groups@), c)[x],
        decreases n - j,
    {
        bits.push(piece_of(groups, b + j - 1));
        j = j + 1;
    }
    assert(strs(bits@) == bits_of(groups_model(groups@), c));
    bits
}

/// Makes the token of a match from its groups.
pub fn token_from_groups(groups: &Vec<Option<String>>) -> (r: Result<Token, UsfmError>)
    ensures
        match token_of(groups_model(groups@)) {
            Ok(m) => r is Ok && r->Ok_0@ == m,
            Err(e) => r is Err && r->Err_0@ == e,
        },
{
    let c = find_category(groups);
    let bits = pieces_for(groups, c);
    match c {
        Category::Chapter => match make_chapter(c, &bits) {
            Ok(t) => Ok(Token::Chapter(t)),
            Err(e) => Err(e),
        },
        Category::PubChapter => Ok(Token::PubChapter(make_pub_chapter(c, &bits))),
        Category::Verses => Ok(Token::Verses(make_verses(c, &bits))),
        Category::Attribute | Category::DefaultAttribute => Ok(
            Token::Attribute(make_attribute(c, &bits)),
        ),
        Category::EmptyMilestone | Category::StartMilestoneTag | Category::EndMilestoneTag => Ok(
            Token::Milestone(make_milestone(c, &bits)),
        ),
        Category::StartTag | Category::EndTag => match make_tag(c, &bits) {
            Ok(t) => Ok(Token::Tag(t)),
            Err(e) => Err(e),
        },
        Category::Eol => Ok(Token::Printable(make_break(c, &bits))),
        Category::Unknown => Ok(Token::Printable(make_bad(c, &bits))),
        _ => Ok(Token::Printable(make_printable(c, &bits))),
    }
}

/// Whether the characters `whole` stand in `text` at `pos`, and are not empty.
pub fn stands(text: &Vec<char>, pos: usize, whole: &Vec<char>) -> (b: bool)
    ensures
        b == stands_at(text@, pos as int, whole@),
{
    let n = whole.len();
    if n == 0 || n > text.len() || pos > text.len() - n {
        return false;
    }
    let mut i: usize = 0;
    while i < n
        invariant
            i <= n,
            n == whole@.len(),
            pos + n <= text@.len(),
            text@.len() <= usize::MAX,
            forall|j: int| 0 <= j < i ==> text@[pos + j] == whole@[j],
        decreases n - i,
    {
        if text[pos + i] != whole[i] {
            assert(text@.subrange(pos as int, pos + n)[i as int] != whole@[i as int]);
            return false;
        }
        i = i + 1;
    }
    assert(text@.subrange(pos as int, pos + n) == whole@);
    true
}

/// Makes the lexemes of `text` from the matches that a search found in it.
///
/// A match is taken where its text stands at the current position; a character that no
/// match holds becomes a lexeme of its own. The first match whose token cannot be made
/// ends the scan with that failure. Where lexemes are returned, their texts tile `text`.
pub fn tokens_from_matches(text: &str, matches: &Vec<Vec<Option<String>>>) -> (r: Result<
    Vec<Lexeme>,
    UsfmError,
>)
    ensures
        match lexemes_spec(text@, matches_model(matches@)) {
            Ok(m) => r is Ok && lexemes_model(r->Ok_0@) == m && joined_sources(m) == text@
                && sources_nonempty(m),
            Err(e) => r is Err && r->Err_0@ == e,
        },
{
    let chars = chars_of(text);
    let ghost ms = matches_model(matches@);
    let mut out: Vec<Lexeme> = Vec::new();
    let mut pos: usize = 0;
    let mut k: usize = 0;
    proof {
        lemma_lexemes_tile_text(text@, ms);
        assert(lexemes_model(out@) == Seq::<LexemeModel>::empty());
    }
    while pos < chars.len()
        invariant
            pos <= chars@.len(),
            chars@ == text@,
            k <= matches@.len(),
            ms == matches_model(matches@),
            scan(text@, ms, pos as int, k as int, lexemes_model(out@)) == lexemes_spec(text@, ms),
        decreases chars@.len() - pos,
    {
        let ghost before = lexemes_model(out@);
        let mut taken = false;
        if k < matches.len() {
            let whole = piece_of(&matches[k], 0);
            let whole_chars = chars_of(whole.as_str());
            assert(ms[k as int] == groups_model(matches@[k as int]@));
            if stands(&chars, pos, &whole_chars) {
                match token_from_groups(&matches[k]) {
                    Err(e) => {
                        return Err(e);
                    },
                    Ok(token) => {
                        let n = whole_chars.len();
                        out.push(Lexeme { source: whole, token });
                        proof {
                            assert(lexemes_model(out@) == before.push(
                                LexemeModel { source: whole@, token: token@ },
                            ));
                        }
                        pos = pos + n;
                        k = k + 1;
                        taken = true;
                    },
                }
            }
        }
        if !taken {
            let c = chars[pos];
            let source = string_of_range(&chars, pos, pos + 1);
            assert(source@ == seq![c]);
            let mut bits: Vec<String> = Vec::new();
            bits.push(copy_str(source.as_str()));
            bits.push(copy_str(source.as_str()));
            assert(strs(bits@) == seq![seq![c], seq![c]]);
            let token = Token::Printable(make_bad(Category::Unknown, &bits));
            out.push(Lexeme { source, token });
            proof {
                assert(lexemes_model(out@) == before.push(
                    LexemeModel { source: seq![c], token: stray_token(c) },
                ));
            }
            pos = pos + 1;
        }
    }
    Ok(out)
}

/// Tokenizes the text of a tag stream.
///
/// The grammar is searched for in the text, and the lexemes are made of what was found.
/// Where the grammar cannot be prepared, the failure says so. Where lexemes are
/// returned, their texts tile `text`.
pub fn tokenize(text: &str) -> (r: Result<Vec<Lexeme>, UsfmError>)
    ensures
        match pattern_matches(GRAMMAR@, text@) {
            None => r is Err && r->Err_0@ == ErrorModel::Grammar,
            Some(ms) => match lexemes_spec(text@, ms) {
                Ok(m) => r is Ok && lexemes_model(r->Ok_0@) == m && joined_sources(m) == text@
                    && sources_nonempty(m),
                Err(e) => r is Err && r->Err_0@ == e,
            },
        },
{
    match find_matches(GRAMMAR, text) {
        None => Err(UsfmError::Grammar),
        Some(matches) => tokens_from_matches(text, &matches),
    }
}

} // verus!
