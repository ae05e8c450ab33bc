//! Character-level helpers shared by the tokenizer and the document builder.
//!
//! Strings are modelled by their view, a `Seq<char>`. Every function here states its
//! result as a spec function over such sequences.

use vstd::prelude::*;

verus! {

/// Whether `c` is one of the blank characters that a run of whitespace is made of.
pub open spec fn is_blank(c: char) -> bool {
    c == ' ' || c == '\t' || c == '\r' || c == '\n'
}

/// Tests a character for being a blank.
pub fn is_blank_char(c: char) -> (b: bool)
    ensures
        b == is_blank(c),
{
    c == ' ' || c == '\t' || c == '\r' || c == '\n'
}

/// Whether `c` has the Unicode property `White_Space`.
pub open spec fn is_white_space(c: char) -> bool {
    ||| ('\u{9}' <= c && c <= '\u{D}')
    ||| c == ' '
    ||| c == '\u{85}'
    ||| c == '\u{A0}'
    ||| c == '\u{1680}'
    ||| ('\u{2000}' <= c && c <= '\u{200A}')
    ||| c == '\u{2028}'
    ||| c == '\u{2029}'
    ||| c == '\u{202F}'
    ||| c == '\u{205F}'
    ||| c == '\u{3000}'
}

/// Tests a character for the Unicode property `White_Space`.
pub fn is_white_space_char(c: char) -> (b: bool)
    ensures
        b == is_white_space(c),
{
    ('\u{9}' <= c && c <= '\u{D}') || c == ' ' || c == '\u{85}' || c == '\u{A0}' || c
        == '\u{1680}' || ('\u{2000}' <= c && c <= '\u{200A}') || c == '\u{2028}' || c
        == '\u{2029}' || c == '\u{202F}' || c == '\u{205F}' || c == '\u{3000}'
}

/// The characters of a string slice, in order.
pub fn chars_of(s: &str) -> (v: Vec<char>)
    ensures
        v@ == s@,
{
    let mut v: Vec<char> = Vec::new();
    for c in it: s.chars()
        invariant
            v@ == it.seq().take(it.index()),
    {
        v.push(c);
    }
    v
}

/// Appends one character to a string.
///
/// Calls `String::push`, which appends the given character to the end of the string;
/// the contract says that the string's characters afterwards are those before,
/// followed by `c`.
#[verifier::external_body]
pub(crate) fn push_char(s: &mut String, c: char)
    ensures
        final(s)@ == old(s)@.push(c),
{
    s.push(c);
}

/// The string made of the characters `chars[from..to]`.
pub fn string_of_range(chars: &Vec<char>, from: usize, to: usize) -> (s: String)
    requires
        from <= to <= chars@.len(),
    ensures
        s@ == chars@.subrange(from as int, to as int),
{
    let mut s = String::new();
    let mut i: usize = from;
    while i < to
        invariant
            from <= i <= to <= chars@.len(),
            s@ == chars@.subrange(from as int, i as int),
        decreases to - i,
    {
        push_char(&mut s, chars[i]);
        i = i + 1;
    }
    s
}

/// The string made of the characters of `chars`.
pub fn string_of(chars: &Vec<char>) -> (s: String)
    ensures
        s@ == chars@,
{
    let s = string_of_range(chars, 0, chars.len());
    assert(chars@.subrange(0, chars@.len() as int) == chars@);
    s
}

/// Whether two string slices hold the same characters.
pub fn str_eq(a: &str, b: &str) -> (r: bool)
    ensures
        r == (a@ == b@),
{
    let x: String = a.to_owned();
    let y: String = b.to_owned();
    x == y
}

/// A copy of a string slice.
pub fn copy_str(a: &str) -> (r: String)
    ensures
        r@ == a@,
{
    a.to_owned()
}

/// `s` with every occurrence of `from` replaced by `to`.
pub open spec fn replace_char_spec(s: Seq<char>, from: char, to: char) -> Seq<char> {
    Seq::new(
        s.len(),
        |i: int|
            if s[i] == from {
                to
            } else {
                s[i]
            },
    )
}

/// Replaces every occurrence of `from` in `s` by `to`.
pub fn replace_char(s: &str, from: char, to: char) -> (r: String)
    ensures
        r@ == replace_char_spec(s@, from, to),
{
    let chars = chars_of(s);
    let mut r = String::new();
    let mut i: usize = 0;
    while i < chars.len()
        invariant
            i <= chars@.len(),
            chars@ == s@,
            r@ == replace_char_spec(s@, from, to).take(i as int),
        decreases chars@.len() - i,
    {
        let c = chars[i];
        if c == from {
            push_char(&mut r, to);
        } else {
            push_char(&mut r, c);
        }
        i = i + 1;
        assert(r@ == replace_char_spec(s@, from, to).take(i as int));
    }
    assert(replace_char_spec(s@, from, to).take(i as int) == replace_char_spec(s@, from, to));
    r
}

/// `s` without the occurrences of the characters `"`, `\` and `*`.
pub open spec fn strip_quoting_spec(s: Seq<char>) -> Seq<char> {
    s.filter(|c: char| c != '"' && c != '\\' && c != '*')
}

/// Removes every `"`, `\` and `*` from `s`.
pub fn strip_quoting(s: &Vec<char>) -> (r: String)
    ensures
        r@ == strip_quoting_spec(s@),
{
    let ghost keep = |c: char| c != '"' && c != '\\' && c != '*';
    let mut r = String::new();
    let mut i: usize = 0;
    proof {
        assert(s@.take(0) == Seq::<char>::empty());
        broadcast use vstd::seq_lib::group_filter_ensures;
    }
    while i < s.len()
        invariant
            i <= s@.len(),
            keep == (|c: char| c != '"' && c != '\\' && c != '*'),
            r@ == s@.take(i as int).filter(keep),
        decreases s@.len() - i,
    {
        let c = s[i];
        proof {
            assert(s@.take(i + 1).drop_last() == s@.take(i as int));
            assert(s@.take(i + 1).last() == c);
            reveal_with_fuel(Seq::filter, 2);
        }
        if c != '"' && c != '\\' && c != '*' {
            push_char(&mut r, c);
        }
        i = i + 1;
    }
    assert(s@.take(i as int) == s@);
    r
}

/// `s` with every maximal run of blanks replaced by one space.
pub open spec fn collapse_blanks_spec(s: Seq<char>) -> Seq<char>
    decreases s.len(),
{
    if s.len() == 0 {
        s
    } else {
        let init = collapse_blanks_spec(s.drop_last());
        if !is_blank(s.last()) {
            init.push(s.last())
        } else if s.len() >= 2 && is_blank(s[s.len() - 2]) {
            init
        } else {
            init.push(' ')
        }
    }
}

/// Replaces every maximal run of blanks in `s` by one space.
pub fn collapse_blanks(s: &str) -> (r: String)
    ensures
        r@ == collapse_blanks_spec(s@),
{
    let chars = chars_of(s);
    let mut r = String::new();
    let mut i: usize = 0;
    let mut after_blank = false;
    proof {
        assert(s@.take(0) == Seq::<char>::empty());
    }
    while i < chars.len()
        invariant
            i <= chars@.len(),
            chars@ == s@,
            r@ == collapse_blanks_spec(s@.take(i as int)),
            after_blank == (i > 0 && is_blank(s@[i - 1])),
        decreases chars@.len() - i,
    {
        let c = chars[i];
        proof {
            let t = s@.take(i + 1);
            assert(t.drop_last() == s@.take(i as int));
            assert(t.last() == c);
            assert(i > 0 ==> t[t.len() - 2] == s@[i - 1]);
        }
        let blank = is_blank_char(c);
        if !blank {
            push_char(&mut r, c);
        } else if !after_blank {
            push_char(&mut r, ' ');
        }
        after_blank = blank;
        i = i + 1;
    }
    assert(s@.take(i as int) == s@);
    r
}

/// `s` with every maximal run of white space replaced by one space.
pub open spec fn collapse_white_spec(s: Seq<char>) -> Seq<char>
    decreases s.len(),
{
    if s.len() == 0 {
        s
    } else {
        let init = collapse_white_spec(s.drop_last());
        if !is_white_space(s.last()) {
            init.push(s.last())
        } else if s.len() >= 2 && is_white_space(s[s.len() - 2]) {
            init
        } else {
            init.push(' ')
        }
    }
}

/// Replaces every maximal run of white space in `s` by one space.
pub fn collapse_white(s: &str) -> (r: String)
    ensures
        r@ == collapse_white_spec(s@),
{
    let chars = chars_of(s);
    let mut r = String::new();
    let mut i: usize = 0;
    let mut after_white = false;
    proof {
        assert(s@.take(0) == Seq::<char>::empty());
    }
    while i < chars.len()
        invariant
            i <= chars@.len(),
            chars@ == s@,
            r@ == collapse_white_spec(s@.take(i as int)),
            after_white == (i > 0 && is_white_space(s@[i - 1])),
        decreases chars@.len() - i,
    {
        let c = chars[i];
        proof {
            let t = s@.take(i + 1);
            assert(t.drop_last() == s@.take(i as int));
            assert(t.last() == c);
            assert(i > 0 ==> t[t.len() - 2] == s@[i - 1]);
        }
        let white = is_white_space_char(c);
        if !white {
            push_char(&mut r, c);
        } else if !after_white {
            push_char(&mut r, ' ');
        }
        after_white = white;
        i = i + 1;
    }
    assert(s@.take(i as int) == s@);
    r
}

/// The first index at or after `i` whose character is no white space, or the length.
pub open spec fn skip_white(s: Seq<char>, i: int) -> int
    decreases s.len() - i,
{
    if 0 <= i < s.len() && is_white_space(s[i]) {
        skip_white(s, i + 1)
    } else {
        i
    }
}

/// The least end `j >= lo` such that `s[j..hi]` is all white space.
pub open spec fn back_white(s: Seq<char>, lo: int, j: int) -> int
    decreases j,
{
    if 0 <= lo < j <= s.len() && is_white_space(s[j - 1]) {
        back_white(s, lo, j - 1)
    } else {
        j
    }
}

/// `s` without its leading and trailing white space.
pub open spec fn trim_spec(s: Seq<char>) -> Seq<char> {
    let a = skip_white(s, 0);
    let b = back_white(s, a, s.len() as int);
    s.subrange(a, b)
}

/// Removes leading and trailing white space.
pub fn trim(s: &str) -> (r: String)
    ensures
        r@ == trim_spec(s@),
{
    let chars = chars_of(s);
    let mut a: usize = 0;
    while a < chars.len() && is_white_space_char(chars[a])
        invariant
            a <= chars@.len(),
            chars@ == s@,
            skip_white(s@, 0) == skip_white(s@, a as int),
        decreases chars@.len() - a,
    {
        a = a + 1;
    }
    let mut b: usize = chars.len();
    while a < b && is_white_space_char(chars[b - 1])
        invariant
            a <= b <= chars@.len(),
            chars@ == s@,
            back_white(s@, a as int, s@.len() as int) == back_white(s@, a as int, b as int),
        decreases b,
    {
        b = b - 1;
    }
    string_of_range(&chars, a, b)
}

/// Whether `c` is an ASCII decimal digit.
pub open spec fn is_digit(c: char) -> bool {
    '0' <= c && c <= '9'
}

/// The value of the ASCII decimal digit `c`.
pub open spec fn digit_value(c: char) -> int {
    c as int - '0' as int
}

/// The number that a sequence of decimal digits writes.
pub open spec fn decimal_value(s: Seq<char>) -> int
    decreases s.len(),
{
    if s.len() == 0 {
        0
    } else {
        decimal_value(s.drop_last()) * 10 + digit_value(s.last())
    }
}

/// Whether every character of `s` is an ASCII decimal digit.
pub open spec fn all_digits(s: Seq<char>) -> bool {
    forall|i: int| 0 <= i < s.len() ==> is_digit(#[trigger] s[i])
}

/// Whether `s` begins with a sign.
pub open spec fn has_sign(s: Seq<char>) -> bool {
    s.len() > 0 && (s[0] == '+' || s[0] == '-')
}

/// The digits of a signed decimal numeral: what follows the sign, if there is one.
pub open spec fn numeral_digits(s: Seq<char>) -> Seq<char> {
    if has_sign(s) {
        s.drop_first()
    } else {
        s
    }
}

/// The number that the signed decimal numeral `s` writes.
pub open spec fn numeral_value(s: Seq<char>) -> int {
    if s.len() > 0 && s[0] == '-' {
        -decimal_value(numeral_digits(s))
    } else {
        decimal_value(numeral_digits(s))
    }
}

/// The 32-bit integer that `s` writes in decimal: an optional sign and at least one
/// ASCII digit, with a value that fits; `None` for any other text.
pub open spec fn parse_i32_spec(s: Seq<char>) -> Option<i32> {
    let d = numeral_digits(s);
    if d.len() > 0 && all_digits(d) && i32::MIN <= numeral_value(s) <= i32::MAX {
        Some(numeral_value(s) as i32)
    } else {
        None
    }
}

/// A longer numeral is at least as large as each of its prefixes.
pub proof fn lemma_decimal_value_prefix(s: Seq<char>, n: int)
    requires
        all_digits(s),
        0 <= n <= s.len(),
    ensures
        0 <= decimal_value(s.take(n)) <= decimal_value(s),
    decreases s.len(),
{
    if n == s.len() {
        assert(s.take(n) == s);
        if s.len() > 0 {
            assert(all_digits(s.drop_last()));
            lemma_decimal_value_prefix(s.drop_last(), n - 1);
            assert(is_digit(s.last()));
        }
    } else {
        assert(all_digits(s.drop_last()));
        assert(s.drop_last().take(n) == s.take(n));
        lemma_decimal_value_prefix(s.drop_last(), n);
        assert(is_digit(s.last()));
    }
}

/// Reads a signed decimal numeral that fits in 32 bits.
pub fn parse_i32(s: &str) -> (r: Option<i32>)
    ensures
        r == parse_i32_spec(s@),
{
    let chars = chars_of(s);
    let n = chars.len();
    let negative = n > 0 && chars[0] == '-';
    let start: usize = if n > 0 && (chars[0] == '+' || chars[0] == '-') {
        1
    } else {
        0
    };
    let ghost d = numeral_digits(s@);
    proof {
        assert(d == s@.subrange(start as int, n as int));
    }
    if start == n {
        return None;
    }
    let mut acc: i64 = 0;
    let mut i: usize = start;
    proof {
        assert(d.take(0) == Seq::<char>::empty());
    }
    while i < n
        invariant
            start <= i <= n,
            n == chars@.len(),
            chars@ == s@,
            d == s@.subrange(start as int, n as int),
            d == numeral_digits(s@),
            all_digits(d.take(i - start)),
            acc == decimal_value(d.take(i - start)),
            0 <= acc <= 0x8000_0000,
        decreases n - i,
    {
        let c = chars[i];
        proof {
            let t = d.take(i - start + 1);
            assert(t.drop_last() == d.take(i - start));
            assert(t.last() == c);
        }
        if !('0' <= c && c <= '9') {
            proof {
                assert(d[i - start] == c);
                assert(!all_digits(d));
            }
            return None;
        }
        let digit: i64 = (c as u32 - '0' as u32) as i64;
        let next: i64 = acc * 10 + digit;
        proof {
            let t = d.take(i - start + 1);
            assert forall|k: int| 0 <= k < t.len() implies is_digit(#[trigger] t[k]) by {
                if k < t.len() - 1 {
                    assert(t[k] == d.take(i - start)[k]);
                }
            }
        }
        if next > 0x8000_0000 {
            proof {
                if all_digits(d) {
                    lemma_decimal_value_prefix(d, i - start + 1);
                }
            }
            return None;
        }
        acc = next;
        i = i + 1;
    }
    proof {
        assert(d.take(n - start) == d);
    }
    if negative {
        Some((-acc) as i32)
    } else if acc == 0x8000_0000 {
        None
    } else {
        Some(acc as i32)
    }
}

/// The pieces of `s` between occurrences of `sep`: one more piece than there are
/// occurrences, each possibly empty.
pub open spec fn split_spec(s: Seq<char>, sep: char) -> Seq<Seq<char>>
    decreases s.len(),
{
    if s.len() == 0 {
        seq![Seq::<char>::empty()]
    } else {
        let init = split_spec(s.drop_last(), sep);
        if s.last() == sep {
            init.push(Seq::<char>::empty())
        } else {
            init.update(init.len() - 1, init.last().push(s.last()))
        }
    }
}

/// The views of a vector of character vectors.
pub open spec fn views(v: Seq<Vec<char>>) -> Seq<Seq<char>> {
    Seq::new(v.len(), |i: int| v[i]@)
}

/// `split_spec` never yields an empty list of pieces.
pub proof fn lemma_split_nonempty(s: Seq<char>, sep: char)
    ensures
        split_spec(s, sep).len() >= 1,
    decreases s.len(),
{
    if s.len() > 0 {
        lemma_split_nonempty(s.drop_last(), sep);
    }
}

/// Splits `s` at each occurrence of `sep`.
pub fn split(s: &Vec<char>, sep: char) -> (r: Vec<Vec<char>>)
    ensures
        views(r@) == split_spec(s@, sep),
{
    let mut done: Vec<Vec<char>> = Vec::new();
    let mut cur: Vec<char> = Vec::new();
    let mut i: usize = 0;
    proof {
        assert(s@.take(0) == Seq::<char>::empty());
        assert(views(done@).push(cur@) == seq![Seq::<char>::empty()]);
    }
    while i < s.len()
        invariant
            i <= s@.len(),
            views(done@).push(cur@) == split_spec(s@.take(i as int), sep),
        decreases s@.len() - i,
    {
        let c = s[i];
        let ghost before = views(done@).push(cur@);
        proof {
            let t = s@.take(i + 1);
            assert(t.drop_last() == s@.take(i as int));
            assert(t.last() == c);
        }
        if c == sep {
            let ghost old_done = done@;
            done.push(cur);
            cur = Vec::new();
            proof {
                assert(views(done@) == before);
            }
        } else {
            cur.push(c);
            proof {
                assert(views(done@).push(cur@) == before.update(
                    before.len() - 1,
                    before.last().push(c),
                ));
            }
        }
        i = i + 1;
    }
    proof {
        assert(s@.take(i as int) == s@);
    }
    let ghost before = views(done@).push(cur@);
    done.push(cur);
    proof {
        assert(views(done@) == before);
    }
    done
}

/// A text as it is kept between the elements of a document: its words, each pair
/// separated by one space.
pub open spec fn clean_spec(s: Seq<char>) -> Seq<char> {
    trim_spec(collapse_white_spec(s))
}

/// Cleans every text of `txt`: runs of white space become one space, and white space
/// at the ends is dropped.
pub fn clean_whitespace(txt: &mut Vec<String>)
    ensures
        final(txt)@.len() == old(txt)@.len(),
        forall|i: int| 0 <= i < old(txt)@.len() ==> (#[trigger] final(txt)@[i])@ == clean_spec(
            old(txt)@[i]@,
        ),
{
    let mut i: usize = 0;
    let n = txt.len();
    while i < n
        invariant
            i <= n,
            n == txt@.len(),
            txt@.len() == old(txt)@.len(),
            forall|j: int| 0 <= j < i ==> (#[trigger] txt@[j])@ == clean_spec(old(txt)@[j]@),
            forall|j: int| i <= j < n ==> txt@[j] == old(txt)@[j],
        decreases n - i,
    {
        let collapsed = collapse_white(txt[i].as_str());
        let cleaned = trim(collapsed.as_str());
        txt.set(i, cleaned);
        i = i + 1;
    }
}

} // verus!
