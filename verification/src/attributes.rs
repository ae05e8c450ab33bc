//! Attribute lists: key/value pairs attached to a node of a document.
//!
//! An attribute list is modelled as a sequence of pairs of character sequences. A key
//! occurs at most once in a list that was built by `insert` from the empty list.

use vstd::prelude::*;
use crate::text::copy_str;
use crate::text::str_eq;

verus! {

/// The model of an attribute list: its pairs, in the order of first insertion.
pub type Entries = Seq<(Seq<char>, Seq<char>)>;

/// The index of the first pair of `s` whose key is `k`, or the length of `s`.
pub open spec fn key_index(s: Entries, k: Seq<char>) -> int
    decreases s.len(),
{
    if s.len() == 0 {
        0
    } else if s[0].0 == k {
        0
    } else {
        1 + key_index(s.drop_first(), k)
    }
}

/// Whether some pair of `s` has the key `k`.
pub open spec fn has_key(s: Entries, k: Seq<char>) -> bool {
    key_index(s, k) < s.len()
}

/// The value that `s` gives to `k`.
pub open spec fn value_of(s: Entries, k: Seq<char>) -> Option<Seq<char>> {
    if has_key(s, k) {
        Some(s[key_index(s, k)].1)
    } else {
        None
    }
}

/// `s` after `k` was given the value `v`: the pair of `k` is updated where it stands,
/// or a new pair is added at the end.
pub open spec fn insert_entry(s: Entries, k: Seq<char>, v: Seq<char>) -> Entries {
    if has_key(s, k) {
        s.update(key_index(s, k), (k, v))
    } else {
        s.push((k, v))
    }
}

/// Whether no key occurs twice in `s`.
pub open spec fn unique_keys(s: Entries) -> bool {
    forall|i: int, j: int| 0 <= i < j < s.len() ==> (#[trigger] s[i]).0 != (#[trigger] s[j]).0
}

/// `key_index` is within bounds, finds `k` where it is less than the length, and no
/// earlier pair has the key `k`.
pub proof fn lemma_key_index(s: Entries, k: Seq<char>)
    ensures
        0 <= key_index(s, k) <= s.len(),
        key_index(s, k) < s.len() ==> s[key_index(s, k)].0 == k,
        forall|j: int| 0 <= j < key_index(s, k) ==> (#[trigger] s[j]).0 != k,
    decreases s.len(),
{
    if s.len() > 0 && s[0].0 != k {
        let t = s.drop_first();
        lemma_key_index(t, k);
        assert forall|j: int| 0 <= j < key_index(s, k) implies (#[trigger] s[j]).0 != k by {
            if j > 0 {
                assert(s[j] == t[j - 1]);
            }
        }
    }
}

/// The first index that holds `k` is the value of `key_index`.
pub proof fn lemma_key_index_is(s: Entries, k: Seq<char>, i: int)
    requires
        0 <= i <= s.len(),
        i < s.len() ==> s[i].0 == k,
        forall|j: int| 0 <= j < i ==> (#[trigger] s[j]).0 != k,
    ensures
        key_index(s, k) == i,
{
    lemma_key_index(s, k);
    let c = key_index(s, k);
    if c < i {
        assert(s[c].0 != k);
    }
}

/// Giving a key a value keeps the keys distinct, makes the key present with that value,
/// and leaves the value of every other key as it was.
pub proof fn lemma_insert_entry(s: Entries, k: Seq<char>, v: Seq<char>)
    ensures
        unique_keys(s) ==> unique_keys(insert_entry(s, k, v)),
        value_of(insert_entry(s, k, v), k) == Some(v),
        forall|other: Seq<char>|
            other != k ==> #[trigger] value_of(insert_entry(s, k, v), other) == value_of(s, other),
        has_key(s, k) ==> insert_entry(s, k, v).len() == s.len(),
        !has_key(s, k) ==> insert_entry(s, k, v).len() == s.len() + 1,
{
    let r = insert_entry(s, k, v);
    let i = key_index(s, k);
    lemma_key_index(s, k);
    assert forall|j: int| 0 <= j < i implies (#[trigger] r[j]).0 != k by {
        assert(r[j] == s[j]);
    }
    lemma_key_index_is(r, k, i);
    if unique_keys(s) {
        assert forall|a: int, b: int| 0 <= a < b < r.len() implies (#[trigger] r[a]).0 != (
        #[trigger] r[b]).0 by {
            if has_key(s, k) {
                assert(r[a].0 == s[a].0 && r[b].0 == s[b].0);
            } else if b == s.len() {
                assert(r[a] == s[a]);
            } else {
                assert(r[a] == s[a] && r[b] == s[b]);
            }
        }
    }
    assert forall|other: Seq<char>| other != k implies #[trigger] value_of(r, other) == value_of(
        s,
        other,
    ) by {
        let c = key_index(s, other);
        lemma_key_index(s, other);
        assert forall|j: int| 0 <= j < c implies (#[trigger] r[j]).0 != other by {
            assert(r[j].0 == s[j].0 || r[j].0 == k);
            if j < s.len() {
                assert(s[j].0 != other);
            }
        }
        if c < s.len() {
            assert(r[c] == s[c]);
            lemma_key_index_is(r, other, c);
        } else {
            if has_key(s, k) {
                lemma_key_index_is(r, other, c);
            } else {
                assert(r[c].0 == k);
                lemma_key_index_is(r, other, c + 1);
            }
        }
    }
}

/// An ordered list of attributes with string keys and string values.
pub struct AttributeMap {
    /// The pairs, in the order in which their keys were first given a value.
    pub entries: Vec<(String, String)>,
}

impl AttributeMap {
    /// The pairs of the list, in order.
    pub open spec fn view(&self) -> Entries {
        Seq::new(self.entries@.len(), |i: int| (self.entries@[i].0@, self.entries@[i].1@))
    }

    /// The empty attribute list.
    pub fn new() -> (r: Self)
        ensures
            r@ == Seq::<(Seq<char>, Seq<char>)>::empty(),
    {
        let r = AttributeMap { entries: Vec::new() };
        assert(r@ == Seq::<(Seq<char>, Seq<char>)>::empty());
        r
    }

    /// The number of pairs.
    pub fn len(&self) -> (n: usize)
        ensures
            n == self@.len(),
    {
        self.entries.len()
    }

    /// Whether the list holds no pair.
    pub fn is_empty(&self) -> (b: bool)
        ensures
            b == (self@.len() == 0),
    {
        self.entries.len() == 0
    }

    /// The index of the first pair with the key `key`, or the number of pairs.
    pub fn position(&self, key: &str) -> (i: usize)
        ensures
            i == key_index(self@, key@),
    {
        let mut i: usize = 0;
        while i < self.entries.len()
            invariant
                i <= self.entries@.len(),
                forall|j: int| 0 <= j < i ==> (#[trigger] self@[j]).0 != key@,
            decreases self.entries@.len() - i,
        {
            if str_eq(self.entries[i].0.as_str(), key) {
                proof {
                    lemma_key_index_is(self@, key@, i as int);
                }
                return i;
            }
            i = i + 1;
        }
        proof {
            lemma_key_index_is(self@, key@, i as int);
        }
        i
    }

    /// Whether the list gives `key` a value.
    pub fn contains_key(&self, key: &str) -> (b: bool)
        ensures
            b == has_key(self@, key@),
    {
        self.position(key) < self.entries.len()
    }

    /// The value that the list gives to `key`.
    pub fn get(&self, key: &str) -> (r: Option<String>)
        ensures
            r is Some == has_key(self@, key@),
            r is Some ==> Some(r->0@) == value_of(self@, key@),
    {
        let i = self.position(key);
        if i < self.entries.len() {
            Some(copy_str(self.entries[i].1.as_str()))
        } else {
            None
        }
    }

    /// The key of the pair at `i`.
    pub fn key_at(&self, i: usize) -> (k: &String)
        requires
            i < self@.len(),
        ensures
            k@ == self@[i as int].0,
    {
        &self.entries[i].0
    }

    /// The value of the pair at `i`.
    pub fn value_at(&self, i: usize) -> (v: &String)
        requires
            i < self@.len(),
        ensures
            v@ == self@[i as int].1,
    {
        &self.entries[i].1
    }

    /// Gives `key` the value `value`.
    pub fn insert(&mut self, key: String, value: String)
        ensures
            final(self)@ == insert_entry(old(self)@, key@, value@),
            unique_keys(old(self)@) ==> unique_keys(final(self)@),
    {
        let i = self.position(key.as_str());
        proof {
            lemma_insert_entry(self@, key@, value@);
            lemma_key_index(self@, key@);
        }
        if i < self.entries.len() {
            self.entries.set(i, (key, value));
        } else {
            self.entries.push((key, value));
        }
        assert(self@ == insert_entry(old(self)@, key@, value@));
    }

    /// Removes every pair.
    pub fn clear(&mut self)
        ensures
            final(self)@ == Seq::<(Seq<char>, Seq<char>)>::empty(),
    {
        self.entries = Vec::new();
        assert(self@ == Seq::<(Seq<char>, Seq<char>)>::empty());
    }

    /// A copy of the list.
    pub fn copy(&self) -> (r: Self)
        ensures
            r@ == self@,
    {
        let mut r = AttributeMap { entries: Vec::new() };
        let mut i: usize = 0;
        while i < self.entries.len()
            invariant
                i <= self.entries@.len(),
                r.entries@.len() == i,
                forall|j: int|
                    0 <= j < i ==> (#[trigger] r.entries@[j]).0@ == self.entries@[j].0@
                        && r.entries@[j].1@ == self.entries@[j].1@,
            decreases self.entries@.len() - i,
        {
            let k = copy_str(self.entries[i].0.as_str());
            let v = copy_str(self.entries[i].1.as_str());
            r.entries.push((k, v));
            i = i + 1;
        }
        assert(r@ == self@);
        r
    }
}

/// A named element together with its attributes.
pub struct Element {
    /// The name of the element.
    pub tag_name: String,
    /// The attributes of the element.
    pub attributes: AttributeMap,
}

impl Element {
    /// An element with the given name and attributes.
    pub fn new(tag_name: String, attributes: AttributeMap) -> (e: Self)
        ensures
            e.tag_name == tag_name,
            e.attributes == attributes,
    {
        Element { tag_name, attributes }
    }
}

} // verus!
