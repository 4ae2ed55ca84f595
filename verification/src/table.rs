//! Tables keyed by text and kept in key order.

use vstd::prelude::*;

use crate::text::chars_of;
use crate::text::same;

verus! {

/// Lexicographic order of texts by character.
pub open spec fn before(a: Seq<char>, b: Seq<char>) -> bool
    decreases a.len(),
{
    if b.len() == 0 {
        false
    } else if a.len() == 0 {
        true
    } else if a[0] != b[0] {
        a[0] < b[0]
    } else {
        before(a.skip(1), b.skip(1))
    }
}

pub proof fn lemma_before_irreflexive(a: Seq<char>)
    ensures
        !before(a, a),
    decreases a.len(),
{
    if a.len() > 0 {
        lemma_before_irreflexive(a.skip(1));
    }
}

pub proof fn lemma_before_total(a: Seq<char>, b: Seq<char>)
    ensures
        before(a, b) || before(b, a) || a == b,
    decreases a.len(),
{
    if a.len() > 0 && b.len() > 0 && a[0] == b[0] {
        lemma_before_total(a.skip(1), b.skip(1));
        if a.skip(1) == b.skip(1) {
            assert(a == seq![a[0]] + a.skip(1));
            assert(b == seq![b[0]] + b.skip(1));
        }
    } else if a.len() == 0 && b.len() == 0 {
        assert(a == b);
    }
}

pub proof fn lemma_before_transitive(a: Seq<char>, b: Seq<char>, c: Seq<char>)
    requires
        before(a, b),
        before(b, c),
    ensures
        before(a, c),
    decreases a.len(),
{
    if a.len() > 0 && a[0] == b[0] && b[0] == c[0] {
        lemma_before_transitive(a.skip(1), b.skip(1), c.skip(1));
    }
}

pub fn text_before(a: &str, b: &str) -> (r: bool)
    ensures
        r == before(a@, b@),
{
    let x: Vec<char> = chars_of(a);
    let y: Vec<char> = chars_of(b);
    let mut i: usize = 0;
    assert(a@.skip(0) == a@ && b@.skip(0) == b@);
    while i < x.len() && i < y.len()
        invariant
            x@ == a@,
            y@ == b@,
            i <= x@.len(),
            i <= y@.len(),
            before(a@, b@) == before(a@.skip(i as int), b@.skip(i as int)),
        decreases x.len() - i,
    {
        if x[i] != y[i] {
            return x[i] < y[i];
        }
        assert(a@.skip(i as int).skip(1) == a@.skip(i + 1));
        assert(b@.skip(i as int).skip(1) == b@.skip(i + 1));
        i = i + 1;
    }
    i < y.len()
}

/// The index of `key`, or the number of entries.
pub open spec fn position<V>(s: Seq<(Seq<char>, V)>, key: Seq<char>) -> int
    decreases s.len(),
{
    if s.len() == 0 {
        0
    } else if s[0].0 == key {
        0
    } else {
        1 + position(s.skip(1), key)
    }
}

pub open spec fn has_key<V>(s: Seq<(Seq<char>, V)>, key: Seq<char>) -> bool {
    position(s, key) < s.len()
}

/// The value stored under `key`.
pub open spec fn lookup<V>(s: Seq<(Seq<char>, V)>, key: Seq<char>) -> Option<V> {
    if has_key(s, key) {
        Some(s[position(s, key)].1)
    } else {
        None
    }
}

/// The number of leading entries whose keys come before `key`.
pub open spec fn slot<V>(s: Seq<(Seq<char>, V)>, key: Seq<char>) -> int
    decreases s.len(),
{
    if s.len() == 0 || !before(s[0].0, key) {
        0
    } else {
        1 + slot(s.skip(1), key)
    }
}

/// The table with `value` under `key`.
pub open spec fn inserted<V>(s: Seq<(Seq<char>, V)>, key: Seq<char>, value: V) -> Seq<
    (Seq<char>, V),
> {
    if has_key(s, key) {
        s.update(position(s, key), (key, value))
    } else {
        s.insert(slot(s, key), (key, value))
    }
}

/// Keys in strictly increasing order.
pub open spec fn in_order<V>(s: Seq<(Seq<char>, V)>) -> bool {
    forall|i: int, j: int| 0 <= i < j < s.len() ==> before(#[trigger] s[i].0, #[trigger] s[j].0)
}

pub proof fn lemma_position<V>(s: Seq<(Seq<char>, V)>, key: Seq<char>)
    ensures
        0 <= position(s, key) <= s.len(),
        position(s, key) < s.len() ==> s[position(s, key)].0 == key,
        forall|j: int| 0 <= j < position(s, key) ==> (#[trigger] s[j]).0 != key,
    decreases s.len(),
{
    if s.len() > 0 && s[0].0 != key {
        lemma_position(s.skip(1), key);
        assert forall|j: int| 0 <= j < position(s, key) implies (#[trigger] s[j]).0 != key by {
            if j > 0 {
                assert(s.skip(1)[j - 1] == s[j]);
            }
        }
    }
}

/// A key that occurs is found where it stands.
pub proof fn lemma_position_is<V>(s: Seq<(Seq<char>, V)>, key: Seq<char>, i: int)
    requires
        0 <= i < s.len(),
        s[i].0 == key,
        forall|j: int| 0 <= j < i ==> (#[trigger] s[j]).0 != key,
    ensures
        position(s, key) == i,
    decreases s.len(),
{
    if i > 0 {
        assert forall|j: int| 0 <= j < i - 1 implies (#[trigger] s.skip(1)[j]).0 != key by {
            assert(s.skip(1)[j] == s[j + 1]);
        }
        lemma_position_is(s.skip(1), key, i - 1);
    }
}

pub proof fn lemma_slot<V>(s: Seq<(Seq<char>, V)>, key: Seq<char>)
    ensures
        0 <= slot(s, key) <= s.len(),
        slot(s, key) < s.len() ==> !before(s[slot(s, key)].0, key),
        forall|j: int| 0 <= j < slot(s, key) ==> before((#[trigger] s[j]).0, key),
    decreases s.len(),
{
    if s.len() > 0 && before(s[0].0, key) {
        lemma_slot(s.skip(1), key);
        assert forall|j: int| 0 <= j < slot(s, key) implies before((#[trigger] s[j]).0, key) by {
            if j > 0 {
                assert(s.skip(1)[j - 1] == s[j]);
            }
        }
    }
}

/// Inserting keeps the keys in order.
pub proof fn lemma_inserted_in_order<V>(s: Seq<(Seq<char>, V)>, key: Seq<char>, value: V)
    requires
        in_order(s),
    ensures
        in_order(inserted(s, key, value)),
{
    lemma_position(s, key);
    lemma_slot(s, key);
    let t = inserted(s, key, value);
    if !has_key(s, key) {
        let k = slot(s, key);
        assert forall|i: int| k <= i < s.len() implies before(key, (#[trigger] s[i]).0) by {
            lemma_before_total(s[k].0, key);
            if i > k {
                lemma_before_transitive(key, s[k].0, s[i].0);
            }
        }
    }
}

/// What was inserted is found, and everything else is found as before.
pub proof fn lemma_lookup_inserted<V>(
    s: Seq<(Seq<char>, V)>,
    key: Seq<char>,
    value: V,
    other: Seq<char>,
)
    ensures
        lookup(inserted(s, key, value), other) == if other == key {
            Some(value)
        } else {
            lookup(s, other)
        },
{
    lemma_position(s, key);
    lemma_position(s, other);
    lemma_slot(s, key);
    let t = inserted(s, key, value);
    if has_key(s, key) {
        let k = position(s, key);
        if other == key {
            lemma_position_is(t, key, k);
        } else if has_key(s, other) {
            lemma_position_is(t, other, position(s, other));
        } else {
            lemma_position(t, other);
        }
    } else {
        let k = slot(s, key);
        if other == key {
            assert forall|j: int| 0 <= j < k implies (#[trigger] t[j]).0 != key by {
                assert(t[j] == s[j]);
            }
            lemma_position_is(t, key, k);
        } else if has_key(s, other) {
            let p = position(s, other);
            let np = if p < k {
                p
            } else {
                p + 1
            };
            assert forall|j: int| 0 <= j < np implies (#[trigger] t[j]).0 != other by {
                if j < k {
                    assert(t[j] == s[j]);
                } else if j > k {
                    assert(t[j] == s[j - 1]);
                }
            }
            lemma_position_is(t, other, np);
        } else {
            lemma_position(t, other);
            let p = position(t, other);
            if p < t.len() {
                if p < k {
                    assert(t[p] == s[p]);
                } else if p > k {
                    assert(t[p] == s[p - 1]);
                }
            }
        }
    }
}

/// A table of values keyed by text.
#[derive(Clone, Debug)]
pub struct Table<V> {
    pub entries: Vec<(String, V)>,
}

impl<V> View for Table<V> {
    type V = Seq<(Seq<char>, V)>;

    open spec fn view(&self) -> Seq<(Seq<char>, V)> {
        Seq::new(self.entries@.len(), |i: int| (self.entries@[i].0@, self.entries@[i].1))
    }
}

impl<V> Table<V> {
    /// Keys are in strictly increasing order.
    pub open spec fn well_formed(&self) -> bool {
        in_order(self@)
    }

    pub fn new() -> (r: Table<V>)
        ensures
            r@ == Seq::<(Seq<char>, V)>::empty(),
            r.well_formed(),
    {
        let r = Table { entries: Vec::new() };
        assert(r@ == Seq::<(Seq<char>, V)>::empty());
        r
    }

    pub fn len(&self) -> (r: usize)
        ensures
            r == self@.len(),
    {
        self.entries.len()
    }

    /// The index of `key`, or the number of entries.
    pub fn index_of(&self, key: &str) -> (r: usize)
        ensures
            r == position(self@, key@),
            r <= self@.len(),
            r < self@.len() ==> self@[r as int].0 == key@,
    {
        let mut i: usize = 0;
        assert(self@.skip(0) == self@);
        while i < self.entries.len()
            invariant
                i <= self.entries@.len(),
                position(self@, key@) == i + position(self@.skip(i as int), key@),
            decreases self.entries.len() - i,
        {
            assert(self@.skip(i as int)[0] == self@[i as int]);
            if same(self.entries[i].0.as_str(), key) {
                return i;
            }
            assert(self@.skip(i as int).skip(1) == self@.skip(i + 1));
            i = i + 1;
        }
        i
    }

    pub fn contains_key(&self, key: &str) -> (r: bool)
        ensures
            r == has_key(self@, key@),
    {
        self.index_of(key) < self.entries.len()
    }

    pub fn get(&self, key: &str) -> (r: Option<&V>)
        ensures
            r == (match lookup(self@, key@) {
                Some(v) => Some(&v),
                None => None,
            }),
    {
        let i: usize = self.index_of(key);
        if i < self.entries.len() {
            Some(&self.entries[i].1)
        } else {
            None
        }
    }

    pub fn key_at(&self, i: usize) -> (r: &str)
        requires
            i < self@.len(),
        ensures
            r@ == self@[i as int].0,
    {
        self.entries[i].0.as_str()
    }

    pub fn value_at(&self, i: usize) -> (r: &V)
        requires
            i < self@.len(),
        ensures
            *r == self@[i as int].1,
    {
        &self.entries[i].1
    }

    /// Stores `value` under `key`.
    pub fn insert(&mut self, key: &str, value: V)
        ensures
            final(self)@ == inserted(old(self)@, key@, value),
            old(self).well_formed() ==> final(self).well_formed(),
    {
        proof {
            if self.well_formed() {
                lemma_inserted_in_order(self@, key@, value);
            }
            lemma_position(self@, key@);
            lemma_slot(self@, key@);
        }
        let ghost before_call = self@;
        let i: usize = self.index_of(key);
        if i < self.entries.len() {
            self.entries.set(i, (key.to_owned(), value));
            assert(self@ == before_call.update(i as int, (key@, value)));
            return;
        }
        let mut k: usize = 0;
        assert(self@.skip(0) == self@);
        while k < self.entries.len() && text_before(self.entries[k].0.as_str(), key)
            invariant
                k <= self.entries@.len(),
                self@ == before_call,
                slot(self@, key@) == k + slot(self@.skip(k as int), key@),
            decreases self.entries.len() - k,
        {
            assert(self@.skip(k as int)[0] == self@[k as int]);
            assert(self@.skip(k as int).skip(1) == self@.skip(k + 1));
            k = k + 1;
        }
        if k < self.entries.len() {
            assert(self@.skip(k as int)[0] == self@[k as int]);
        }
        self.entries.insert(k, (key.to_owned(), value));
        assert(self@ == before_call.insert(k as int, (key@, value)));
    }
}

/// The entries with the views of their values.
pub open spec fn deep<V: DeepView>(s: Seq<(Seq<char>, V)>) -> Seq<(Seq<char>, V::V)> {
    Seq::new(s.len(), |i: int| (s[i].0, s[i].1.deep_view()))
}

/// Looking at views of values does not move the keys.
pub proof fn lemma_deep<V: DeepView>(s: Seq<(Seq<char>, V)>, key: Seq<char>)
    ensures
        position(deep(s), key) == position(s, key),
        slot(deep(s), key) == slot(s, key),
    decreases s.len(),
{
    if s.len() > 0 {
        lemma_deep(s.skip(1), key);
        assert(deep(s).skip(1) == deep(s.skip(1)));
    }
}

impl<V: DeepView> DeepView for Table<V> {
    type V = Seq<(Seq<char>, V::V)>;

    open spec fn deep_view(&self) -> Seq<(Seq<char>, V::V)> {
        deep(self@)
    }
}

impl<V: DeepView> Table<V> {
    pub fn find(&self, key: &str) -> (r: Option<&V>)
        ensures
            lookup(self.deep_view(), key@) == match r {
                Some(v) => Some(v.deep_view()),
                None => None,
            },
            r matches Some(v) ==> lookup(self@, key@) == Some(*v),
    {
        proof {
            lemma_deep(self@, key@);
            lemma_position(self@, key@);
        }
        self.get(key)
    }

    pub fn has(&self, key: &str) -> (r: bool)
        ensures
            r == has_key(self.deep_view(), key@),
    {
        proof {
            lemma_deep(self@, key@);
        }
        self.contains_key(key)
    }

    /// Stores `value` under `key`.
    pub fn put(&mut self, key: &str, value: V)
        ensures
            final(self).deep_view() == inserted(old(self).deep_view(), key@, value.deep_view()),
            old(self).well_formed() ==> final(self).well_formed(),
    {
        proof {
            lemma_deep(self@, key@);
            lemma_position(self@, key@);
            lemma_slot(self@, key@);
            assert(deep(inserted(self@, key@, value)) == inserted(
                deep(self@),
                key@,
                value.deep_view(),
            ));
        }
        self.insert(key, value);
    }
}

} // verus!
