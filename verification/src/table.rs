//! A map from strings, kept in key order.

use crate::text::chars_of;
use vstd::prelude::*;

verus! {

/// Lexicographic order by code point, which is also the order of the UTF-8
/// bytes.
pub open spec fn before(a: Seq<char>, b: Seq<char>) -> bool
    decreases a.len(),
{
    if b.len() == 0 {
        false
    } else if a.len() == 0 {
        true
    } else if a[0] == b[0] {
        before(a.skip(1), b.skip(1))
    } else {
        a[0] < b[0]
    }
}

/// A string is not before itself, and one of two different strings is before
/// the other.
pub proof fn before_is_strict_and_total(a: Seq<char>, b: Seq<char>)
    ensures
        !before(a, a),
        a == b || before(a, b) || before(b, a),
        !(before(a, b) && before(b, a)),
    decreases a.len(),
{
    if a.len() > 0 {
        before_is_strict_and_total(a.skip(1), a.skip(1));
        if b.len() > 0 && a[0] == b[0] {
            before_is_strict_and_total(a.skip(1), b.skip(1));
            if a.skip(1) == b.skip(1) {
                assert(a =~= seq![a[0]] + a.skip(1));
                assert(b =~= seq![b[0]] + b.skip(1));
            }
        }
    }
    if a.len() == 0 && b.len() == 0 {
        assert(a =~= b);
    }
}

pub proof fn before_is_transitive(a: Seq<char>, b: Seq<char>, c: Seq<char>)
    requires
        before(a, b),
        before(b, c),
    ensures
        before(a, c),
    decreases a.len(),
{
    if a.len() > 0 && b.len() > 0 && c.len() > 0 && a[0] == b[0] && b[0] == c[0] {
        before_is_transitive(a.skip(1), b.skip(1), c.skip(1));
    }
}

enum Rank {
    Before,
    Same,
    After,
}

fn rank(a: &str, b: &str) -> (r: Rank)
    ensures
        match r {
            Rank::Before => before(a@, b@),
            Rank::Same => a@ == b@,
            Rank::After => before(b@, a@),
        },
{
    let x = chars_of(a);
    let y = chars_of(b);
    let mut i: usize = 0;
    assert(x@.skip(0) =~= a@);
    assert(y@.skip(0) =~= b@);
    while i < x.len() && i < y.len()
        invariant
            x@ == a@,
            y@ == b@,
            i <= x@.len(),
            i <= y@.len(),
            a@.take(i as int) == b@.take(i as int),
            before(a@, b@) == before(a@.skip(i as int), b@.skip(i as int)),
            before(b@, a@) == before(b@.skip(i as int), a@.skip(i as int)),
        decreases x@.len() - i,
    {
        let ghost s = a@.skip(i as int);
        let ghost t = b@.skip(i as int);
        assert(s[0] == a@[i as int] && t[0] == b@[i as int]);
        assert(s.skip(1) =~= a@.skip(i + 1));
        assert(t.skip(1) =~= b@.skip(i + 1));
        if x[i] != y[i] {
            if x[i] < y[i] {
                return Rank::Before;
            } else {
                return Rank::After;
            }
        }
        assert(a@.take(i + 1) =~= a@.take(i as int).push(a@[i as int]));
        assert(b@.take(i + 1) =~= b@.take(i as int).push(b@[i as int]));
        i += 1;
    }
    if i < y.len() {
        Rank::Before
    } else if i < x.len() {
        Rank::After
    } else {
        assert(a@.take(i as int) =~= a@);
        assert(b@.take(i as int) =~= b@);
        Rank::Same
    }
}

/// Whether a string is before another.
pub fn is_before(a: &str, b: &str) -> (r: bool)
    ensures
        r == before(a@, b@),
{
    match rank(a, b) {
        Rank::Before => true,
        Rank::Same => {
            proof {
                before_is_strict_and_total(a@, b@);
            }
            false
        },
        Rank::After => {
            proof {
                before_is_strict_and_total(a@, b@);
            }
            false
        },
    }
}

/// A map from strings to `V`, in key order.
#[derive(Debug, PartialEq, Eq)]
pub struct Table<V> {
    entries: Vec<(String, V)>,
}

/// Whether the keys are in strict order.
pub open spec fn in_order(keys: Seq<Seq<char>>) -> bool {
    forall|i: int, j: int| 0 <= i < j < keys.len() ==> before(#[trigger] keys[i], #[trigger] keys[j])
}

impl<V> Table<V> {
    #[verifier::type_invariant]
    spec fn inv(self) -> bool {
        in_order(self.keys())
    }

    /// The keys in order.
    pub closed spec fn keys(self) -> Seq<Seq<char>> {
        Seq::new(self.entries@.len(), |i: int| self.entries@[i].0@)
    }

    /// The values in the order of their keys.
    pub closed spec fn values(self) -> Seq<V> {
        Seq::new(self.entries@.len(), |i: int| self.entries@[i].1)
    }
}

/// The position of a key.
pub open spec fn position_of(keys: Seq<Seq<char>>, key: Seq<char>) -> int {
    choose|i: int| 0 <= i < keys.len() && keys[i] == key
}

impl<V: DeepView> View for Table<V> {
    type V = Map<Seq<char>, V::V>;

    open spec fn view(&self) -> Map<Seq<char>, V::V> {
        Map::new(
            |k: Seq<char>| self.keys().contains(k),
            |k: Seq<char>| self.values()[position_of(self.keys(), k)].deep_view(),
        )
    }
}

impl<V: DeepView> DeepView for Table<V> {
    type V = Map<Seq<char>, V::V>;

    open spec fn deep_view(&self) -> Map<Seq<char>, V::V> {
        self.view()
    }
}

proof fn lemma_position(keys: Seq<Seq<char>>, i: int)
    requires
        in_order(keys),
        0 <= i < keys.len(),
    ensures
        position_of(keys, keys[i]) == i,
        keys.contains(keys[i]),
{
    let p = position_of(keys, keys[i]);
    assert(0 <= p < keys.len() && keys[p] == keys[i]);
    before_is_strict_and_total(keys[i], keys[i]);
    if p < i {
        assert(before(keys[p], keys[i]));
    }
    if i < p {
        assert(before(keys[i], keys[p]));
    }
}

impl<V: DeepView> Table<V> {
    /// No key occurs twice, and each value belongs to the key at its position.
    pub proof fn keys_index_the_view(&self)
        requires
            in_order(self.keys()),
        ensures
            self.keys().len() == self.values().len(),
            forall|k: Seq<char>| self@.contains_key(k) <==> self.keys().contains(k),
            forall|i: int|
                0 <= i < self.keys().len() ==> self@.contains_key(#[trigger] self.keys()[i])
                    && self@[self.keys()[i]] == self.values()[i].deep_view(),
    {
        assert forall|i: int| 0 <= i < self.keys().len() implies self@.contains_key(
            #[trigger] self.keys()[i],
        ) && self@[self.keys()[i]] == self.values()[i].deep_view() by {
            lemma_position(self.keys(), i);
        }
    }

    pub fn new() -> (r: Self)
        ensures
            r@ == Map::<Seq<char>, V::V>::empty(),
            r.keys().len() == 0,
    {
        let r = Table { entries: Vec::new() };
        assert(r@ =~= Map::empty());
        r
    }

    pub fn len(&self) -> (n: usize)
        ensures
            n == self.keys().len(),
            in_order(self.keys()),
    {
        proof {
            use_type_invariant(self);
        }
        self.entries.len()
    }

    pub fn is_empty(&self) -> (r: bool)
        ensures
            r == (self@ == Map::<Seq<char>, V::V>::empty()),
    {
        proof {
            use_type_invariant(self);
            self.keys_index_the_view();
            if self.keys().len() > 0 {
                assert(self@.contains_key(self.keys()[0]));
            } else {
                assert(self@ =~= Map::empty());
            }
        }
        self.entries.len() == 0
    }

    /// The key at a position.
    pub fn key_at(&self, i: usize) -> (r: &str)
        requires
            i < self.keys().len(),
        ensures
            r@ == self.keys()[i as int],
    {
        self.entries[i].0.as_str()
    }

    /// The value at a position.
    pub fn value_at(&self, i: usize) -> (r: &V)
        requires
            i < self.keys().len(),
        ensures
            *r == self.values()[i as int],
            r.deep_view() == self@[self.keys()[i as int]],
    {
        proof {
            use_type_invariant(self);
            self.keys_index_the_view();
        }
        &self.entries[i].1
    }

    /// Where `key` is, or where it would be.
    fn search(&self, key: &str) -> (r: (bool, usize))
        ensures
            r.1 <= self.keys().len(),
            r.0 == self@.contains_key(key@),
            r.0 ==> r.1 < self.keys().len() && self.keys()[r.1 as int] == key@,
            forall|k: int| 0 <= k < r.1 ==> before(#[trigger] self.keys()[k], key@),
            !r.0 ==> forall|k: int|
                r.1 <= k < self.keys().len() ==> before(key@, #[trigger] self.keys()[k]),
    {
        proof {
            use_type_invariant(self);
            self.keys_index_the_view();
        }
        for i in 0..self.entries.len()
            invariant
                in_order(self.keys()),
                forall|k: int| 0 <= k < i ==> before(#[trigger] self.keys()[k], key@),
        {
            let ghost keys = self.keys();
            match rank(self.entries[i].0.as_str(), key) {
                Rank::Before => {},
                Rank::Same => {
                    proof {
                        self.keys_index_the_view();
                        assert(keys[i as int] == key@);
                        assert(keys.contains(key@));
                    }
                    return (true, i);
                },
                Rank::After => {
                    proof {
                        assert forall|k: int| i <= k < keys.len() implies before(
                            key@,
                            #[trigger] keys[k],
                        ) by {
                            if k > i {
                                assert(before(keys[i as int], keys[k]));
                                before_is_transitive(key@, keys[i as int], keys[k]);
                            }
                        }
                        if keys.contains(key@) {
                            let k = choose|k: int| 0 <= k < keys.len() && keys[k] == key@;
                            before_is_strict_and_total(key@, key@);
                        }
                    }
                    return (false, i);
                },
            }
        }
        proof {
            if self.keys().contains(key@) {
                let k = choose|k: int| 0 <= k < self.keys().len() && self.keys()[k] == key@;
                before_is_strict_and_total(key@, key@);
            }
        }
        (false, self.entries.len())
    }

    pub fn contains_key(&self, key: &str) -> (r: bool)
        ensures
            r == self@.contains_key(key@),
    {
        self.search(key).0
    }

    pub fn get(&self, key: &str) -> (r: Option<&V>)
        ensures
            match r {
                Some(v) => self@.contains_key(key@) && self@[key@] == v.deep_view(),
                None => !self@.contains_key(key@),
            },
    {
        let (found, i) = self.search(key);
        if found {
            Some(self.value_at(i))
        } else {
            None
        }
    }

    /// Sets the value of a key.
    pub fn insert(&mut self, key: String, value: V)
        ensures
            final(self)@ == old(self)@.insert(key@, value.deep_view()),
    {
        let ghost old_keys = self.keys();
        let ghost old_values = self.values();
        let ghost old_map = self@;
        let (found, i) = self.search(key.as_str());
        proof {
            use_type_invariant(&*self);
            self.keys_index_the_view();
        }
        assert(in_order(old_keys));
        let mut entries: Vec<(String, V)> = Vec::new();
        std::mem::swap(&mut entries, &mut self.entries);
        if found {
            entries.remove(i);
        }
        let ghost rest = Seq::new(entries@.len(), |k: int| entries@[k].0@);
        assert(forall|k: int| 0 <= k < i ==> rest[k] == old_keys[k]);
        assert(forall|k: int|
            i <= k < rest.len() ==> rest[k] == (if found {
                old_keys[k + 1]
            } else {
                old_keys[k]
            }));
        entries.insert(i, (key, value));
        let ghost keys = Seq::new(entries@.len(), |k: int| entries@[k].0@);
        proof {
            assert forall|a: int, b: int| 0 <= a < b < keys.len() implies before(
                #[trigger] keys[a],
                #[trigger] keys[b],
            ) by {
                let shift = if found {
                    0int
                } else {
                    1int
                };
                if a < i {
                    assert(keys[a] == old_keys[a]);
                }
                if b < i {
                    assert(keys[b] == old_keys[b]);
                }
                if a > i {
                    assert(keys[a] == rest[a - 1]);
                    assert(keys[a] == old_keys[a - shift]);
                }
                if b > i {
                    assert(keys[b] == rest[b - 1]);
                    assert(keys[b] == old_keys[b - shift]);
                }
                if a == i && found {
                    assert(key@ == old_keys[i as int]);
                    assert(before(old_keys[i as int], old_keys[b]));
                }
            }
            assert(in_order(keys));
        }
        let fresh = Table { entries };
        proof {
            fresh.keys_index_the_view();
            assert(fresh.keys() =~= keys);
            assert forall|k: Seq<char>| fresh@.contains_key(k) <==> old_map.insert(
                key@,
                value.deep_view(),
            ).contains_key(k) by {
                if old_keys.contains(k) {
                    let j = choose|j: int| 0 <= j < old_keys.len() && old_keys[j] == k;
                    if j < i {
                        assert(keys[j] == k);
                    } else if found {
                        if j > i {
                            assert(keys[j] == k);
                        }
                    } else {
                        assert(keys[j + 1] == k);
                    }
                }
                assert(keys[i as int] == key@);
                if keys.contains(k) && k != key@ {
                    let j = choose|j: int| 0 <= j < keys.len() && keys[j] == k;
                    if j < i {
                        assert(old_keys[j] == k);
                    } else if found {
                        assert(old_keys[j] == k);
                    } else {
                        assert(old_keys[j - 1] == k);
                    }
                }
            }
            assert forall|k: Seq<char>| #[trigger] fresh@.contains_key(k) implies fresh@[k]
                == old_map.insert(key@, value.deep_view())[k] by {
                let j = choose|j: int| 0 <= j < keys.len() && keys[j] == k;
                assert(fresh.keys()[j] == k);
                if k != key@ {
                    if j < i {
                        assert(old_keys[j] == k);
                    } else if found {
                        assert(old_keys[j] == k);
                    } else {
                        assert(old_keys[j - 1] == k);
                    }
                } else {
                    assert(keys[i as int] == k);
                    lemma_position(keys, i as int);
                    lemma_position(keys, j);
                }
            }
            assert(fresh@ =~= old_map.insert(key@, value.deep_view()));
        }
        *self = fresh;
    }

    /// Sets the value of a key that has none.
    pub fn or_insert(&mut self, key: String, value: V)
        ensures
            final(self)@ == (if old(self)@.contains_key(key@) {
                old(self)@
            } else {
                old(self)@.insert(key@, value.deep_view())
            }),
    {
        if !self.contains_key(key.as_str()) {
            self.insert(key, value);
        }
    }

    /// Removes a key.
    pub fn remove(&mut self, key: &str)
        ensures
            final(self)@ == old(self)@.remove(key@),
    {
        let ghost old_keys = self.keys();
        let ghost old_map = self@;
        let (found, i) = self.search(key);
        proof {
            use_type_invariant(&*self);
            self.keys_index_the_view();
            if !found {
                assert(old_map.remove(key@) =~= old_map);
            }
        }
        if found {
            let mut entries: Vec<(String, V)> = Vec::new();
            std::mem::swap(&mut entries, &mut self.entries);
            entries.remove(i);
            let ghost keys = Seq::new(entries@.len(), |k: int| entries@[k].0@);
            assert(forall|k: int| 0 <= k < i ==> keys[k] == old_keys[k]);
            assert(forall|k: int| i <= k < keys.len() ==> keys[k] == old_keys[k + 1]);
            assert(in_order(keys));
            let fresh = Table { entries };
            proof {
                fresh.keys_index_the_view();
                assert(fresh.keys() =~= keys);
                before_is_strict_and_total(key@, key@);
                assert forall|k: Seq<char>| fresh@.contains_key(k) <==> old_map.remove(
                    key@,
                ).contains_key(k) by {
                    if old_keys.contains(k) && k != key@ {
                        let j = choose|j: int| 0 <= j < old_keys.len() && old_keys[j] == k;
                        if j < i {
                            assert(keys[j] == k);
                        } else {
                            assert(keys[j - 1] == k);
                        }
                    }
                    if keys.contains(k) {
                        let j = choose|j: int| 0 <= j < keys.len() && keys[j] == k;
                        if j < i {
                            assert(old_keys[j] == k);
                            assert(before(old_keys[j], old_keys[i as int]));
                        } else {
                            assert(old_keys[j + 1] == k);
                            assert(before(old_keys[i as int], old_keys[j + 1]));
                        }
                    }
                }
                assert forall|k: Seq<char>| #[trigger] fresh@.contains_key(k) implies fresh@[k]
                    == old_map.remove(key@)[k] by {
                    let j = choose|j: int| 0 <= j < keys.len() && keys[j] == k;
                    assert(fresh.keys()[j] == k);
                    if j < i {
                        assert(old_keys[j] == k);
                    } else {
                        assert(old_keys[j + 1] == k);
                    }
                }
                assert(fresh@ =~= old_map.remove(key@));
            }
            *self = fresh;
        }
    }
}

/// Texts are ordered as in a dictionary: where they first differ the smaller character
/// comes first, and a text comes before any that goes on from it.
pub proof fn texts_are_ordered_as_in_a_dictionary(
    common: Seq<char>,
    a: char,
    b: char,
    x: Seq<char>,
    y: Seq<char>,
)
    ensures
        a < b ==> before(common + seq![a] + x, common + seq![b] + y),
        a < b ==> !before(common + seq![b] + y, common + seq![a] + x),
        before(common, common + seq![a] + x),
        !before(common + seq![a] + x, common),
    decreases common.len(),
{
    let s = common + seq![a] + x;
    let t = common + seq![b] + y;
    if common.len() > 0 {
        let rest = common.skip(1);
        texts_are_ordered_as_in_a_dictionary(rest, a, b, x, y);
        assert(s.skip(1) =~= rest + seq![a] + x);
        assert(t.skip(1) =~= rest + seq![b] + y);
        assert(s[0] == common[0] && t[0] == common[0]);
    } else {
        assert(s[0] == a && t[0] == b);
    }
}

} // verus!
