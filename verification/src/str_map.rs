//! A small map from strings to values, kept in a vector. Keys are compared
//! by their characters; the order in which entries were added is not part of
//! what the map means.

use crate::text::views;
use vstd::prelude::*;
use vstd::string::StringSliceAdditionalSpecFns;
use vstd::utf8::encode_utf8_decode_utf8;

verus! {

/// Whether two strings hold the same characters.
pub fn same_text(a: &str, b: &str) -> (r: bool)
    ensures
        r == (a@ == b@),
{
    let x = a.as_bytes();
    let y = b.as_bytes();
    proof {
        encode_utf8_decode_utf8(a@);
        encode_utf8_decode_utf8(b@);
    }
    if x.len() != y.len() {
        return false;
    }
    let mut i: usize = 0;
    while i < x.len()
        invariant
            x@ == a.spec_bytes(),
            y@ == b.spec_bytes(),
            x.len() == y.len(),
            i <= x.len(),
            forall|k: int| 0 <= k < i ==> x@[k] == y@[k],
        decreases x.len() - i,
    {
        if x[i] != y[i] {
            return false;
        }
        i += 1;
    }
    assert(x@ =~= y@);
    true
}

/// The elements of `v` in the opposite order.
pub(crate) fn reversed<T>(v: Vec<T>) -> (r: Vec<T>)
    ensures
        r@ == v@.reverse(),
{
    let ghost all = v@;
    let mut rest = v;
    let mut r: Vec<T> = Vec::new();
    while rest.len() > 0
        invariant
            rest.len() + r.len() == all.len(),
            rest@ == all.take(rest.len() as int),
            r@ == all.reverse().take(r.len() as int),
        decreases rest.len(),
    {
        let ghost before = rest@;
        let ghost had = r@;
        let e = rest.pop().unwrap();
        r.push(e);
        proof {
            assert(e == all[before.len() - 1]);
            assert(rest@ =~= all.take(rest.len() as int));
            assert(r@ =~= all.reverse().take(r.len() as int));
        }
    }
    assert(r@ =~= all.reverse());
    r
}

/// Values that can be copied without changing what they stand for.
pub trait Duplicate: View + Sized {
    fn duplicate(&self) -> (copy: Self)
        ensures
            copy@ == self@,
    ;
}

/// The key of the `i`-th entry.
pub open spec fn key_at<V>(es: Seq<(String, V)>, i: int) -> Seq<char> {
    es[i].0@
}

/// No two entries share a key.
pub open spec fn distinct_keys<V>(es: Seq<(String, V)>) -> bool {
    forall|i: int, j: int| 0 <= i < j < es.len() ==> key_at(es, i) != key_at(es, j)
}

/// Some entry has the key `k`.
pub open spec fn has_key<V>(es: Seq<(String, V)>, k: Seq<char>) -> bool {
    exists|i: int| 0 <= i < es.len() && #[trigger] key_at(es, i) == k
}

/// The position of an entry with the key `k`.
pub open spec fn position<V>(es: Seq<(String, V)>, k: Seq<char>) -> int {
    choose|i: int| 0 <= i < es.len() && #[trigger] key_at(es, i) == k
}

/// The map that a sequence of entries stands for: each key with the view of
/// the value stored under it.
pub open spec fn as_map<V: View>(es: Seq<(String, V)>) -> Map<Seq<char>, V::V> {
    Map::new(|k: Seq<char>| has_key(es, k), |k: Seq<char>| es[position(es, k)].1@)
}

/// With distinct keys, each entry is found under its own key.
pub proof fn lemma_entry<V: View>(es: Seq<(String, V)>, i: int)
    requires
        distinct_keys(es),
        0 <= i < es.len(),
    ensures
        as_map(es).contains_key(key_at(es, i)),
        as_map(es)[key_at(es, i)] == es[i].1@,
{
    let k = key_at(es, i);
    assert(has_key(es, k));
    let j = position(es, k);
    assert(0 <= j < es.len() && key_at(es, j) == k);
    if j < i {
        assert(key_at(es, j) != key_at(es, i));
    } else if i < j {
        assert(key_at(es, i) != key_at(es, j));
    }
}

/// Adding an entry under a new key adds that key to the map.
pub proof fn lemma_push<V: View>(es: Seq<(String, V)>, k: String, v: V)
    requires
        distinct_keys(es),
        !has_key(es, k@),
    ensures
        distinct_keys(es.push((k, v))),
        as_map(es.push((k, v))) == as_map(es).insert(k@, v@),
{
    let next = es.push((k, v));
    assert forall|i: int, j: int| 0 <= i < j < next.len() implies key_at(next, i) != key_at(
        next,
        j,
    ) by {
        if j == es.len() {
            assert(key_at(es, i) == key_at(next, i));
        } else {
            assert(key_at(es, i) == key_at(next, i));
            assert(key_at(es, j) == key_at(next, j));
        }
    }
    assert forall|q: Seq<char>| as_map(next).contains_key(q) <==> as_map(es).insert(
        k@,
        v@,
    ).contains_key(q) by {
        if has_key(next, q) {
            let i = position(next, q);
            if i < es.len() {
                assert(key_at(es, i) == q);
            }
        }
        if has_key(es, q) {
            let i = position(es, q);
            assert(key_at(next, i) == q);
        }
        if q == k@ {
            assert(key_at(next, es.len() as int) == q);
        }
    }
    assert forall|q: Seq<char>| as_map(next).contains_key(q) implies as_map(next)[q] == as_map(
        es,
    ).insert(k@, v@)[q] by {
        let i = position(next, q);
        lemma_entry(next, i);
        if i < es.len() {
            assert(key_at(es, i) == q);
            lemma_entry(es, i);
        }
    }
    assert(as_map(next) =~= as_map(es).insert(k@, v@));
}

/// Replacing the value of an entry replaces it in the map.
pub proof fn lemma_update<V: View>(es: Seq<(String, V)>, i: int, k: String, v: V)
    requires
        distinct_keys(es),
        0 <= i < es.len(),
        key_at(es, i) == k@,
    ensures
        distinct_keys(es.update(i, (k, v))),
        as_map(es.update(i, (k, v))) == as_map(es).insert(k@, v@),
{
    let next = es.update(i, (k, v));
    assert forall|a: int| 0 <= a < es.len() implies key_at(next, a) == key_at(es, a) by {}
    assert forall|a: int, b: int| 0 <= a < b < next.len() implies key_at(next, a) != key_at(
        next,
        b,
    ) by {
        assert(key_at(es, a) != key_at(es, b));
    }
    assert forall|q: Seq<char>| as_map(next).contains_key(q) <==> as_map(es).insert(
        k@,
        v@,
    ).contains_key(q) by {
        if has_key(next, q) {
            let a = position(next, q);
            assert(key_at(es, a) == q);
        }
        if has_key(es, q) {
            let a = position(es, q);
            assert(key_at(next, a) == q);
        }
        if q == k@ {
            assert(key_at(next, i) == q);
        }
    }
    assert forall|q: Seq<char>| as_map(next).contains_key(q) implies as_map(next)[q] == as_map(
        es,
    ).insert(k@, v@)[q] by {
        let a = position(next, q);
        lemma_entry(next, a);
        if a != i {
            assert(key_at(es, a) == q);
            lemma_entry(es, a);
        }
    }
    assert(as_map(next) =~= as_map(es).insert(k@, v@));
}

/// Taking an entry out takes its key out of the map.
pub proof fn lemma_remove<V: View>(es: Seq<(String, V)>, i: int)
    requires
        distinct_keys(es),
        0 <= i < es.len(),
    ensures
        distinct_keys(es.remove(i)),
        as_map(es.remove(i)) == as_map(es).remove(key_at(es, i)),
{
    let next = es.remove(i);
    let k = key_at(es, i);
    assert forall|a: int| 0 <= a < next.len() implies key_at(next, a) == key_at(
        es,
        if a < i {
            a
        } else {
            a + 1
        },
    ) by {}
    assert forall|a: int, b: int| 0 <= a < b < next.len() implies key_at(next, a) != key_at(
        next,
        b,
    ) by {
        let a0 = if a < i {
            a
        } else {
            a + 1
        };
        let b0 = if b < i {
            b
        } else {
            b + 1
        };
        assert(key_at(es, a0) != key_at(es, b0));
    }
    assert forall|q: Seq<char>| as_map(next).contains_key(q) <==> as_map(es).remove(
        k,
    ).contains_key(q) by {
        if has_key(next, q) {
            let a = position(next, q);
            let a0 = if a < i {
                a
            } else {
                a + 1
            };
            assert(key_at(es, a0) == q);
            if a0 < i {
                assert(key_at(es, a0) != key_at(es, i));
            } else {
                assert(key_at(es, i) != key_at(es, a0));
            }
        }
        if has_key(es, q) && q != k {
            let a = position(es, q);
            let a1 = if a < i {
                a
            } else {
                a - 1
            };
            assert(key_at(next, a1) == q);
        }
    }
    assert forall|q: Seq<char>| as_map(next).contains_key(q) implies as_map(next)[q] == as_map(
        es,
    ).remove(k)[q] by {
        let a = position(next, q);
        let a0 = if a < i {
            a
        } else {
            a + 1
        };
        lemma_entry(next, a);
        assert(key_at(es, a0) == q);
        lemma_entry(es, a0);
    }
    assert(as_map(next) =~= as_map(es).remove(k));
}

/// The keys of a sequence of entries, in order.
pub open spec fn keys_of<V>(es: Seq<(String, V)>) -> Seq<Seq<char>> {
    Seq::new(es.len(), |i: int| key_at(es, i))
}

/// The map of a sequence of entries has finitely many keys: those of its
/// entries.
pub proof fn lemma_domain<V: View>(es: Seq<(String, V)>)
    ensures
        as_map(es).dom() == keys_of(es).to_set(),
        as_map(es).dom().finite(),
{
    let ks = keys_of(es);
    assert forall|q: Seq<char>| as_map(es).dom().contains(q) <==> ks.to_set().contains(q) by {
        if has_key(es, q) {
            let i = position(es, q);
            assert(ks[i] == q);
            assert(ks.contains(q));
        }
        if ks.contains(q) {
            let i = choose|i: int| 0 <= i < ks.len() && ks[i] == q;
            assert(key_at(es, i) == q);
        }
    }
    assert(as_map(es).dom() =~= ks.to_set());
    vstd::seq_lib::seq_to_set_is_finite(ks);
}

/// The map that results from storing the entries one after another, so
/// that of two entries with one key the later stays.
pub open spec fn stored<V: View>(es: Seq<(String, V)>) -> Map<Seq<char>, V::V>
    decreases es.len(),
{
    if es.len() == 0 {
        Map::empty()
    } else {
        stored(es.drop_last()).insert(es.last().0@, es.last().1@)
    }
}

/// Entries with distinct keys are stored as they stand.
pub proof fn lemma_stored_distinct<V: View>(es: Seq<(String, V)>)
    requires
        distinct_keys(es),
    ensures
        stored(es) == as_map(es),
    decreases es.len(),
{
    if es.len() == 0 {
        assert(as_map(es) =~= Map::<Seq<char>, V::V>::empty());
    } else {
        let init = es.drop_last();
        let last = es.last();
        assert forall|i: int, j: int| 0 <= i < j < init.len() implies key_at(init, i) != key_at(
            init,
            j,
        ) by {
            assert(key_at(es, i) != key_at(es, j));
        }
        lemma_stored_distinct(init);
        if has_key(init, last.0@) {
            let i = position(init, last.0@);
            assert(key_at(es, i) != key_at(es, es.len() - 1));
        }
        lemma_push(init, last.0, last.1);
        assert(es =~= init.push(last));
    }
}

/// Whether two sequences of entries agree entry by entry: in the
/// characters of the keys and in what the values stand for.
pub open spec fn same_entries<V: View>(a: Seq<(String, V)>, b: Seq<(String, V)>) -> bool {
    &&& a.len() == b.len()
    &&& forall|i: int| 0 <= i < a.len() ==> key_at(a, i) == key_at(b, i) && (#[trigger] a[i]).1@
        == b[i].1@
}

/// Entries that are copied faithfully are stored as the same map: what a
/// map hands out by `entries` can be written down, read again, and given
/// to `from_entries`, and the map is back.
pub proof fn law_same_entries_same_map<V: View>(a: Seq<(String, V)>, b: Seq<(String, V)>)
    requires
        same_entries(a, b),
    ensures
        stored(a) == stored(b),
    decreases a.len(),
{
    if a.len() > 0 {
        assert(same_entries(a.drop_last(), b.drop_last())) by {
            assert forall|i: int| 0 <= i < a.len() - 1 implies key_at(a.drop_last(), i) == key_at(
                b.drop_last(),
                i,
            ) && (#[trigger] a.drop_last()[i]).1@ == b.drop_last()[i].1@ by {
                assert(key_at(a, i) == key_at(b, i) && a[i].1@ == b[i].1@);
            }
        }
        law_same_entries_same_map(a.drop_last(), b.drop_last());
        assert(key_at(a, a.len() - 1) == key_at(b, b.len() - 1) && a[a.len() - 1].1@ == b[b.len()
            - 1].1@);
    }
}

/// A map from strings to values.
pub struct StrMap<V> {
    entries: Vec<(String, V)>,
}

impl<V: View> View for StrMap<V> {
    type V = Map<Seq<char>, V::V>;

    closed spec fn view(&self) -> Map<Seq<char>, V::V> {
        as_map(self.entries@)
    }
}

fn find<V>(es: &Vec<(String, V)>, k: &str) -> (r: Option<usize>)
    ensures
        match r {
            Some(i) => i < es.len() && key_at(es@, i as int) == k@,
            None => !has_key(es@, k@),
        },
{
    let mut i: usize = 0;
    while i < es.len()
        invariant
            i <= es.len(),
            forall|j: int| 0 <= j < i ==> key_at(es@, j) != k@,
        decreases es.len() - i,
    {
        if same_text(es[i].0.as_str(), k) {
            return Some(i);
        }
        i += 1;
    }
    None
}

impl<V> StrMap<V> {
    #[verifier::type_invariant]
    spec fn well_formed(self) -> bool {
        distinct_keys(self.entries@)
    }
}

impl<V: View> StrMap<V> {
    /// A map without entries.
    pub fn new() -> (m: Self)
        ensures
            m@ == Map::<Seq<char>, V::V>::empty(),
    {
        let m = StrMap { entries: Vec::new() };
        assert(m@ =~= Map::<Seq<char>, V::V>::empty());
        m
    }

    /// Whether the map has no entry.
    pub fn is_empty(&self) -> (r: bool)
        ensures
            r == (self@ == Map::<Seq<char>, V::V>::empty()),
    {
        proof {
            if self.entries.len() > 0 {
                assert(has_key(self.entries@, key_at(self.entries@, 0)));
                assert(self@.contains_key(key_at(self.entries@, 0)));
            } else {
                assert(self@ =~= Map::<Seq<char>, V::V>::empty());
            }
        }
        self.entries.len() == 0
    }

    /// Whether `k` is a key of the map.
    pub fn contains_key(&self, k: &str) -> (r: bool)
        ensures
            r == self@.contains_key(k@),
    {
        find(&self.entries, k).is_some()
    }

    /// The value stored under `k`, if there is one.
    pub fn get(&self, k: &str) -> (r: Option<&V>)
        ensures
            match r {
                Some(v) => self@.contains_key(k@) && v@ == self@[k@],
                None => !self@.contains_key(k@),
            },
    {
        proof {
            use_type_invariant(self);
        }
        match find(&self.entries, k) {
            Some(i) => {
                proof {
                    lemma_entry(self.entries@, i as int);
                }
                Some(&self.entries[i].1)
            },
            None => None,
        }
    }

    /// Stores `v` under `k`, in place of what was stored there before.
    pub fn insert(&mut self, k: String, v: V)
        ensures
            final(self)@ == old(self)@.insert(k@, v@),
    {
        proof {
            use_type_invariant(&*self);
        }
        let mut entries: Vec<(String, V)> = Vec::new();
        std::mem::swap(&mut entries, &mut self.entries);
        match find(&entries, k.as_str()) {
            Some(i) => {
                proof {
                    lemma_update(entries@, i as int, k, v);
                }
                entries.set(i, (k, v));
            },
            None => {
                proof {
                    lemma_push(entries@, k, v);
                }
                entries.push((k, v));
            },
        }
        self.entries = entries;
    }

    /// Takes out what is stored under `k`, if anything, and returns it.
    pub fn remove(&mut self, k: &str) -> (r: Option<V>)
        ensures
            final(self)@ == old(self)@.remove(k@),
            match r {
                Some(v) => old(self)@.contains_key(k@) && v@ == old(self)@[k@],
                None => !old(self)@.contains_key(k@),
            },
    {
        proof {
            use_type_invariant(&*self);
        }
        let mut entries: Vec<(String, V)> = Vec::new();
        std::mem::swap(&mut entries, &mut self.entries);
        let r = match find(&entries, k) {
            Some(i) => {
                proof {
                    lemma_entry(entries@, i as int);
                    lemma_remove(entries@, i as int);
                }
                let entry = entries.remove(i);
                Some(entry.1)
            },
            None => {
                assert(as_map(entries@).remove(k@) =~= as_map(entries@));
                None
            },
        };
        self.entries = entries;
        r
    }

    /// The keys of the map, each once, in no particular order.
    pub fn keys(&self) -> (names: Vec<String>)
        ensures
            views(names@).no_duplicates(),
            views(names@).to_set() == self@.dom(),
    {
        proof {
            use_type_invariant(self);
        }
        let mut names: Vec<String> = Vec::new();
        let mut i: usize = 0;
        while i < self.entries.len()
            invariant
                i <= self.entries.len(),
                names.len() == i,
                views(names@) == keys_of(self.entries@.take(i as int)),
            decreases self.entries.len() - i,
        {
            let ghost before = names@;
            let name = self.entries[i].0.clone();
            names.push(name);
            proof {
                let next = keys_of(self.entries@.take(i + 1));
                assert forall|j: int| 0 <= j < next.len() implies views(names@)[j] == next[j] by {
                    if j < i {
                        assert(views(before)[j] == keys_of(self.entries@.take(i as int))[j]);
                    }
                }
                assert(views(names@) =~= next);
            }
            i += 1;
        }
        proof {
            assert(self.entries@.take(i as int) =~= self.entries@);
            lemma_domain(self.entries@);
            let ks = views(names@);
            assert forall|a: int, b: int| 0 <= a < ks.len() && 0 <= b < ks.len() && a
                != b implies ks[a] != ks[b] by {
                if a < b {
                    assert(key_at(self.entries@, a) != key_at(self.entries@, b));
                } else {
                    assert(key_at(self.entries@, b) != key_at(self.entries@, a));
                }
            }
        }
        names
    }

    /// The entries of the map, each key once, in no particular order.
    pub fn entries(&self) -> (es: &Vec<(String, V)>)
        ensures
            distinct_keys(es@),
            as_map(es@) == self@,
            stored(es@) == self@,
    {
        proof {
            use_type_invariant(self);
            lemma_stored_distinct(self.entries@);
        }
        &self.entries
    }

    /// The map that results from storing `entries` one after another.
    pub fn from_entries(entries: Vec<(String, V)>) -> (m: Self)
        ensures
            m@ == stored(entries@),
    {
        let ghost all = entries@;
        let mut m = StrMap::new();
        let mut rest = reversed(entries);
        while rest.len() > 0
            invariant
                rest.len() <= all.len(),
                rest@ == all.reverse().take(rest.len() as int),
                m@ == stored(all.take(all.len() - rest.len())),
            decreases rest.len(),
        {
            let ghost n = all.len() - rest.len();
            let ghost before = rest@;
            let e = rest.pop().unwrap();
            proof {
                let next = all.take(n + 1);
                assert(next.drop_last() =~= all.take(n));
                assert(next.last() == all[n]);
                assert(e == before[before.len() - 1]);
                assert(e == all[n]);
                assert(rest@ =~= all.reverse().take(rest.len() as int));
            }
            m.insert(e.0, e.1);
        }
        assert(all.take(all.len() as int) =~= all);
        m
    }

    /// Stores every entry of `other` in this map; where both have a key, the
    /// value of `other` stays.
    pub fn overlay(&mut self, other: Self)
        ensures
            final(self)@ == old(self)@.union_prefer_right(other@),
    {
        proof {
            use_type_invariant(&other);
        }
        let ghost target = self@.union_prefer_right(other@);
        let mut rest = other.entries;
        while rest.len() > 0
            invariant
                distinct_keys(rest@),
                self@.union_prefer_right(as_map(rest@)) == target,
            decreases rest.len(),
        {
            let ghost before = rest@;
            let ghost cur = self@;
            let ghost last = rest.len() - 1;
            proof {
                lemma_entry(before, last);
                lemma_remove(before, last);
                assert(before.remove(last) =~= before.drop_last());
            }
            let entry = rest.pop().unwrap();
            self.insert(entry.0, entry.1);
            proof {
                assert(self@.union_prefer_right(as_map(rest@)) =~= cur.union_prefer_right(
                    as_map(before),
                ));
            }
        }
        proof {
            assert(as_map(rest@) =~= Map::<Seq<char>, V::V>::empty());
            assert(self@.union_prefer_right(as_map(rest@)) =~= self@);
        }
    }
}

impl<V: Duplicate> Duplicate for StrMap<V> {
    fn duplicate(&self) -> (copy: Self) {
        proof {
            use_type_invariant(self);
        }
        let mut entries: Vec<(String, V)> = Vec::new();
        let mut i: usize = 0;
        while i < self.entries.len()
            invariant
                i <= self.entries.len(),
                entries.len() == i,
                forall|j: int| 0 <= j < i ==> key_at(entries@, j) == key_at(self.entries@, j),
                forall|j: int| 0 <= j < i ==> (#[trigger] entries@[j]).1@ == self.entries@[j].1@,
            decreases self.entries.len() - i,
        {
            let ghost before = entries@;
            let k = self.entries[i].0.clone();
            let v = self.entries[i].1.duplicate();
            entries.push((k, v));
            proof {
                assert forall|j: int| 0 <= j < i + 1 implies key_at(entries@, j) == key_at(
                    self.entries@,
                    j,
                ) && (#[trigger] entries@[j]).1@ == self.entries@[j].1@ by {
                    if j < i {
                        assert(entries@[j] == before[j]);
                        assert(key_at(before, j) == key_at(self.entries@, j));
                    }
                }
            }
            i += 1;
        }
        proof {
            let a = self.entries@;
            let b = entries@;
            assert forall|x: int, y: int| 0 <= x < y < b.len() implies key_at(b, x) != key_at(
                b,
                y,
            ) by {
                assert(key_at(a, x) != key_at(a, y));
            }
            assert forall|q: Seq<char>| as_map(b).contains_key(q) <==> as_map(a).contains_key(
                q,
            ) by {
                if has_key(b, q) {
                    let x = position(b, q);
                    assert(key_at(a, x) == q);
                }
                if has_key(a, q) {
                    let x = position(a, q);
                    assert(key_at(b, x) == q);
                }
            }
            assert forall|q: Seq<char>| as_map(b).contains_key(q) implies as_map(b)[q] == as_map(
                a,
            )[q] by {
                let x = position(b, q);
                lemma_entry(b, x);
                assert(key_at(a, x) == q);
                lemma_entry(a, x);
            }
            assert(as_map(b) =~= as_map(a));
        }
        StrMap { entries }
    }
}

} // verus!
