use vstd::prelude::*;
use crate::text::{chars_of, str_eq};

verus! {

/// Whether some entry has key `k`.
pub open spec fn has_key<V>(s: Seq<(String, V)>, k: Seq<char>) -> bool {
    exists|i: int| 0 <= i < s.len() && (#[trigger] s[i]).0@ == k
}

/// The value of the entry with key `k` (meaningful when there is one).
pub open spec fn value_for<V>(s: Seq<(String, V)>, k: Seq<char>) -> V {
    s[choose|i: int| 0 <= i < s.len() && (#[trigger] s[i]).0@ == k].1
}

/// Whether no two entries share a key.
pub open spec fn distinct_keys<V>(s: Seq<(String, V)>) -> bool {
    forall|i: int, j: int|
        0 <= i < s.len() && 0 <= j < s.len() && i != j ==> (#[trigger] s[i]).0@ != (#[trigger] s[j]).0@
}

/// The map that a list of entries with distinct keys stands for.
pub open spec fn keyed_map<V>(s: Seq<(String, V)>) -> Map<Seq<char>, V> {
    Map::new(|k: Seq<char>| has_key(s, k), |k: Seq<char>| value_for(s, k))
}

pub proof fn lemma_value_for<V>(s: Seq<(String, V)>, i: int)
    requires
        distinct_keys(s),
        0 <= i < s.len(),
    ensures
        has_key(s, s[i].0@),
        value_for(s, s[i].0@) == s[i].1,
{
    let k = s[i].0@;
    assert(has_key(s, k));
    let c = choose|c: int| 0 <= c < s.len() && (#[trigger] s[c]).0@ == k;
    assert(c == i);
}

/// Whether `a` comes before `b` in the order of `String`: character by
/// character, a proper prefix first.
pub open spec fn key_less(a: Seq<char>, b: Seq<char>) -> bool
    decreases a.len(),
{
    if a.len() == 0 {
        b.len() > 0
    } else if b.len() == 0 {
        false
    } else if a[0] != b[0] {
        a[0] < b[0]
    } else {
        key_less(a.drop_first(), b.drop_first())
    }
}

/// No key comes before itself.
pub proof fn lemma_key_less_irreflexive(a: Seq<char>)
    ensures
        !key_less(a, a),
    decreases a.len(),
{
    if a.len() > 0 {
        lemma_key_less_irreflexive(a.drop_first());
    }
}

/// Of two keys, at most one comes first.
pub proof fn lemma_key_less_asymmetric(a: Seq<char>, b: Seq<char>)
    ensures
        key_less(a, b) ==> !key_less(b, a),
    decreases a.len(),
{
    if a.len() > 0 && b.len() > 0 && a[0] == b[0] {
        lemma_key_less_asymmetric(a.drop_first(), b.drop_first());
    }
}

/// Of two different keys, one comes first.
pub proof fn lemma_key_less_total(a: Seq<char>, b: Seq<char>)
    ensures
        a != b ==> key_less(a, b) || key_less(b, a),
    decreases a.len(),
{
    if a.len() == 0 && b.len() == 0 {
        assert(a =~= b);
    } else if a.len() > 0 && b.len() > 0 && a[0] == b[0] {
        lemma_key_less_total(a.drop_first(), b.drop_first());
        if a.drop_first() == b.drop_first() {
            assert(a =~= seq![a[0]] + a.drop_first());
            assert(b =~= seq![b[0]] + b.drop_first());
        }
    }
}

/// The key order is transitive.
pub proof fn lemma_key_less_transitive(a: Seq<char>, b: Seq<char>, c: Seq<char>)
    requires
        key_less(a, b),
        key_less(b, c),
    ensures
        key_less(a, c),
    decreases a.len(),
{
    if a.len() > 0 && a[0] == b[0] && b[0] == c[0] {
        lemma_key_less_transitive(a.drop_first(), b.drop_first(), c.drop_first());
    }
}

/// Whether the entries' keys are in increasing order.
pub open spec fn sorted_keys<V>(s: Seq<(String, V)>) -> bool {
    forall|i: int, j: int| 0 <= i < j < s.len() ==> key_less((#[trigger] s[i]).0@, (#[trigger] s[j]).0@)
}

/// Whether `a` comes before `b` in the key order.
pub fn key_lt(a: &str, b: &str) -> (r: bool)
    ensures
        r == key_less(a@, b@),
{
    let ca = chars_of(a);
    let cb = chars_of(b);
    let mut i: usize = 0;
    proof {
        assert(a@.skip(0) =~= a@);
        assert(b@.skip(0) =~= b@);
    }
    while i < ca.len() && i < cb.len()
        invariant
            ca@ == a@,
            cb@ == b@,
            i <= ca@.len(),
            i <= cb@.len(),
            key_less(a@, b@) == key_less(a@.skip(i as int), b@.skip(i as int)),
        decreases ca@.len() - i,
    {
        assert(a@.skip(i as int).drop_first() =~= a@.skip(i + 1));
        assert(b@.skip(i as int).drop_first() =~= b@.skip(i + 1));
        if ca[i] != cb[i] {
            return ca[i] < cb[i];
        }
        i = i + 1;
    }
    proof {
        assert(a@.skip(i as int).len() == ca@.len() - i);
        assert(b@.skip(i as int).len() == cb@.len() - i);
    }
    i == ca.len() && i < cb.len()
}

/// A map from text keys, kept as a list of entries in increasing key order
/// (so no key occurs twice), as an ordered map of `String` keys is.
pub struct KeyedList<V> {
    entries: Vec<(String, V)>,
}

impl<V> View for KeyedList<V> {
    type V = Map<Seq<char>, V>;

    closed spec fn view(&self) -> Map<Seq<char>, V> {
        keyed_map(self.entries@)
    }
}

impl<V> KeyedList<V> {
    /// Whether the keys are in increasing order, hence distinct.
    pub closed spec fn wf(&self) -> bool {
        distinct_keys(self.entries@) && sorted_keys(self.entries@)
    }

    /// An empty map.
    pub fn new() -> (r: Self)
        ensures
            r.wf(),
            r@ == Map::<Seq<char>, V>::empty(),
    {
        let r = KeyedList { entries: Vec::new() };
        proof {
            assert(r@ =~= Map::<Seq<char>, V>::empty());
        }
        r
    }

    /// The entries, in increasing key order.
    pub fn entries(&self) -> (r: &Vec<(String, V)>)
        requires
            self.wf(),
        ensures
            distinct_keys(r@),
            sorted_keys(r@),
            keyed_map(r@) == self@,
    {
        &self.entries
    }

    fn position(&self, key: &str) -> (r: Option<usize>)
        ensures
            match r {
                Some(i) => i < self.entries@.len() && self.entries@[i as int].0@ == key@,
                None => !has_key(self.entries@, key@),
            },
    {
        let mut i: usize = 0;
        while i < self.entries.len()
            invariant
                i <= self.entries@.len(),
                forall|j: int| 0 <= j < i ==> (#[trigger] self.entries@[j]).0@ != key@,
            decreases self.entries@.len() - i,
        {
            if str_eq(self.entries[i].0.as_str(), key) {
                return Some(i);
            }
            i = i + 1;
        }
        None
    }

    /// Whether `key` has a value.
    pub fn contains_key(&self, key: &str) -> (r: bool)
        requires
            self.wf(),
        ensures
            r == self@.contains_key(key@),
    {
        self.position(key).is_some()
    }

    /// The value of `key`.
    pub fn get(&self, key: &str) -> (r: Option<&V>)
        requires
            self.wf(),
        ensures
            match r {
                Some(v) => self@.contains_key(key@) && self@[key@] == *v,
                None => !self@.contains_key(key@),
            },
    {
        match self.position(key) {
            Some(i) => {
                proof {
                    lemma_value_for(self.entries@, i as int);
                }
                Some(&self.entries[i].1)
            },
            None => None,
        }
    }

    /// Sets the value of `key`, in place of any earlier one.
    pub fn insert(&mut self, key: String, value: V)
        requires
            old(self).wf(),
        ensures
            final(self).wf(),
            final(self)@ == old(self)@.insert(key@, value),
    {
        let ghost before = self.entries@;
        let ghost k = key@;
        let ghost v = value;
        let mut p: usize = 0;
        while p < self.entries.len() && key_lt(self.entries[p].0.as_str(), key.as_str())
            invariant
                self.entries@ == before,
                k == key@,
                p <= before.len(),
                forall|j: int| 0 <= j < p ==> key_less((#[trigger] before[j]).0@, k),
            decreases before.len() - p,
        {
            p = p + 1;
        }
        if p < self.entries.len() && str_eq(self.entries[p].0.as_str(), key.as_str()) {
            let i = p;
            self.entries.set(i, (key, value));
            proof {
                let after = self.entries@;
                assert(after[i as int].0@ == k);
                assert forall|a: int, b: int| 0 <= a < b < after.len() implies key_less(
                    (#[trigger] after[a]).0@,
                    (#[trigger] after[b]).0@,
                ) by {
                    assert(key_less(before[a].0@, before[b].0@));
                }
                assert forall|a: int, b: int|
                    0 <= a < after.len() && 0 <= b < after.len() && a != b implies (
                #[trigger] after[a]).0@ != (#[trigger] after[b]).0@ by {
                    if a != i && b != i {
                        assert(before[a].0@ != before[b].0@);
                    } else if a == i {
                        assert(before[i as int].0@ != before[b].0@);
                    } else {
                        assert(before[a].0@ != before[i as int].0@);
                    }
                }
                assert forall|u: Seq<char>| #[trigger] has_key(after, u) == (has_key(before, u) || u
                    == k) by {
                    if has_key(before, u) && u != k {
                        let c = choose|c: int| 0 <= c < before.len() && (#[trigger] before[c]).0@ == u;
                        assert(c != i);
                        assert(after[c].0@ == u);
                    }
                    if u == k {
                        assert(after[i as int].0@ == u);
                    }
                    if has_key(after, u) && u != k {
                        let c = choose|c: int| 0 <= c < after.len() && (#[trigger] after[c]).0@ == u;
                        assert(c != i);
                        assert(before[c].0@ == u);
                    }
                }
                assert forall|u: Seq<char>| has_key(after, u) implies #[trigger] keyed_map(after)[u]
                    == keyed_map(before).insert(k, v)[u] by {
                    if u == k {
                        lemma_value_for(after, i as int);
                    } else {
                        let c = choose|c: int| 0 <= c < after.len() && (#[trigger] after[c]).0@ == u;
                        lemma_value_for(after, c);
                        lemma_value_for(before, c);
                    }
                }
                assert(keyed_map(after) =~= keyed_map(before).insert(k, v));
            }
        } else {
            proof {
                assert forall|j: int| p <= j < before.len() implies key_less(k, (#[trigger] before[j]).0@) by {
                    lemma_key_less_total(k, before[p as int].0@);
                    if j > p {
                        assert(key_less(before[p as int].0@, before[j].0@));
                        lemma_key_less_transitive(k, before[p as int].0@, before[j].0@);
                    }
                }
            }
            self.entries.insert(p, (key, value));
            proof {
                let after = self.entries@;
                assert(after == before.insert(p as int, (after[p as int].0, v)));
                assert(after[p as int].0@ == k);
                assert forall|a: int, b: int| 0 <= a < b < after.len() implies key_less(
                    (#[trigger] after[a]).0@,
                    (#[trigger] after[b]).0@,
                ) by {
                    if b < p {
                        assert(key_less(before[a].0@, before[b].0@));
                    } else if b == p {
                        assert(key_less(before[a].0@, k));
                    } else if a < p {
                        assert(key_less(before[a].0@, before[b - 1].0@));
                    } else if a == p {
                        assert(key_less(k, before[b - 1].0@));
                    } else {
                        assert(key_less(before[a - 1].0@, before[b - 1].0@));
                    }
                }
                assert forall|a: int, b: int|
                    0 <= a < after.len() && 0 <= b < after.len() && a != b implies (
                #[trigger] after[a]).0@ != (#[trigger] after[b]).0@ by {
                    if a < b {
                        assert(key_less(after[a].0@, after[b].0@));
                        lemma_key_less_irreflexive(after[a].0@);
                    } else {
                        assert(key_less(after[b].0@, after[a].0@));
                        lemma_key_less_irreflexive(after[b].0@);
                    }
                }
                assert forall|u: Seq<char>| #[trigger] has_key(after, u) == (has_key(before, u) || u
                    == k) by {
                    if has_key(before, u) {
                        let c = choose|c: int| 0 <= c < before.len() && (#[trigger] before[c]).0@ == u;
                        if c < p {
                            assert(after[c].0@ == u);
                        } else {
                            assert(after[c + 1].0@ == u);
                        }
                    }
                    if u == k {
                        assert(after[p as int].0@ == u);
                    }
                    if has_key(after, u) && u != k {
                        let c = choose|c: int| 0 <= c < after.len() && (#[trigger] after[c]).0@ == u;
                        assert(c != p);
                        if c < p {
                            assert(before[c].0@ == u);
                        } else {
                            assert(before[c - 1].0@ == u);
                        }
                    }
                }
                assert forall|u: Seq<char>| has_key(after, u) implies #[trigger] keyed_map(after)[u]
                    == keyed_map(before).insert(k, v)[u] by {
                    if u == k {
                        lemma_value_for(after, p as int);
                    } else {
                        let c = choose|c: int| 0 <= c < after.len() && (#[trigger] after[c]).0@ == u;
                        lemma_value_for(after, c);
                        if c < p {
                            lemma_value_for(before, c);
                        } else {
                            lemma_value_for(before, c - 1);
                        }
                    }
                }
                assert(keyed_map(after) =~= keyed_map(before).insert(k, v));
            }
        }
    }

    /// Drops `key` and its value.
    pub fn remove(&mut self, key: &str)
        requires
            old(self).wf(),
        ensures
            final(self).wf(),
            final(self)@ == old(self)@.remove(key@),
    {
        let ghost before = self.entries@;
        match self.position(key) {
            Some(i) => {
                self.entries.remove(i);
                proof {
                    let after = self.entries@;
                    assert(after == before.remove(i as int));
                    assert forall|a: int, b: int| 0 <= a < b < after.len() implies key_less(
                        (#[trigger] after[a]).0@,
                        (#[trigger] after[b]).0@,
                    ) by {
                        let a0 = if a < i { a } else { a + 1 };
                        let b0 = if b < i { b } else { b + 1 };
                        assert(after[a] == before[a0]);
                        assert(after[b] == before[b0]);
                        assert(key_less(before[a0].0@, before[b0].0@));
                    }
                    assert forall|a: int, b: int|
                        0 <= a < after.len() && 0 <= b < after.len() && a != b implies (
                    #[trigger] after[a]).0@ != (#[trigger] after[b]).0@ by {
                        let a0 = if a < i { a } else { a + 1 };
                        let b0 = if b < i { b } else { b + 1 };
                        assert(after[a] == before[a0]);
                        assert(after[b] == before[b0]);
                        assert(before[a0].0@ != before[b0].0@);
                    }
                    assert forall|u: Seq<char>| #[trigger] has_key(after, u) == (has_key(before, u) && u
                        != key@) by {
                        if has_key(before, u) && u != key@ {
                            let c = choose|c: int| 0 <= c < before.len() && (#[trigger] before[c]).0@ == u;
                            assert(c != i);
                            let c1 = if c < i { c } else { c - 1 };
                            assert(after[c1] == before[c]);
                        }
                        if has_key(after, u) {
                            let c = choose|c: int| 0 <= c < after.len() && (#[trigger] after[c]).0@ == u;
                            let c0 = if c < i { c } else { c + 1 };
                            assert(after[c] == before[c0]);
                            assert(c0 != i);
                            assert(before[c0].0@ != before[i as int].0@);
                        }
                    }
                    assert forall|u: Seq<char>| has_key(after, u) implies #[trigger] keyed_map(after)[u]
                        == keyed_map(before).remove(key@)[u] by {
                        let c = choose|c: int| 0 <= c < after.len() && (#[trigger] after[c]).0@ == u;
                        let c0 = if c < i { c } else { c + 1 };
                        assert(after[c] == before[c0]);
                        lemma_value_for(after, c);
                        lemma_value_for(before, c0);
                    }
                    assert(keyed_map(after) =~= keyed_map(before).remove(key@));
                }
            },
            None => {
                proof {
                    assert(keyed_map(before) =~= keyed_map(before).remove(key@));
                }
            },
        }
    }
}

} // verus!
