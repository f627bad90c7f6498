//! A small map from strings to strings, kept as a list of pairs with at most
//! one pair per key. Used for voice assignments (per user, per role) and the
//! language-to-voice table.

use vstd::prelude::*;
use crate::text;

verus! {

/// Map built from a list of pairs, later pairs overriding earlier ones.
pub open spec fn map_of<V>(s: Seq<(Seq<char>, V)>) -> Map<Seq<char>, V>
    decreases s.len(),
{
    if s.len() == 0 {
        Map::empty()
    } else {
        map_of(s.drop_last()).insert(s.last().0, s.last().1)
    }
}

/// The pairs of `s` whose key is not `k`, in order.
pub open spec fn without_key<V>(s: Seq<(Seq<char>, V)>, k: Seq<char>) -> Seq<(Seq<char>, V)>
    decreases s.len(),
{
    if s.len() == 0 {
        seq![]
    } else if s.last().0 == k {
        without_key(s.drop_last(), k)
    } else {
        without_key(s.drop_last(), k).push(s.last())
    }
}

pub proof fn lemma_lookup_last_map_of(s: Seq<(Seq<char>, Seq<char>)>, k: Seq<char>)
    ensures
        text::lookup_last(s, k) == (if map_of(s).contains_key(k) {
            Some(map_of(s)[k])
        } else {
            None
        }),
    decreases s.len(),
{
    if s.len() > 0 {
        lemma_lookup_last_map_of(s.drop_last(), k);
    }
}

pub proof fn lemma_without_key<V>(s: Seq<(Seq<char>, V)>, k: Seq<char>)
    ensures
        map_of(without_key(s, k)) == map_of(s).remove(k),
        forall|i: int| 0 <= i < without_key(s, k).len() ==> (#[trigger] without_key(s, k)[i]).0 != k,
    decreases s.len(),
{
    if s.len() > 0 {
        lemma_without_key(s.drop_last(), k);
        let w = without_key(s.drop_last(), k);
        if s.last().0 == k {
            assert(map_of(s).remove(k) =~= map_of(s.drop_last()).remove(k));
        } else {
            assert(without_key(s, k).drop_last() =~= w);
            assert(map_of(s).remove(k) =~= map_of(s.drop_last()).remove(k).insert(
                s.last().0,
                s.last().1,
            ));
            assert forall|i: int| 0 <= i < without_key(s, k).len() implies (#[trigger] without_key(
                s,
                k,
            )[i]).0 != k by {
                if i < w.len() {
                    assert(without_key(s, k)[i] == w[i]);
                }
            }
        }
    }
}

/// No key occurs twice.
pub open spec fn unique_keys<V>(s: Seq<(Seq<char>, V)>) -> bool {
    forall|a: int, b: int| 0 <= a < b < s.len() ==> (#[trigger] s[a]).0 != (#[trigger] s[b]).0
}

/// Removing a key keeps the other pairs, each from the original list, and
/// keeps the keys distinct.
pub proof fn lemma_without_key_unique<V>(s: Seq<(Seq<char>, V)>, k: Seq<char>)
    requires
        unique_keys(s),
    ensures
        unique_keys(without_key(s, k)),
        forall|j: int| 0 <= j < without_key(s, k).len() ==> exists|i: int| 0 <= i < s.len() && s[i]
            == #[trigger] without_key(s, k)[j],
    decreases s.len(),
{
    if s.len() > 0 {
        let d = s.drop_last();
        assert(unique_keys(d)) by {
            assert forall|a: int, b: int| 0 <= a < b < d.len() implies (#[trigger] d[a]).0 != (
            #[trigger] d[b]).0 by {
                assert(d[a] == s[a] && d[b] == s[b]);
            }
        }
        lemma_without_key_unique(d, k);
        let w = without_key(d, k);
        if s.last().0 != k {
            let t = without_key(s, k);
            assert(t == w.push(s.last()));
            assert forall|j: int| 0 <= j < w.len() implies (#[trigger] w[j]).0 != s.last().0 by {
                let i = choose|i: int| 0 <= i < d.len() && d[i] == w[j];
                assert(s[i] == d[i]);
                assert(s[s.len() - 1] == s.last());
            }
            assert forall|a: int, b: int| 0 <= a < b < t.len() implies (#[trigger] t[a]).0 != (
            #[trigger] t[b]).0 by {
                if b < w.len() {
                    assert(t[a] == w[a] && t[b] == w[b]);
                } else {
                    assert(t[a] == w[a]);
                    assert(t[b] == s.last());
                }
            }
            assert forall|j: int| 0 <= j < t.len() implies exists|i: int| 0 <= i < s.len() && s[i]
                == #[trigger] t[j] by {
                if j < w.len() {
                    let i = choose|i: int| 0 <= i < d.len() && d[i] == w[j];
                    assert(s[i] == d[i] && t[j] == w[j]);
                } else {
                    assert(s[s.len() - 1] == t[j]);
                }
            }
        } else {
            assert forall|j: int| 0 <= j < w.len() implies exists|i: int| 0 <= i < s.len() && s[i]
                == #[trigger] w[j] by {
                let i = choose|i: int| 0 <= i < d.len() && d[i] == w[j];
                assert(s[i] == d[i]);
            }
        }
    }
}

/// String-to-string map with one entry per key.
#[derive(Debug, Clone)]
pub struct StringMap {
    entries: Vec<(String, String)>,
}

impl View for StringMap {
    type V = Map<Seq<char>, Seq<char>>;

    closed spec fn view(&self) -> Map<Seq<char>, Seq<char>> {
        map_of(text::pairs_view(self.entries@))
    }
}

impl StringMap {
    /// The empty map.
    pub fn new() -> (m: StringMap)
        ensures
            m@ == Map::<Seq<char>, Seq<char>>::empty(),
    {
        let m = StringMap { entries: Vec::new() };
        assert(text::pairs_view(m.entries@) =~= Seq::<(Seq<char>, Seq<char>)>::empty());
        m
    }

    /// Value for `key`, if any.
    pub fn get(&self, key: &str) -> (r: Option<&String>)
        ensures
            match r {
                Some(v) => self@.contains_key(key@) && self@[key@] == v@,
                None => !self@.contains_key(key@),
            },
    {
        proof {
            lemma_lookup_last_map_of(text::pairs_view(self.entries@), key@);
        }
        text::find_last_value(&self.entries, key)
    }

    /// Removes the entry for `key`, if any.
    pub fn remove(&mut self, key: &str)
        ensures
            final(self)@ == old(self)@.remove(key@),
    {
        let owned_key = key.to_owned();
        let ghost old_view = text::pairs_view(self.entries@);
        let mut kept: Vec<(String, String)> = Vec::new();
        let mut i: usize = 0;
        while i < self.entries.len()
            invariant
                i <= self.entries@.len(),
                old_view == text::pairs_view(self.entries@),
                owned_key@ == key@,
                text::pairs_view(kept@) == without_key(old_view.subrange(0, i as int), key@),
            decreases self.entries@.len() - i,
        {
            proof {
                assert(old_view.subrange(0, i + 1).drop_last() =~= old_view.subrange(0, i as int));
                assert(old_view.subrange(0, i + 1).last() == old_view[i as int]);
            }
            if self.entries[i].0 != owned_key {
                let ghost before = kept@;
                let pair = (self.entries[i].0.clone(), self.entries[i].1.clone());
                kept.push(pair);
                assert(text::pairs_view(kept@) =~= text::pairs_view(before).push(old_view[i as int]));
            }
            i = i + 1;
        }
        proof {
            assert(old_view.subrange(0, old_view.len() as int) =~= old_view);
            lemma_without_key(old_view, key@);
        }
        self.entries = kept;
    }

    /// Sets the value for `key`, replacing any previous one.
    pub fn insert(&mut self, key: String, value: String)
        ensures
            final(self)@ == old(self)@.insert(key@, value@),
    {
        let k = key.clone();
        self.remove(k.as_str());
        let ghost before = self.entries@;
        self.entries.push((key, value));
        proof {
            assert(text::pairs_view(self.entries@).drop_last() =~= text::pairs_view(before));
            assert(self@ =~= old(self)@.remove(key@).insert(key@, value@));
            assert(old(self)@.remove(key@).insert(key@, value@) =~= old(self)@.insert(key@, value@));
        }
    }

    /// Map holding the given pairs, a later pair for a key overriding an
    /// earlier one.
    pub fn from_pairs(pairs: Vec<(String, String)>) -> (m: StringMap)
        ensures
            m@ == map_of(text::pairs_view(pairs@)),
    {
        let mut m = StringMap::new();
        let ghost pv = text::pairs_view(pairs@);
        let mut i: usize = 0;
        while i < pairs.len()
            invariant
                i <= pairs@.len(),
                pv == text::pairs_view(pairs@),
                m@ == map_of(pv.subrange(0, i as int)),
            decreases pairs@.len() - i,
        {
            proof {
                assert(pv.subrange(0, i + 1).drop_last() =~= pv.subrange(0, i as int));
            }
            let k = pairs[i].0.clone();
            let v = pairs[i].1.clone();
            m.insert(k, v);
            i = i + 1;
        }
        assert(pv.subrange(0, pv.len() as int) =~= pv);
        m
    }

    /// The entries, one per key.
    pub fn to_pairs(&self) -> (r: Vec<(String, String)>)
        ensures
            map_of(text::pairs_view(r@)) == self@,
    {
        let mut r: Vec<(String, String)> = Vec::new();
        let mut i: usize = 0;
        while i < self.entries.len()
            invariant
                i <= self.entries@.len(),
                text::pairs_view(r@) == text::pairs_view(self.entries@).subrange(0, i as int),
            decreases self.entries@.len() - i,
        {
            let ghost before = r@;
            let a = self.entries[i].0.clone();
            let b = self.entries[i].1.clone();
            r.push((a, b));
            assert(text::pairs_view(r@) =~= text::pairs_view(before).push(
                text::pairs_view(self.entries@)[i as int],
            ));
            assert(text::pairs_view(r@) =~= text::pairs_view(self.entries@).subrange(0, i + 1));
            i = i + 1;
        }
        assert(text::pairs_view(r@) =~= text::pairs_view(self.entries@));
        r
    }
}

} // verus!
