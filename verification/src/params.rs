//! Attribute storage: an append-only log of `key = value` entries, viewed
//! as a map in which the latest entry for a key wins.

use vstd::prelude::*;
use crate::strutil::str_eq;

verus! {

/// The view of an attribute bucket: key to optional value.
pub type Attrs = Map<Seq<char>, Option<Seq<char>>>;

/// The empty attribute bucket.
pub open spec fn empty_attrs() -> Attrs {
    Map::empty()
}

/// View of one stored entry.
pub open spec fn entry_view(e: (String, Option<String>)) -> (Seq<char>, Option<Seq<char>>) {
    (e.0@, e.1.deep_view())
}

/// The map described by a log of entries: each entry overwrites the key it
/// names, so the latest entry for a key wins.
pub open spec fn map_of(s: Seq<(Seq<char>, Option<Seq<char>>)>) -> Attrs
    decreases s.len(),
{
    if s.len() == 0 {
        Map::empty()
    } else {
        map_of(s.drop_last()).insert(s.last().0, s.last().1)
    }
}

/// Entries at or after position `i` that never mention `k` leave the map
/// unchanged at `k`.
pub proof fn lemma_map_of_untouched(s: Seq<(Seq<char>, Option<Seq<char>>)>, i: int, k: Seq<char>)
    requires
        0 <= i <= s.len(),
        forall|j: int| i <= j < s.len() ==> s[j].0 != k,
    ensures
        map_of(s).dom().contains(k) == map_of(s.take(i)).dom().contains(k),
        map_of(s).dom().contains(k) ==> map_of(s)[k] == map_of(s.take(i))[k],
    decreases s.len() - i,
{
    if i == s.len() {
        assert(s.take(i) =~= s);
    } else {
        assert(s.last().0 != k);
        assert(forall|j: int| 0 <= j < s.drop_last().len() ==> s.drop_last()[j] == s[j]);
        assert(s.drop_last().take(i) =~= s.take(i));
        lemma_map_of_untouched(s.drop_last(), i, k);
    }
}

/// If position `j` holds the last entry for key `k`, the map holds its value.
pub proof fn lemma_map_of_found(s: Seq<(Seq<char>, Option<Seq<char>>)>, j: int, k: Seq<char>)
    requires
        0 <= j < s.len(),
        s[j].0 == k,
        forall|t: int| j < t < s.len() ==> s[t].0 != k,
    ensures
        map_of(s).dom().contains(k),
        map_of(s)[k] == s[j].1,
    decreases s.len(),
{
    if j == s.len() - 1 {
    } else {
        assert(s.last().0 != k);
        assert(forall|t: int| 0 <= t < s.drop_last().len() ==> s.drop_last()[t] == s[t]);
        lemma_map_of_found(s.drop_last(), j, k);
    }
}

/// A key no entry mentions is absent from the map.
pub proof fn lemma_map_of_absent(s: Seq<(Seq<char>, Option<Seq<char>>)>, k: Seq<char>)
    requires
        forall|j: int| 0 <= j < s.len() ==> s[j].0 != k,
    ensures
        !map_of(s).dom().contains(k),
    decreases s.len(),
{
    if s.len() == 0 {
    } else {
        assert(s.last().0 != k);
        assert(forall|t: int| 0 <= t < s.drop_last().len() ==> s.drop_last()[t] == s[t]);
        lemma_map_of_absent(s.drop_last(), k);
    }
}

/// One attribute bucket: `key = value` entries in the order they were
/// written, read as a last-write-wins map.
#[derive(Debug)]
pub struct Params {
    pub entries: Vec<(String, Option<String>)>,
}

impl View for Params {
    type V = Attrs;

    open spec fn view(&self) -> Attrs {
        map_of(self.entries_view())
    }
}

impl Params {
    /// The entries as view pairs, in write order.
    pub open spec fn entries_view(&self) -> Seq<(Seq<char>, Option<Seq<char>>)> {
        Seq::new(self.entries@.len(), |i: int| entry_view(self.entries@[i]))
    }

    /// A bucket with no entries.
    pub fn new() -> (r: Self)
        ensures
            r@ == empty_attrs(),
            r.entries_view() == Seq::<(Seq<char>, Option<Seq<char>>)>::empty(),
    {
        let r = Params { entries: Vec::new() };
        proof {
            assert(r.entries_view() =~= Seq::<(Seq<char>, Option<Seq<char>>)>::empty());
        }
        r
    }

    /// Write `value` under `key`, overwriting any earlier value for `key`.
    pub fn insert(&mut self, key: String, value: Option<String>)
        ensures
            final(self)@ == old(self)@.insert(key@, value.deep_view()),
            final(self).entries_view() == old(self).entries_view().push(
                (key@, value.deep_view()),
            ),
    {
        let ghost kv = key@;
        let ghost vv = value.deep_view();
        self.entries.push((key, value));
        proof {
            let es = old(self).entries_view();
            assert(self.entries_view() =~= es.push((kv, vv)));
            assert(es.push((kv, vv)).drop_last() =~= es);
            assert(es.push((kv, vv)).last() == (kv, vv));
        }
    }

    /// The value last written under `key`, if any.
    pub fn get(&self, key: &str) -> (r: Option<Option<String>>)
        ensures
            match r {
                Some(v) => self@.dom().contains(key@) && v.deep_view() == self@[key@],
                None => !self@.dom().contains(key@),
            },
    {
        let n = self.entries.len();
        let mut i: usize = n;
        while i > 0
            invariant
                0 <= i <= n,
                n == self.entries@.len(),
                forall|j: int| i <= j < n ==> self.entries_view()[j].0 != key@,
            decreases i,
        {
            let e = &self.entries[i - 1];
            if str_eq(e.0.as_str(), key) {
                let v = match &e.1 {
                    Some(s) => Some(s.clone()),
                    None => None,
                };
                proof {
                    assert(self.entries_view()[i - 1].0 == key@);
                    lemma_map_of_found(self.entries_view(), i - 1, key@);
                    assert(v.deep_view() == self.entries_view()[i - 1].1);
                }
                return Some(v);
            }
            proof {
                assert(self.entries_view()[i - 1].0 != key@);
            }
            i = i - 1;
        }
        proof {
            lemma_map_of_absent(self.entries_view(), key@);
        }
        None
    }

    /// Has nothing been written yet?
    pub fn is_empty(&self) -> (r: bool)
        ensures
            r == (self@ == empty_attrs()),
    {
        let r = self.entries.len() == 0;
        proof {
            let ev = self.entries_view();
            if self.entries@.len() == 0 {
                assert(ev =~= Seq::<(Seq<char>, Option<Seq<char>>)>::empty());
                assert(self@ == empty_attrs());
            } else {
                assert(ev.len() > 0);
                assert(self@.dom().contains(ev.last().0));
                assert(!empty_attrs().dom().contains(ev.last().0));
            }
        }
        r
    }
}

impl Clone for Params {
    /// A clone holds the same entries, so it reads as the same map.
    fn clone(&self) -> (r: Self)
        ensures
            r@ == self@,
            r.entries_view() == self.entries_view(),
    {
        let mut entries: Vec<(String, Option<String>)> = Vec::new();
        let mut i: usize = 0;
        while i < self.entries.len()
            invariant
                0 <= i <= self.entries@.len(),
                entries@.len() == i,
                forall|j: int| 0 <= j < i ==> entry_view(entries@[j]) == entry_view(
                    self.entries@[j],
                ),
            decreases self.entries@.len() - i,
        {
            let e = &self.entries[i];
            let k = e.0.clone();
            let v = match &e.1 {
                Some(s) => Some(s.clone()),
                None => None,
            };
            entries.push((k, v));
            i = i + 1;
        }
        let r = Params { entries };
        proof {
            assert(r.entries_view() =~= self.entries_view());
        }
        r
    }
}

impl Default for Params {
    /// The default bucket is empty.
    fn default() -> (r: Self)
        ensures
            r@ == empty_attrs(),
            r.entries_view() == Seq::<(Seq<char>, Option<Seq<char>>)>::empty(),
    {
        Params::new()
    }
}

} // verus!
