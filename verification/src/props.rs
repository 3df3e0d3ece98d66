//! `StringMap`: a string-to-string map, the form in which Hadoop properties
//! and file metadata are held.
use vstd::prelude::*;
use crate::text::str_eq;

verus! {

/// A map from strings to strings. Later insertions of a key replace earlier ones.
#[derive(Debug)]
pub struct StringMap {
    entries: Vec<(String, String)>,
}

/// The map that a sequence of insertions produces.
pub open spec fn map_of(s: Seq<(String, String)>) -> Map<Seq<char>, Seq<char>>
    decreases s.len(),
{
    if s.len() == 0 {
        Map::empty()
    } else {
        map_of(s.drop_last()).insert(s.last().0@, s.last().1@)
    }
}

impl View for StringMap {
    type V = Map<Seq<char>, Seq<char>>;

    closed spec fn view(&self) -> Map<Seq<char>, Seq<char>> {
        map_of(self.entries@)
    }
}

/// Where the last entry for `k` stands in `s`, when there is one.
proof fn lemma_map_of_lookup(s: Seq<(String, String)>, k: Seq<char>, i: int)
    requires
        -1 <= i < s.len(),
        forall|j: int| i < j < s.len() ==> (#[trigger] s[j]).0@ != k,
        i >= 0 ==> s[i].0@ == k,
    ensures
        i >= 0 ==> map_of(s).contains_key(k) && map_of(s)[k] == s[i].1@,
        i < 0 ==> !map_of(s).contains_key(k),
    decreases s.len(),
{
    if s.len() > 0 && i < s.len() - 1 {
        lemma_map_of_lookup(s.drop_last(), k, i);
    }
}

/// Every key of the map is the key of some entry.
proof fn lemma_map_of_dom(s: Seq<(String, String)>, k: Seq<char>)
    requires
        map_of(s).contains_key(k),
    ensures
        exists|j: int| 0 <= j < s.len() && (#[trigger] s[j]).0@ == k,
    decreases s.len(),
{
    if s.last().0@ != k {
        lemma_map_of_dom(s.drop_last(), k);
        let j = choose|j: int| 0 <= j < s.drop_last().len() && (#[trigger] s.drop_last()[j]).0@ == k;
        assert(s[j].0@ == k);
    }
}

/// The key of every entry is a key of the map.
proof fn lemma_map_of_has(s: Seq<(String, String)>, j: int)
    requires
        0 <= j < s.len(),
    ensures
        map_of(s).contains_key(s[j].0@),
    decreases s.len(),
{
    if j < s.len() - 1 {
        lemma_map_of_has(s.drop_last(), j);
    }
}

impl Clone for StringMap {
    fn clone(&self) -> (r: Self)
        ensures
            r@ == self@,
    {
        let mut entries: Vec<(String, String)> = Vec::new();
        let n = self.entries.len();
        let mut i: usize = 0;
        while i < n
            invariant
                n == self.entries@.len(),
                i <= n,
                entries@.len() == i,
                forall|j: int|
                    0 <= j < i ==> (#[trigger] entries@[j]).0@ == self.entries@[j].0@ && entries@[j].1@
                        == self.entries@[j].1@,
            decreases n - i,
        {
            let k = self.entries[i].0.clone();
            let v = self.entries[i].1.clone();
            entries.push((k, v));
            i += 1;
        }
        proof {
            lemma_map_of_same(entries@, self.entries@);
        }
        StringMap { entries }
    }
}

/// Entry sequences with the same keys and values give the same map.
proof fn lemma_map_of_same(a: Seq<(String, String)>, b: Seq<(String, String)>)
    requires
        a.len() == b.len(),
        forall|j: int| 0 <= j < a.len() ==> (#[trigger] a[j]).0@ == b[j].0@ && a[j].1@ == b[j].1@,
    ensures
        map_of(a) == map_of(b),
    decreases a.len(),
{
    if a.len() > 0 {
        lemma_map_of_same(a.drop_last(), b.drop_last());
    }
}

impl StringMap {
    /// An empty map.
    pub fn new() -> (m: Self)
        ensures
            m@ == Map::<Seq<char>, Seq<char>>::empty(),
    {
        StringMap { entries: Vec::new() }
    }

    /// Index of the last entry whose key is `k`.
    fn find(&self, k: &str) -> (r: Option<usize>)
        ensures
            match r {
                Some(i) => i < self.entries@.len() && self.entries@[i as int].0@ == k@
                    && self@.contains_key(k@) && self@[k@] == self.entries@[i as int].1@,
                None => !self@.contains_key(k@),
            },
    {
        let mut i = self.entries.len();
        while i > 0
            invariant
                i <= self.entries@.len(),
                forall|j: int| i <= j < self.entries@.len() ==> (#[trigger] self.entries@[j]).0@ != k@,
            decreases i,
        {
            if str_eq(self.entries[i - 1].0.as_str(), k) {
                proof {
                    lemma_map_of_lookup(self.entries@, k@, i - 1);
                }
                return Some(i - 1);
            }
            i -= 1;
        }
        proof {
            lemma_map_of_lookup(self.entries@, k@, -1);
        }
        None
    }

    /// The value of `k`, if `k` is a key.
    pub fn get(&self, k: &str) -> (r: Option<&String>)
        ensures
            match r {
                Some(v) => self@.contains_key(k@) && self@[k@] == v@,
                None => !self@.contains_key(k@),
            },
    {
        match self.find(k) {
            Some(i) => Some(&self.entries[i].1),
            None => None,
        }
    }

    /// Whether `k` is a key.
    pub fn contains_key(&self, k: &str) -> (r: bool)
        ensures
            r == self@.contains_key(k@),
    {
        self.find(k).is_some()
    }

    /// Sets the value of `k` to `v`.
    pub fn insert(&mut self, k: String, v: String)
        ensures
            final(self)@ == old(self)@.insert(k@, v@),
    {
        let ghost e = self.entries@;
        self.entries.push((k, v));
        assert(self.entries@.drop_last() =~= e);
    }

    /// Whether the map has no key.
    pub fn is_empty(&self) -> (r: bool)
        ensures
            r == (self@ == Map::<Seq<char>, Seq<char>>::empty()),
    {
        if self.entries.len() == 0 {
            true
        } else {
            let ghost last = self.entries@.last();
            assert(self@.contains_key(last.0@));
            assert(!Map::<Seq<char>, Seq<char>>::empty().contains_key(last.0@));
            false
        }
    }

    /// Adds every entry of `other`, its values winning over those already present.
    pub fn extend(&mut self, other: StringMap)
        ensures
            final(self)@ == old(self)@.union_prefer_right(other@),
    {
        let ghost start = self@;
        let n = other.entries.len();
        let mut i: usize = 0;
        while i < n
            invariant
                n == other.entries@.len(),
                i <= n,
                self@ == start.union_prefer_right(map_of(other.entries@.take(i as int))),
            decreases n - i,
        {
            let k = other.entries[i].0.clone();
            let v = other.entries[i].1.clone();
            self.insert(k, v);
            assert(other.entries@.take(i + 1).drop_last() =~= other.entries@.take(i as int));
            assert(self@ =~= start.union_prefer_right(map_of(other.entries@.take(i + 1))));
            i += 1;
        }
        assert(other.entries@.take(n as int) =~= other.entries@);
    }

    /// Whether every key of `self` is a key of `other` with the same value.
    fn included_in(&self, other: &StringMap) -> (r: bool)
        ensures
            r == (forall|k: Seq<char>| #[trigger] self@.contains_key(k) ==> other@.contains_key(k)
                && other@[k] == self@[k]),
    {
        let n = self.entries.len();
        let mut i: usize = 0;
        while i < n
            invariant
                n == self.entries@.len(),
                i <= n,
                forall|j: int|
                    0 <= j < i ==> other@.contains_key((#[trigger] self.entries@[j]).0@) && other@[self.entries@[j].0@]
                        == self@[self.entries@[j].0@],
            decreases n - i,
        {
            let k = self.entries[i].0.as_str();
            let mine = self.get(k);
            let theirs = other.get(k);
            proof {
                lemma_map_of_has(self.entries@, i as int);
            }
            match (mine, theirs) {
                (Some(a), Some(b)) => {
                    if !str_eq(a.as_str(), b.as_str()) {
                        return false;
                    }
                },
                _ => {
                    return false;
                },
            }
            i += 1;
        }
        assert forall|k: Seq<char>| #[trigger] self@.contains_key(k) implies other@.contains_key(k)
            && other@[k] == self@[k] by {
            lemma_map_of_dom(self.entries@, k);
        }
        true
    }

    /// Whether the two maps have the same keys with the same values.
    pub fn same_as(&self, other: &StringMap) -> (r: bool)
        ensures
            r == (self@ == other@),
    {
        let a = self.included_in(other);
        let b = other.included_in(self);
        if a && b {
            assert(self@ =~= other@);
            true
        } else {
            proof {
                if self@ == other@ {
                    assert(a);
                    assert(b);
                }
            }
            false
        }
    }
}

} // verus!
