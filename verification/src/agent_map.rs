//! A small map with string keys, kept as a vector of entries with distinct keys; the abstract
//! view is a `Map` from the key's characters to the value. The cache streaks and the bridge
//! cache keep their entries in it, and the entry lists of the other stores are described by
//! its `map_of`.

use vstd::prelude::*;
use crate::text::owned;

verus! {

/// The map described by an entry list: later entries shadow earlier ones with the same key
/// (which never happens in a well-formed list).
pub open spec fn map_of<V>(s: Seq<(String, V)>) -> Map<Seq<char>, V>
    decreases s.len(),
{
    if s.len() == 0 {
        Map::empty()
    } else {
        map_of(s.drop_last()).insert(s.last().0@, s.last().1)
    }
}

/// No two entries share a key.
pub open spec fn keys_distinct<V>(s: Seq<(String, V)>) -> bool {
    forall|i: int, j: int| 0 <= i < j < s.len() ==> s[i].0@ != s[j].0@
}

/// A key is in the map exactly when some entry has it.
pub proof fn lemma_map_of_dom<V>(s: Seq<(String, V)>, k: Seq<char>)
    ensures
        map_of(s).dom().contains(k) <==> exists|i: int| 0 <= i < s.len() && #[trigger] s[i].0@ == k,
    decreases s.len(),
{
    if s.len() > 0 {
        lemma_map_of_dom(s.drop_last(), k);
        if map_of(s.drop_last()).dom().contains(k) {
            let i = choose|i: int| 0 <= i < s.drop_last().len() && #[trigger] s.drop_last()[i].0@ == k;
            assert(s[i].0@ == k);
        }
        if exists|i: int| 0 <= i < s.len() && #[trigger] s[i].0@ == k {
            let i = choose|i: int| 0 <= i < s.len() && #[trigger] s[i].0@ == k;
            if i < s.len() - 1 {
                assert(s.drop_last()[i].0@ == k);
            }
        }
    }
}

/// In a list with distinct keys, each entry's value is what the map holds for its key.
pub proof fn lemma_map_of_val<V>(s: Seq<(String, V)>, i: int)
    requires
        keys_distinct(s),
        0 <= i < s.len(),
    ensures
        map_of(s).dom().contains(s[i].0@),
        map_of(s)[s[i].0@] == s[i].1,
    decreases s.len(),
{
    if i < s.len() - 1 {
        let t = s.drop_last();
        assert(keys_distinct(t));
        assert(t[i] == s[i]);
        lemma_map_of_val(t, i);
        assert(s[i].0@ != s.last().0@);
    }
}

/// Two entry lists with the same keys and values, position by position, describe the same
/// map.
pub proof fn lemma_map_of_same_entries<V>(a: Seq<(String, V)>, b: Seq<(String, V)>)
    requires
        a.len() == b.len(),
        forall|i: int| 0 <= i < a.len() ==> #[trigger] a[i].0@ == b[i].0@ && a[i].1 == b[i].1,
    ensures
        map_of(a) == map_of(b),
        keys_distinct(a) == keys_distinct(b),
    decreases a.len(),
{
    if a.len() > 0 {
        assert forall|i: int| 0 <= i < a.drop_last().len() implies #[trigger] a.drop_last()[i].0@
            == b.drop_last()[i].0@ && a.drop_last()[i].1 == b.drop_last()[i].1 by {
            assert(a[i].0@ == b[i].0@);
        }
        lemma_map_of_same_entries(a.drop_last(), b.drop_last());
    }
    assert(keys_distinct(a) ==> keys_distinct(b)) by {
        if keys_distinct(a) {
            assert forall|i: int, j: int| 0 <= i < j < b.len() implies b[i].0@ != b[j].0@ by {
                assert(a[i].0@ == b[i].0@);
                assert(a[j].0@ == b[j].0@);
            }
        }
    }
    assert(keys_distinct(b) ==> keys_distinct(a)) by {
        if keys_distinct(b) {
            assert forall|i: int, j: int| 0 <= i < j < a.len() implies a[i].0@ != a[j].0@ by {
                assert(a[i].0@ == b[i].0@);
                assert(a[j].0@ == b[j].0@);
            }
        }
    }
}

/// Map keyed by agent id.
pub struct AgentMap<V> {
    entries: Vec<(String, V)>,
}

impl<V> AgentMap<V> {
    /// The abstract contents.
    pub closed spec fn view(&self) -> Map<Seq<char>, V> {
        map_of(self.entries@)
    }

    /// Internal consistency: keys are distinct.
    pub closed spec fn wf(&self) -> bool {
        keys_distinct(self.entries@)
    }

    /// An empty map.
    pub fn new() -> (r: Self)
        ensures
            r.wf(),
            r.view() == Map::<Seq<char>, V>::empty(),
    {
        AgentMap { entries: Vec::new() }
    }

    /// The entries, one per key.
    pub fn entries(&self) -> (r: &Vec<(String, V)>)
        requires
            self.wf(),
        ensures
            keys_distinct(r@),
            map_of(r@) == self.view(),
    {
        &self.entries
    }

    /// Number of keys.
    pub fn len(&self) -> (r: usize)
        requires
            self.wf(),
        ensures
            r == self.view().dom().len(),
    {
        proof {
            self.lemma_dom_len();
        }
        self.entries.len()
    }

    proof fn lemma_dom_len(&self)
        requires
            self.wf(),
        ensures
            self.view().dom().finite(),
            self.view().dom().len() == self.entries@.len(),
        decreases self.entries@.len(),
    {
        lemma_dom_len_of(self.entries@);
    }

    /// Position of `key`, if present.
    fn find(&self, key: &str) -> (r: Option<usize>)
        requires
            self.wf(),
        ensures
            match r {
                Some(j) => j < self.entries@.len() && self.entries@[j as int].0@ == key@,
                None => !self.view().dom().contains(key@),
            },
    {
        let k = owned(key);
        let mut i: usize = 0;
        while i < self.entries.len()
            invariant
                i <= self.entries@.len(),
                k@ == key@,
                forall|j: int| 0 <= j < i ==> self.entries@[j].0@ != key@,
            decreases self.entries.len() - i,
        {
            if self.entries[i].0 == k {
                return Some(i);
            }
            i = i + 1;
        }
        proof {
            lemma_map_of_dom(self.entries@, key@);
        }
        None
    }

    /// The value stored under `key`.
    pub fn get(&self, key: &str) -> (r: Option<&V>)
        requires
            self.wf(),
        ensures
            match r {
                Some(v) => self.view().dom().contains(key@) && self.view()[key@] == *v,
                None => !self.view().dom().contains(key@),
            },
    {
        match self.find(key) {
            Some(j) => {
                proof {
                    lemma_map_of_val(self.entries@, j as int);
                }
                Some(&self.entries[j].1)
            },
            None => None,
        }
    }

    /// Stores `v` under `key`, replacing any earlier value.
    pub fn insert(&mut self, key: &str, v: V)
        requires
            old(self).wf(),
        ensures
            final(self).wf(),
            final(self).view() == old(self).view().insert(key@, v),
    {
        let ghost s = self.entries@;
        match self.find(key) {
            Some(j) => {
                let k = owned(key);
                self.entries.set(j, (k, v));
                proof {
                    lemma_update_same_key(s, j as int, self.entries@[j as int]);
                }
            },
            None => {
                let k = owned(key);
                self.entries.push((k, v));
                proof {
                    assert(self.entries@.drop_last() =~= s);
                    assert forall|i: int, j: int| 0 <= i < j < self.entries@.len() implies self.entries@[i].0@
                        != self.entries@[j].0@ by {
                        if j == s.len() {
                            lemma_map_of_dom(s, key@);
                            assert(s[i].0@ == self.entries@[i].0@);
                        }
                    }
                }
            },
        }
    }

    /// Removes and returns the value stored under `key`.
    pub fn remove(&mut self, key: &str) -> (r: Option<V>)
        requires
            old(self).wf(),
        ensures
            final(self).wf(),
            final(self).view() == old(self).view().remove(key@),
            match r {
                Some(v) => old(self).view().dom().contains(key@) && old(self).view()[key@] == v,
                None => !old(self).view().dom().contains(key@),
            },
    {
        let ghost s = self.entries@;
        match self.find(key) {
            Some(j) => {
                proof {
                    lemma_map_of_val(s, j as int);
                    lemma_remove_key(s, j as int);
                }
                let (_k, v) = self.entries.remove(j);
                Some(v)
            },
            None => {
                proof {
                    assert(map_of(s).remove(key@) =~= map_of(s));
                }
                None
            },
        }
    }
}

/// The number of keys of a list with distinct keys is its length.
pub proof fn lemma_dom_len_of<V>(s: Seq<(String, V)>)
    requires
        keys_distinct(s),
    ensures
        map_of(s).dom().finite(),
        map_of(s).dom().len() == s.len(),
    decreases s.len(),
{
    if s.len() > 0 {
        let t = s.drop_last();
        assert(keys_distinct(t));
        lemma_dom_len_of(t);
        lemma_map_of_dom(t, s.last().0@);
        if map_of(t).dom().contains(s.last().0@) {
            let i = choose|i: int| 0 <= i < t.len() && #[trigger] t[i].0@ == s.last().0@;
            assert(s[i].0@ == s[s.len() - 1].0@);
        }
    }
}

/// Replacing an entry by one with the same key updates that key only.
proof fn lemma_update_same_key<V>(s: Seq<(String, V)>, j: int, e: (String, V))
    requires
        keys_distinct(s),
        0 <= j < s.len(),
        e.0@ == s[j].0@,
    ensures
        keys_distinct(s.update(j, e)),
        map_of(s.update(j, e)) == map_of(s).insert(e.0@, e.1),
{
    let t = s.update(j, e);
    assert forall|a: int, b: int| 0 <= a < b < t.len() implies t[a].0@ != t[b].0@ by {
        assert(t[a].0@ == s[a].0@);
        assert(t[b].0@ == s[b].0@);
    }
    assert forall|q: Seq<char>| #[trigger] map_of(t).dom().contains(q) <==> map_of(s).insert(e.0@, e.1).dom().contains(q) by {
        lemma_map_of_dom(t, q);
        lemma_map_of_dom(s, q);
        if exists|i: int| 0 <= i < t.len() && #[trigger] t[i].0@ == q {
            let i = choose|i: int| 0 <= i < t.len() && #[trigger] t[i].0@ == q;
            assert(s[i].0@ == q);
        }
        if exists|i: int| 0 <= i < s.len() && #[trigger] s[i].0@ == q {
            let i = choose|i: int| 0 <= i < s.len() && #[trigger] s[i].0@ == q;
            assert(t[i].0@ == q);
        }
    }
    assert forall|q: Seq<char>| #[trigger] map_of(t).dom().contains(q) implies map_of(t)[q] == map_of(s).insert(e.0@, e.1)[q] by {
        lemma_map_of_dom(t, q);
        let i = choose|i: int| 0 <= i < t.len() && #[trigger] t[i].0@ == q;
        lemma_map_of_val(t, i);
        if i != j {
            lemma_map_of_val(s, i);
        }
    }
    assert(map_of(t) =~= map_of(s).insert(e.0@, e.1));
}

/// Removing an entry removes its key only.
proof fn lemma_remove_key<V>(s: Seq<(String, V)>, j: int)
    requires
        keys_distinct(s),
        0 <= j < s.len(),
    ensures
        keys_distinct(s.remove(j)),
        map_of(s.remove(j)) == map_of(s).remove(s[j].0@),
{
    let t = s.remove(j);
    let k = s[j].0@;
    assert forall|a: int, b: int| 0 <= a < b < t.len() implies t[a].0@ != t[b].0@ by {
        let a2 = if a < j { a } else { a + 1 };
        let b2 = if b < j { b } else { b + 1 };
        assert(t[a] == s[a2]);
        assert(t[b] == s[b2]);
    }
    assert forall|q: Seq<char>| #[trigger] map_of(t).dom().contains(q) <==> map_of(s).remove(k).dom().contains(q) by {
        lemma_map_of_dom(t, q);
        lemma_map_of_dom(s, q);
        if exists|i: int| 0 <= i < t.len() && #[trigger] t[i].0@ == q {
            let i = choose|i: int| 0 <= i < t.len() && #[trigger] t[i].0@ == q;
            let i2 = if i < j { i } else { i + 1 };
            assert(s[i2].0@ == q);
            assert(i2 != j);
        }
        if exists|i: int| 0 <= i < s.len() && #[trigger] s[i].0@ == q && q != k {
            let i = choose|i: int| 0 <= i < s.len() && #[trigger] s[i].0@ == q && q != k;
            let i1 = if i < j { i } else { i - 1 };
            assert(i != j);
            assert(t[i1].0@ == q);
        }
    }
    assert forall|q: Seq<char>| #[trigger] map_of(t).dom().contains(q) implies map_of(t)[q] == map_of(s).remove(k)[q] by {
        lemma_map_of_dom(t, q);
        let i = choose|i: int| 0 <= i < t.len() && #[trigger] t[i].0@ == q;
        let i2 = if i < j { i } else { i + 1 };
        assert(t[i] == s[i2]);
        lemma_map_of_val(t, i);
        lemma_map_of_val(s, i2);
    }
    assert(map_of(t) =~= map_of(s).remove(k));
}

} // verus!
