//! A small keyed table: a sequence of `(key, value)` entries, read as a map
//! in which a later entry for a key overrides an earlier one.

use vstd::prelude::*;

verus! {

/// The map that a sequence of entries stands for: the entries are applied in
/// order, each one inserting (or overriding) its key.
pub open spec fn entries_map<V>(s: Seq<(String, V)>) -> Map<Seq<char>, V>
    decreases s.len(),
{
    if s.len() == 0 {
        Map::empty()
    } else {
        entries_map(s.drop_last()).insert(s.last().0@, s.last().1)
    }
}

/// Appending an entry inserts its key into the map.
pub proof fn lemma_entries_push<V>(s: Seq<(String, V)>, e: (String, V))
    ensures
        entries_map(s.push(e)) == entries_map(s).insert(e.0@, e.1),
{
    assert(s.push(e).drop_last() =~= s);
}

/// A key is in the map exactly when some entry carries it.
pub proof fn lemma_entries_dom<V>(s: Seq<(String, V)>, k: Seq<char>)
    ensures
        entries_map(s).contains_key(k) <==> exists|j: int| 0 <= j < s.len() && (#[trigger] s[j]).0@ == k,
    decreases s.len(),
{
    if s.len() > 0 {
        let dl = s.drop_last();
        lemma_entries_dom(dl, k);
        if entries_map(s).contains_key(k) {
            if s.last().0@ != k {
                let j = choose|j: int| 0 <= j < dl.len() && (#[trigger] dl[j]).0@ == k;
                assert(s[j] == dl[j]);
            } else {
                assert(s[s.len() - 1].0@ == k);
            }
        }
        if exists|j: int| 0 <= j < s.len() && (#[trigger] s[j]).0@ == k {
            let j = choose|j: int| 0 <= j < s.len() && (#[trigger] s[j]).0@ == k;
            if j < s.len() - 1 {
                assert(dl[j] == s[j]);
            }
        }
    }
}

/// The value of a key is that of its last entry.
pub proof fn lemma_entries_last_wins<V>(s: Seq<(String, V)>, k: Seq<char>, i: int)
    requires
        0 <= i < s.len(),
        s[i].0@ == k,
        forall|j: int| i < j < s.len() ==> (#[trigger] s[j]).0@ != k,
    ensures
        entries_map(s).contains_key(k),
        entries_map(s)[k] == s[i].1,
    decreases s.len(),
{
    if i < s.len() - 1 {
        let dl = s.drop_last();
        assert forall|j: int| i < j < dl.len() implies (#[trigger] dl[j]).0@ != k by {
            assert(dl[j] == s[j]);
        }
        lemma_entries_last_wins(dl, k, i);
        assert(s[s.len() - 1].0@ != k);
    }
}

/// Removing an entry that carries `k` does not change the map apart from `k`.
pub proof fn lemma_entries_remove_index<V>(s: Seq<(String, V)>, k: Seq<char>, i: int)
    requires
        0 <= i < s.len(),
        s[i].0@ == k,
    ensures
        entries_map(s.remove(i)).remove(k) == entries_map(s).remove(k),
    decreases s.len(),
{
    let dl = s.drop_last();
    if i == s.len() - 1 {
        assert(s.remove(i) =~= dl);
        assert(entries_map(s).remove(k) =~= entries_map(dl).remove(k));
    } else {
        let r = s.remove(i);
        assert(r.drop_last() =~= dl.remove(i));
        assert(r.last() == s.last());
        lemma_entries_remove_index(dl, k, i);
        let lk = s.last().0@;
        let lv = s.last().1;
        if lk == k {
            assert(entries_map(r).remove(k) =~= entries_map(dl.remove(i)).remove(k));
            assert(entries_map(s).remove(k) =~= entries_map(dl).remove(k));
        } else {
            assert(entries_map(r).remove(k) =~= entries_map(dl.remove(i)).remove(k).insert(lk, lv));
            assert(entries_map(s).remove(k) =~= entries_map(dl).remove(k).insert(lk, lv));
        }
    }
}

/// A table of values keyed by strings.
pub struct Table<V> {
    /// The entries, in the order they were written.
    entries: Vec<(String, V)>,
}

impl<V> View for Table<V> {
    type V = Map<Seq<char>, V>;

    closed spec fn view(&self) -> Map<Seq<char>, V> {
        entries_map(self.entries@)
    }
}

impl<V> Table<V> {
    /// An empty table.
    pub fn new() -> (t: Self)
        ensures
            t@ == Map::<Seq<char>, V>::empty(),
    {
        Table { entries: Vec::new() }
    }

    /// The table whose entries are `entries`, applied in order.
    pub fn from_entries(entries: Vec<(String, V)>) -> (t: Self)
        ensures
            t@ == entries_map(entries@),
    {
        Table { entries }
    }

    /// The entries, in the order they apply.
    pub fn entries(&self) -> (r: &Vec<(String, V)>)
        ensures
            entries_map(r@) == self@,
    {
        &self.entries
    }

    /// Looks a key up.
    pub fn get(&self, k: &String) -> (r: Option<&V>)
        ensures
            r == (if self@.contains_key(k@) {
                Some(&self@[k@])
            } else {
                None::<&V>
            }),
    {
        let mut i = self.entries.len();
        while i > 0
            invariant
                i <= self.entries@.len(),
                forall|j: int| i <= j < self.entries@.len() ==> (#[trigger] self.entries@[j]).0@ != k@,
            decreases i,
        {
            i = i - 1;
            if self.entries[i].0 == *k {
                proof {
                    lemma_entries_last_wins(self.entries@, k@, i as int);
                }
                return Some(&self.entries[i].1);
            }
        }
        proof {
            lemma_entries_dom(self.entries@, k@);
        }
        None
    }

    /// Whether a key is present.
    pub fn contains_key(&self, k: &String) -> (r: bool)
        ensures
            r == self@.contains_key(k@),
    {
        self.get(k).is_some()
    }

    /// Removes a key and its value.
    pub fn remove(&mut self, k: &String)
        ensures
            final(self)@ == old(self)@.remove(k@),
    {
        let ghost orig = self@;
        let mut i: usize = 0;
        while i < self.entries.len()
            invariant
                i <= self.entries@.len(),
                entries_map(self.entries@).remove(k@) == orig.remove(k@),
                forall|j: int| 0 <= j < i ==> (#[trigger] self.entries@[j]).0@ != k@,
            decreases self.entries@.len() - i,
        {
            if self.entries[i].0 == *k {
                proof {
                    lemma_entries_remove_index(self.entries@, k@, i as int);
                }
                let ghost before = self.entries@;
                let _removed = self.entries.remove(i);
                assert forall|j: int| 0 <= j < i implies (#[trigger] self.entries@[j]).0@ != k@ by {
                    assert(self.entries@[j] == before[j]);
                }
            } else {
                i = i + 1;
            }
        }
        proof {
            lemma_entries_dom(self.entries@, k@);
            assert(entries_map(self.entries@) =~= entries_map(self.entries@).remove(k@));
        }
    }

    /// Sets the value of a key, replacing any earlier value.
    pub fn insert(&mut self, k: String, v: V)
        ensures
            final(self)@ == old(self)@.insert(k@, v),
    {
        self.remove(&k);
        let ghost mid = self.entries@;
        let ghost kv = k@;
        self.entries.push((k, v));
        proof {
            lemma_entries_push(mid, (self.entries@.last().0, v));
            assert(self.entries@ =~= mid.push(self.entries@.last()));
            assert(self@ =~= old(self)@.insert(kv, v));
        }
    }
}

} // verus!
