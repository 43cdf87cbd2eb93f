//! A table keyed by filesystem paths.

use vstd::prelude::*;
use crate::text::str_eq;

verus! {

/// One association of a [`PathTable`].
pub struct PathEntry<V> {
    pub path: String,
    pub value: V,
}

/// The map that a sequence of entries stands for: a later entry overrides an
/// earlier one for the same path.
pub open spec fn entries_map<V>(entries: Seq<PathEntry<V>>) -> Map<Seq<char>, V>
    decreases entries.len(),
{
    if entries.len() == 0 {
        Map::empty()
    } else {
        entries_map(entries.drop_last()).insert(entries.last().path@, entries.last().value)
    }
}

/// Whether no path occurs twice among the entries.
pub open spec fn distinct_paths<V>(entries: Seq<PathEntry<V>>) -> bool {
    forall|i: int, j: int|
        0 <= i < j < entries.len() ==> (#[trigger] entries[i]).path@ != (#[trigger] entries[j]).path@
}

/// With distinct paths, the map holds exactly the paths of the entries, each
/// with the value of its entry.
pub proof fn lemma_entries_map<V>(entries: Seq<PathEntry<V>>)
    requires
        distinct_paths(entries),
    ensures
        forall|path: Seq<char>| #[trigger]
            entries_map(entries).contains_key(path) <==> exists|i: int|
                0 <= i < entries.len() && (#[trigger] entries[i]).path@ == path,
        forall|i: int|
            0 <= i < entries.len() ==> entries_map(entries).contains_key(
                (#[trigger] entries[i]).path@,
            ) && entries_map(entries)[entries[i].path@] == entries[i].value,
    decreases entries.len(),
{
    if entries.len() > 0 {
        let front = entries.drop_last();
        let last = entries.last();
        assert(distinct_paths(front)) by {
            assert forall|i: int, j: int| 0 <= i < j < front.len() implies (#[trigger] front[i]).path@
                != (#[trigger] front[j]).path@ by {
                assert(front[i] == entries[i]);
                assert(front[j] == entries[j]);
            }
        }
        lemma_entries_map(front);
        assert forall|path: Seq<char>| #[trigger]
            entries_map(entries).contains_key(path) <==> exists|i: int|
                0 <= i < entries.len() && (#[trigger] entries[i]).path@ == path by {
            if entries_map(entries).contains_key(path) {
                if path == last.path@ {
                    assert(entries[entries.len() - 1].path@ == path);
                } else {
                    assert(entries_map(front).contains_key(path));
                    let i = choose|i: int| 0 <= i < front.len() && (#[trigger] front[i]).path@ == path;
                    assert(front[i] == entries[i]);
                    assert(entries[i].path@ == path);
                }
            }
            if exists|i: int| 0 <= i < entries.len() && (#[trigger] entries[i]).path@ == path {
                let i = choose|i: int| 0 <= i < entries.len() && (#[trigger] entries[i]).path@ == path;
                if i < front.len() {
                    assert(front[i] == entries[i]);
                    assert(front[i].path@ == path);
                    assert(entries_map(front).contains_key(path));
                }
            }
        }
        assert forall|i: int| 0 <= i < entries.len() implies entries_map(entries).contains_key(
            (#[trigger] entries[i]).path@,
        ) && entries_map(entries)[entries[i].path@] == entries[i].value by {
            if i < front.len() {
                assert(front[i] == entries[i]);
                assert(entries[i].path@ != entries[entries.len() - 1].path@);
            }
        }
    }
}

/// A table from paths to values, with at most one value for a path.
pub struct PathTable<V> {
    entries: Vec<PathEntry<V>>,
}

impl<V: Copy> PathTable<V> {
    /// The map from paths to values that the table holds.
    pub closed spec fn view(&self) -> Map<Seq<char>, V> {
        entries_map(self.entries@)
    }

    /// Whether the table is well formed: no path is stored twice.
    pub closed spec fn wf(&self) -> bool {
        distinct_paths(self.entries@)
    }

    /// A table without entries.
    pub fn new() -> (res: Self)
        ensures
            res.wf(),
            res@ == Map::<Seq<char>, V>::empty(),
    {
        PathTable { entries: Vec::new() }
    }

    /// Number of paths in the table.
    pub fn len(&self) -> (res: usize)
        requires
            self.wf(),
        ensures
            res == self@.dom().len(),
            self@.dom().finite(),
    {
        proof {
            lemma_entries_domain(self.entries@);
        }
        self.entries.len()
    }

    fn position(&self, path: &str) -> (res: Option<usize>)
        requires
            self.wf(),
        ensures
            match res {
                Some(i) => i < self.entries.len() && self.entries[i as int].path@ == path@,
                None => forall|i: int|
                    0 <= i < self.entries.len() ==> (#[trigger] self.entries[i]).path@ != path@,
            },
    {
        let mut i: usize = 0;
        while i < self.entries.len()
            invariant
                i <= self.entries.len(),
                forall|j: int| 0 <= j < i ==> (#[trigger] self.entries[j]).path@ != path@,
            decreases self.entries.len() - i,
        {
            if str_eq(self.entries[i].path.as_str(), path) {
                return Some(i);
            }
            i += 1;
        }
        None
    }

    /// The value stored for `path`, if there is one.
    pub fn get(&self, path: &str) -> (res: Option<V>)
        requires
            self.wf(),
        ensures
            res == (if self@.contains_key(path@) {
                Some(self@[path@])
            } else {
                None
            }),
    {
        proof {
            lemma_entries_map(self.entries@);
        }
        match self.position(path) {
            Some(i) => Some(self.entries[i].value),
            None => None,
        }
    }

    /// Whether a value is stored for `path`.
    pub fn contains(&self, path: &str) -> (res: bool)
        requires
            self.wf(),
        ensures
            res == self@.contains_key(path@),
    {
        self.get(path).is_some()
    }

    /// Stores `value` for `path`, in place of what was stored for it before.
    pub fn insert(&mut self, path: String, value: V)
        requires
            old(self).wf(),
        ensures
            final(self).wf(),
            final(self)@ == old(self)@.insert(path@, value),
    {
        let ghost before = self.entries@;
        let ghost key = path@;
        proof {
            lemma_entries_map(before);
        }
        match self.position(path.as_str()) {
            Some(i) => {
                self.entries.set(i, PathEntry { path, value });
                proof {
                    let after = self.entries@;
                    assert(distinct_paths(after)) by {
                        assert forall|a: int, b: int| 0 <= a < b < after.len() implies (
                        #[trigger] after[a]).path@ != (#[trigger] after[b]).path@ by {
                            assert(after[a].path@ == before[a].path@);
                            assert(after[b].path@ == before[b].path@);
                        }
                    }
                    lemma_entries_map(after);
                    assert forall|p: Seq<char>|
                        entries_map(after).contains_key(p) <==> #[trigger] entries_map(before).insert(
                            key,
                            value,
                        ).contains_key(p) by {
                        if entries_map(after).contains_key(p) {
                            let a = choose|a: int|
                                0 <= a < after.len() && (#[trigger] after[a]).path@ == p;
                            assert(before[a].path@ == p);
                        }
                        if entries_map(before).contains_key(p) {
                            let a = choose|a: int|
                                0 <= a < before.len() && (#[trigger] before[a]).path@ == p;
                            assert(after[a].path@ == p);
                        }
                        if p == key {
                            assert(after[i as int].path@ == p);
                        }
                    }
                    assert forall|p: Seq<char>| entries_map(after).contains_key(p) implies #[trigger]
                        entries_map(after)[p] == entries_map(before).insert(key, value)[p] by {
                        let a = choose|a: int|
                            0 <= a < after.len() && (#[trigger] after[a]).path@ == p;
                        if a == i {
                        } else {
                            assert(before[a] == after[a]);
                            assert(before[a].path@ != before[i as int].path@);
                        }
                    }
                    assert(entries_map(after) =~= entries_map(before).insert(key, value));
                }
            },
            None => {
                self.entries.push(PathEntry { path, value });
                proof {
                    let after = self.entries@;
                    assert(after.drop_last() == before);
                    assert(distinct_paths(after)) by {
                        assert forall|a: int, b: int| 0 <= a < b < after.len() implies (
                        #[trigger] after[a]).path@ != (#[trigger] after[b]).path@ by {
                            assert(after[a] == before[a]);
                        }
                    }
                }
            },
        }
    }
}

/// With distinct paths, the map has as many paths as there are entries.
pub proof fn lemma_entries_domain<V>(entries: Seq<PathEntry<V>>)
    requires
        distinct_paths(entries),
    ensures
        entries_map(entries).dom().finite(),
        entries_map(entries).dom().len() == entries.len(),
    decreases entries.len(),
{
    if entries.len() > 0 {
        let front = entries.drop_last();
        assert(distinct_paths(front)) by {
            assert forall|i: int, j: int| 0 <= i < j < front.len() implies (#[trigger] front[i]).path@
                != (#[trigger] front[j]).path@ by {
                assert(front[i] == entries[i]);
                assert(front[j] == entries[j]);
            }
        }
        lemma_entries_domain(front);
        lemma_entries_map(front);
        assert(!entries_map(front).contains_key(entries.last().path@)) by {
            if entries_map(front).contains_key(entries.last().path@) {
                let i = choose|i: int|
                    0 <= i < front.len() && (#[trigger] front[i]).path@ == entries.last().path@;
                assert(front[i] == entries[i]);
                assert(entries[i].path@ != entries[entries.len() - 1].path@);
            }
        }
    }
}

} // verus!
