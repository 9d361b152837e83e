//! The head-pid registry: the record that maps a running pipeline's name
//! to the process identifier of its head stage.
//!
//! The registry's meaning is a finite map from names to identifiers: a
//! record exists exactly while its pipeline is running, and absence is
//! the documented way to learn "not running".  The embedding program
//! mirrors every change of this map to the per-name record files under
//! the metadata root; the map semantics proved here is what the stop
//! protocol relies on.

use vstd::prelude::*;

use crate::errors::PipelineError;

verus! {

/// A registry of named head-pid records.
pub struct Registry {
    entries: Vec<(String, u32)>,
}

impl Registry {
    /// The map a sequence of entries denotes; a later entry for the same
    /// name wins (the invariant keeps names unique, so this never plays
    /// a part).
    pub open spec fn entries_map(s: Seq<(String, u32)>) -> Map<Seq<char>, u32>
        decreases s.len(),
    {
        if s.len() == 0 {
            Map::empty()
        } else {
            Self::entries_map(s.drop_last()).insert(s.last().0@, s.last().1)
        }
    }

    pub closed spec fn view(self) -> Map<Seq<char>, u32> {
        Self::entries_map(self.entries@)
    }

    /// Each name occurs in at most one entry.
    pub closed spec fn wf(self) -> bool {
        forall|i: int, j: int|
            0 <= i < j < self.entries@.len() ==> self.entries@[i].0@ != self.entries@[j].0@
    }

    proof fn lemma_entries_map_keys(s: Seq<(String, u32)>)
        ensures
            forall|k: Seq<char>|
                #[trigger] Self::entries_map(s).contains_key(k) <==> exists|i: int|
                    0 <= i < s.len() && s[i].0@ == k,
        decreases s.len(),
    {
        if s.len() > 0 {
            let t = s.drop_last();
            Self::lemma_entries_map_keys(t);
            assert forall|k: Seq<char>| #[trigger]
                Self::entries_map(s).contains_key(k) implies exists|i: int|
                0 <= i < s.len() && s[i].0@ == k by {
                if k != s.last().0@ {
                    assert(Self::entries_map(t).contains_key(k));
                    let i = choose|i: int| 0 <= i < t.len() && t[i].0@ == k;
                    assert(s[i] == t[i]);
                    assert(s[i].0@ == k);
                } else {
                    assert(s[s.len() - 1].0@ == k);
                }
            }
            assert forall|k: Seq<char>|
                (exists|i: int| 0 <= i < s.len() && s[i].0@ == k) implies #[trigger]
                Self::entries_map(s).contains_key(k) by {
                let i = choose|i: int| 0 <= i < s.len() && s[i].0@ == k;
                if i < s.len() - 1 {
                    assert(t[i] == s[i]);
                    assert(t[i].0@ == k);
                    assert(Self::entries_map(t).contains_key(k));
                }
            }
        }
    }

    /// With unique names, the entry found by a scan gives the map's
    /// value.
    proof fn lemma_entries_map_at(s: Seq<(String, u32)>, i: int)
        requires
            0 <= i < s.len(),
            forall|a: int, b: int| 0 <= a < b < s.len() ==> s[a].0@ != s[b].0@,
        ensures
            Self::entries_map(s).contains_key(s[i].0@),
            Self::entries_map(s)[s[i].0@] == s[i].1,
        decreases s.len(),
    {
        if i == s.len() - 1 {
        } else {
            assert(s.drop_last()[i] == s[i]);
            Self::lemma_entries_map_at(s.drop_last(), i);
            assert(s[i].0@ != s[s.len() - 1].0@);
        }
    }

    /// An empty registry: no pipeline is recorded as running.
    pub fn new() -> (r: Registry)
        ensures
            r.wf(),
            r@ == Map::<Seq<char>, u32>::empty(),
    {
        Registry { entries: Vec::new() }
    }

    /// Scans for a name; the heart of read, write and remove.
    fn find(&self, name: &str) -> (r: Option<usize>)
        requires
            self.wf(),
        ensures
            r matches Some(i) ==> i < self.entries@.len() && self.entries@[i as int].0@ == name@,
            r is None ==> forall|i: int| 0 <= i < self.entries@.len() ==> self.entries@[i].0@ != name@,
            r is Some <==> self@.contains_key(name@),
            r matches Some(i) ==> self@[name@] == self.entries@[i as int].1,
    {
        let sought: String = name.to_owned();
        let n = self.entries.len();
        let mut i: usize = 0;
        while i < n
            invariant
                0 <= i <= n,
                n == self.entries@.len(),
                self.wf(),
                sought@ == name@,
                forall|k: int| 0 <= k < i ==> self.entries@[k].0@ != name@,
            decreases n - i,
        {
            if self.entries[i].0.eq(&sought) {
                proof {
                    Self::lemma_entries_map_at(self.entries@, i as int);
                }
                return Some(i);
            }
            i = i + 1;
        }
        proof {
            Self::lemma_entries_map_keys(self.entries@);
        }
        None
    }

    /// Records the head pid of the pipeline called `name`, overwriting
    /// any stale record of the same name.
    pub fn write(&mut self, name: &str, pid: u32)
        requires
            old(self).wf(),
        ensures
            final(self).wf(),
            final(self)@ == old(self)@.insert(name@, pid),
    {
        self.remove(name);
        let ghost pruned = self.entries@;
        self.entries.push((name.to_owned(), pid));
        proof {
            assert(self.entries@.drop_last() =~= pruned);
            assert(self.entries@.last().0@ == name@);
            assert forall|a: int, b: int|
                0 <= a < b < self.entries@.len() implies self.entries@[a].0@
                != self.entries@[b].0@ by {
                if b == self.entries@.len() - 1 {
                    Self::lemma_entries_map_keys(pruned);
                    assert(!Self::entries_map(pruned).contains_key(name@));
                    assert(self.entries@[a] == pruned[a]);
                    assert(pruned[a].0@ != name@);
                } else {
                    assert(self.entries@[a] == pruned[a]);
                    assert(self.entries@[b] == pruned[b]);
                }
            }
            assert(old(self)@.remove(name@).insert(name@, pid) =~= old(self)@.insert(name@, pid));
        }
    }

    /// Looks the pipeline called `name` up; failing with `NotFound` is
    /// the documented way to learn it is not running.
    pub fn read(&self, name: &str) -> (r: Result<u32, PipelineError>)
        requires
            self.wf(),
        ensures
            r is Ok <==> self@.contains_key(name@),
            r matches Ok(pid) ==> pid == self@[name@],
            r matches Err(e) ==> e is NotFound,
    {
        match self.find(name) {
            Some(i) => Ok(self.entries[i].1),
            None => Err(PipelineError::NotFound),
        }
    }

    /// Drops the record of the pipeline called `name`; idempotent when
    /// the record is already absent.
    pub fn remove(&mut self, name: &str)
        requires
            old(self).wf(),
        ensures
            final(self).wf(),
            final(self)@ == old(self)@.remove(name@),
    {
        let ghost orig = self.entries@;
        match self.find(name) {
            Some(i) => {
                self.entries.remove(i);
                proof {
                    assert forall|a: int, b: int|
                        0 <= a < b < self.entries@.len() implies self.entries@[a].0@
                        != self.entries@[b].0@ by {
                        let a0: int = if a < i { a } else { a + 1 };
                        let b0: int = if b < i { b } else { b + 1 };
                        assert(self.entries@[a] == orig[a0]);
                        assert(self.entries@[b] == orig[b0]);
                    }
                    Self::lemma_remove_at(orig, i as int, name@);
                    assert(self.entries@ =~= orig.remove(i as int));
                }
            },
            None => {
                proof {
                    Self::lemma_entries_map_keys(orig);
                    assert(self@ =~= self@.remove(name@));
                }
            },
        }
    }

    /// Removing the one entry of a name removes the name from the map
    /// and nothing else.
    proof fn lemma_remove_at(s: Seq<(String, u32)>, i: int, name: Seq<char>)
        requires
            0 <= i < s.len(),
            s[i].0@ == name,
            forall|a: int, b: int| 0 <= a < b < s.len() ==> s[a].0@ != s[b].0@,
        ensures
            Self::entries_map(s.remove(i)) == Self::entries_map(s).remove(name),
        decreases s.len(),
    {
        Self::lemma_entries_map_keys(s);
        Self::lemma_entries_map_keys(s.remove(i));
        assert forall|k: Seq<char>|
            Self::entries_map(s.remove(i)).contains_key(k) == Self::entries_map(
                s,
            ).remove(name).contains_key(k) by {
            if Self::entries_map(s.remove(i)).contains_key(k) {
                let a = choose|a: int| 0 <= a < s.remove(i).len() && s.remove(i)[a].0@ == k;
                let a0: int = if a < i { a } else { a + 1 };
                assert(s[a0].0@ == k);
                assert(k != name);
            } else if Self::entries_map(s).remove(name).contains_key(k) {
                let a = choose|a: int| 0 <= a < s.len() && s[a].0@ == k;
                assert(a != i);
                let a1: int = if a < i { a } else { a - 1 };
                assert(s.remove(i)[a1] == s[a]);
            }
        }
        assert forall|k: Seq<char>|
            #[trigger] Self::entries_map(s.remove(i)).contains_key(k) implies Self::entries_map(
            s.remove(i),
        )[k] == Self::entries_map(s).remove(name)[k] by {
            let a = choose|a: int| 0 <= a < s.remove(i).len() && s.remove(i)[a].0@ == k;
            let a0: int = if a < i { a } else { a + 1 };
            assert(s.remove(i)[a] == s[a0]);
            Self::lemma_entries_map_at(s.remove(i), a);
            Self::lemma_entries_map_at(s, a0);
        }
        assert(Self::entries_map(s.remove(i)) =~= Self::entries_map(s).remove(name));
    }
}

/// The registry round trip: recording a pipeline's head pid and looking
/// the name up yields that pid, and after the record is dropped the name
/// is absent — the "not running" outcome.
pub proof fn lemma_registry_round_trip(m: Map<Seq<char>, u32>, name: Seq<char>, pid: u32)
    ensures
        m.insert(name, pid).contains_key(name),
        m.insert(name, pid)[name] == pid,
        !m.insert(name, pid).remove(name).contains_key(name),
{
}

} // verus!
