//! The processor cores to which the worker threads of a hive may be pinned.

use vstd::prelude::*;

verus! {

/// One processor core, named by its number.
#[derive(Debug, Clone, Copy, PartialEq, Eq, Structural)]
pub struct Core {
    pub id: usize,
}

/// A set of processor cores, in the order in which they were added.
#[derive(Debug, PartialEq, Eq)]
pub struct Cores {
    ids: Vec<usize>,
}

impl View for Cores {
    type V = Seq<usize>;

    closed spec fn view(&self) -> Seq<usize> {
        self.ids@
    }
}

/// The core of a worker thread: the threads take the cores in turn, and start again with
/// the first core when every core has a thread.
pub open spec fn core_of(cores: Seq<usize>, thread_index: usize) -> Option<Core> {
    if cores.len() == 0 {
        None
    } else {
        Some(Core { id: cores[thread_index as int % cores.len() as int] })
    }
}

/// `cores` followed by those of `added` that it lacks, each once, in their order.
pub open spec fn united(cores: Seq<usize>, added: Seq<usize>) -> Seq<usize>
    decreases added.len(),
{
    if added.len() == 0 {
        cores
    } else if cores.contains(added[0]) {
        united(cores, added.drop_first())
    } else {
        united(cores.push(added[0]), added.drop_first())
    }
}

/// Uniting keeps the cores that were there, in their places, and adds behind them those
/// that were not there; a set that is free of duplicates stays so.
pub proof fn lemma_united(cores: Seq<usize>, added: Seq<usize>)
    ensures
        cores.is_prefix_of(united(cores, added)),
        united(cores, added).len() == cores.len() ==> united(cores, added) == cores,
        cores.no_duplicates() ==> united(cores, added).no_duplicates(),
        forall|id: usize|
            united(cores, added).contains(id) <==> (cores.contains(id) || added.contains(id)),
    decreases added.len(),
{
    if added.len() == 0 {
    } else {
        let first = added[0];
        let rest = added.drop_first();
        let grown = if cores.contains(first) {
            cores
        } else {
            cores.push(first)
        };
        lemma_united(grown, rest);
        assert(cores.is_prefix_of(grown));
        assert(united(cores, added) == united(grown, rest));
        if united(cores, added).len() == cores.len() {
            assert(united(cores, added) =~= cores);
        }
        assert forall|id: usize|
            united(cores, added).contains(id) <==> (cores.contains(id) || added.contains(
                id,
            )) by {
            if cores.contains(id) {
                let i = choose|i: int| 0 <= i < cores.len() && cores[i] == id;
                assert(grown[i] == id);
            }
            if grown.contains(id) && !cores.contains(id) {
                let i = choose|i: int| 0 <= i < grown.len() && grown[i] == id;
                assert(i == cores.len());
                assert(added[0] == id);
            }
            if added.contains(id) {
                let i = choose|i: int| 0 <= i < added.len() && added[i] == id;
                if i == 0 {
                    if !cores.contains(first) {
                        assert(grown[cores.len() as int] == id);
                    }
                } else {
                    assert(rest[i - 1] == id);
                }
            }
            if rest.contains(id) {
                let i = choose|i: int| 0 <= i < rest.len() && rest[i] == id;
                assert(added[i + 1] == id);
            }
        }
    }
}

impl Cores {
    /// The empty set.
    pub fn empty() -> (cores: Self)
        ensures
            cores@ == Seq::<usize>::empty(),
    {
        Cores { ids: Vec::new() }
    }

    /// The cores numbered from 0 up to, and without, `n`.
    pub fn first(n: usize) -> (cores: Self)
        ensures
            cores@ == Seq::new(n as nat, |i: int| i as usize),
    {
        let mut ids: Vec<usize> = Vec::new();
        let mut id: usize = 0;
        while id < n
            invariant
                id <= n,
                ids@ == Seq::new(id as nat, |i: int| i as usize),
            decreases n - id,
        {
            ids.push(id);
            id = id + 1;
            assert(ids@ =~= Seq::new(id as nat, |i: int| i as usize));
        }
        Cores { ids }
    }

    /// The number of cores in the set.
    pub fn len(&self) -> (n: usize)
        ensures
            n == self@.len(),
    {
        self.ids.len()
    }

    /// Whether the set holds the core numbered `id`.
    pub fn contains(&self, id: usize) -> (found: bool)
        ensures
            found == self@.contains(id),
    {
        let mut at: usize = 0;
        while at < self.ids.len()
            invariant
                at <= self@.len(),
                forall|i: int| 0 <= i < at ==> self@[i] != id,
            decreases self@.len() - at,
        {
            if self.ids[at] == id {
                return true;
            }
            at = at + 1;
        }
        false
    }

    /// Adds the cores of `other` that this set lacks, and returns how many were added.
    pub fn union(&mut self, other: &Cores) -> (added: usize)
        ensures
            final(self)@ == united(old(self)@, other@),
            added == final(self)@.len() - old(self)@.len(),
    {
        let ghost before = self@;
        let mut added: usize = 0;
        let mut at: usize = 0;
        assert(other@.skip(0) =~= other@);
        while at < other.ids.len()
            invariant
                at <= other@.len(),
                united(before, other@) == united(self@, other@.skip(at as int)),
                added == self@.len() - before.len(),
                added <= at,
            decreases other@.len() - at,
        {
            let id = other.ids[at];
            proof {
                let rest = other@.skip(at as int);
                assert(rest[0] == id);
                assert(rest.drop_first() =~= other@.skip(at + 1));
            }
            if !self.contains(id) {
                self.ids.push(id);
                added = added + 1;
            }
            at = at + 1;
        }
        added
    }

    /// The core of the worker thread numbered `thread_index`.
    pub fn get(&self, thread_index: usize) -> (core: Option<Core>)
        ensures
            core == core_of(self@, thread_index),
    {
        let n = self.ids.len();
        if n == 0 {
            None
        } else {
            Some(Core { id: self.ids[thread_index % n] })
        }
    }
}

impl Clone for Cores {
    fn clone(&self) -> (copy: Self)
        ensures
            copy@ == self@,
    {
        let mut ids: Vec<usize> = Vec::new();
        let mut at: usize = 0;
        while at < self.ids.len()
            invariant
                at <= self@.len(),
                ids@ == self@.take(at as int),
            decreases self@.len() - at,
        {
            ids.push(self.ids[at]);
            at = at + 1;
            assert(ids@ =~= self@.take(at as int));
        }
        assert(self@.take(self@.len() as int) =~= self@);
        Cores { ids }
    }
}

impl Default for Cores {
    fn default() -> (cores: Self)
        ensures
            cores@ == Seq::<usize>::empty(),
    {
        Cores::empty()
    }
}

} // verus!
