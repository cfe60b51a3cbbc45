//! The result sink: an append-only collector of matched directory paths.
//!
//! The sink is its own component with its own lock in the surrounding shell,
//! disjoint from the queue's, so that recording a result never blocks work
//! scheduling. Entries are only ever appended; nothing is removed or mutated
//! after insertion.

use crate::worker::WorkItem;
use vstd::prelude::*;

verus! {

/// An append-only list of matched directory paths.
pub struct ResultSink {
    results: Vec<String>,
}

impl View for ResultSink {
    type V = Seq<Seq<char>>;

    closed spec fn view(&self) -> Seq<Seq<char>> {
        self.results@.map_values(|s: String| s@)
    }
}

impl ResultSink {
    pub fn new() -> (s: Self)
        ensures
            s@ == Seq::<Seq<char>>::empty(),
    {
        let s = ResultSink { results: Vec::new() };
        proof {
            assert(s@ =~= Seq::<Seq<char>>::empty());
        }
        s
    }

    /// Appends one matched path.
    pub fn record(&mut self, path: String)
        ensures
            final(self)@ == old(self)@.push(path@),
    {
        self.results.push(path);
        proof {
            assert(self@ =~= old(self)@.push(path@));
        }
    }

    /// Records the containing directory of a processed work item exactly
    /// once when its sentinel was found, and nothing otherwise — however
    /// many entries inside it matched.
    pub fn record_match(&mut self, found: bool, item: &WorkItem)
        ensures
            final(self)@ == if found {
                old(self)@.push(item.path@)
            } else {
                old(self)@
            },
    {
        if found {
            let path = item.path.clone();
            self.record(path);
        }
    }

    /// Hands out the collected paths; called once, after all workers have
    /// exited.
    pub fn snapshot(self) -> (r: Vec<String>)
        ensures
            r@.map_values(|s: String| s@) == self@,
    {
        self.results
    }
}

} // verus!
