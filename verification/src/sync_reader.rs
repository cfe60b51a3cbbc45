//! The quiescent work queue.
//!
//! A `SyncStream` distributes dynamically generated work items among a fixed
//! set of worker threads and detects quiescence: the moment at which no item
//! is buffered and every worker is simultaneously waiting, so no further item
//! can ever be produced (every producer is also a consumer).
//!
//! The types here are the lock-free cores of the streams: they hold the
//! buffers and the waiting/thread counters, and every state transition is a
//! verified step function taking `&mut self`. A caller that shares a stream
//! between threads serializes these steps under a lock of its own and parks
//! on a condition variable whenever a step answers [`GetStep::Wait`]; the
//! contracts below describe each step exactly, so the surrounding shell
//! contains no queue logic of its own.

use vstd::multiset::Multiset;
use vstd::prelude::*;

verus! {

/// The answer of one re-check by a consumer registered as waiting.
pub enum GetStep<T> {
    /// An item was taken off the buffer; the consumer is no longer waiting.
    Item(T),
    /// The stream is stalled: nothing is buffered and every consumer is
    /// waiting, so no item can ever arrive. The consumer should wake all
    /// other waiters (broadcast, not single wake) and stop.
    Finished,
    /// Nothing is buffered but other consumers are still active; the caller
    /// should block until the state changes and then re-check.
    Wait,
}

/// A multi-producer/multi-consumer stream of work items with quiescence
/// detection.
///
/// The protocol: a fixed set of `threads()` workers both produce and consume.
/// A consumer registers with [`SyncStream::get_enter`] and then repeats
/// [`SyncStream::get_step`] (blocking between attempts) until it obtains an
/// item or the stream reports that it is finished. Producers only call
/// [`SyncStream::put`] and [`SyncStream::extend`] while they are active (not
/// registered as waiting), which is why those operations require
/// `waiting() < threads()`: once every worker waits, the stream is stalled
/// for good and writing to it would be a programming error.
pub trait SyncStream: Sized {
    type Item;

    /// The multiset of buffered, undelivered items.
    spec fn pending(&self) -> Multiset<Self::Item>;

    /// How many consumers are currently registered as waiting for an item.
    spec fn waiting(&self) -> nat;

    /// The fixed number of worker threads the stream was created for.
    spec fn threads(&self) -> nat;

    /// Internal well-formedness; established by `with_threads` and preserved
    /// by every operation.
    spec fn wf(&self) -> bool;

    fn with_threads(thread_count: usize) -> (s: Self)
        ensures
            s.wf(),
            s.pending() == Multiset::<Self::Item>::empty(),
            s.waiting() == 0,
            s.threads() == thread_count as nat,
    ;

    /// Registers the calling consumer as waiting; the first half of a `get`.
    fn get_enter(&mut self)
        requires
            old(self).wf(),
            old(self).waiting() < old(self).threads(),
        ensures
            final(self).wf(),
            final(self).waiting() == old(self).waiting() + 1,
            final(self).pending() == old(self).pending(),
            final(self).threads() == old(self).threads(),
    ;

    /// One re-check by a consumer previously registered by `get_enter`.
    fn get_step(&mut self) -> (r: GetStep<Self::Item>)
        requires
            old(self).wf(),
            1 <= old(self).waiting(),
        ensures
            final(self).wf(),
            final(self).threads() == old(self).threads(),
            match r {
                GetStep::Item(x) => {
                    &&& old(self).pending().contains(x)
                    &&& final(self).pending() == old(self).pending().remove(x)
                    &&& final(self).waiting() == old(self).waiting() - 1
                },
                GetStep::Finished => {
                    &&& old(self).pending().len() == 0
                    &&& old(self).waiting() >= old(self).threads()
                    &&& *final(self) == *old(self)
                },
                GetStep::Wait => {
                    &&& old(self).waiting() < old(self).threads()
                    &&& *final(self) == *old(self)
                },
            },
    ;

    /// Whether every worker is registered as waiting. Writing to a stalled
    /// stream is a misuse (an unconditional programming-error abort in the
    /// shell), so a caller that cannot establish `put`'s precondition checks
    /// this first.
    fn is_stalled(&self) -> (r: bool)
        requires
            self.wf(),
        ensures
            r == (self.waiting() >= self.threads()),
    ;

    /// Buffers one item.
    fn put(&mut self, value: Self::Item)
        requires
            old(self).wf(),
            old(self).waiting() < old(self).threads(),
        ensures
            final(self).wf(),
            final(self).pending() == old(self).pending().insert(value),
            final(self).waiting() == old(self).waiting(),
            final(self).threads() == old(self).threads(),
    ;

    /// Buffers many items with one state transition.
    fn extend(&mut self, values: Vec<Self::Item>)
        requires
            old(self).wf(),
            old(self).waiting() < old(self).threads(),
        ensures
            final(self).wf(),
            final(self).pending() == old(self).pending().add(values@.to_multiset()),
            final(self).waiting() == old(self).waiting(),
            final(self).threads() == old(self).threads(),
    ;
}

/// The protected aggregate of the always-locking stream: the pending buffer,
/// the count of waiting consumers, and the fixed worker count.
pub struct MutexSyncStreamState<T> {
    thread_count: usize,
    waiting_count: usize,
    elements: Vec<T>,
}

impl<T> MutexSyncStreamState<T> {
    /// The invariant: never more waiters than workers.
    pub closed spec fn wf_spec(&self) -> bool {
        self.waiting_count <= self.thread_count
    }

    pub closed spec fn spec_thread_count(&self) -> nat {
        self.thread_count as nat
    }

    pub closed spec fn spec_waiting_count(&self) -> nat {
        self.waiting_count as nat
    }

    pub closed spec fn spec_elements(&self) -> Seq<T> {
        self.elements@
    }

    /// The termination condition: every worker is registered as waiting, so
    /// (the buffer being empty) no item can ever be produced again.
    pub fn is_stalled(&self) -> (r: bool)
        requires
            self.wf_spec(),
        ensures
            r == (self.spec_waiting_count() >= self.spec_thread_count()),
    {
        self.waiting_count >= self.thread_count
    }

    pub fn with_threads(thread_count: usize) -> (s: Self)
        ensures
            s.wf_spec(),
            s.spec_thread_count() == thread_count as nat,
            s.spec_waiting_count() == 0,
            s.spec_elements() == Seq::<T>::empty(),
    {
        Self { thread_count, waiting_count: 0, elements: Vec::new() }
    }
}

/// A naive always-locking stream: one aggregate holds the buffer and both
/// counters, and every operation is one step on it. The surrounding shell
/// keeps the aggregate under a single lock with one condition variable.
pub struct MutexSyncStream<T> {
    state: MutexSyncStreamState<T>,
}

impl<T> SyncStream for MutexSyncStream<T> {
    type Item = T;

    closed spec fn pending(&self) -> Multiset<T> {
        self.state.elements@.to_multiset()
    }

    closed spec fn waiting(&self) -> nat {
        self.state.waiting_count as nat
    }

    closed spec fn threads(&self) -> nat {
        self.state.thread_count as nat
    }

    closed spec fn wf(&self) -> bool {
        self.state.wf_spec()
    }

    fn with_threads(thread_count: usize) -> (s: Self) {
        proof {
            broadcast use vstd::seq_lib::group_to_multiset_ensures;
        }
        Self { state: MutexSyncStreamState::with_threads(thread_count) }
    }

    fn get_enter(&mut self) {
        self.state.waiting_count = self.state.waiting_count + 1;
    }

    fn is_stalled(&self) -> (r: bool) {
        self.state.is_stalled()
    }

    fn get_step(&mut self) -> (r: GetStep<T>) {
        proof {
            broadcast use vstd::seq_lib::group_to_multiset_ensures;
        }
        if self.state.elements.len() > 0 {
            self.state.waiting_count = self.state.waiting_count - 1;
            let ghost pre = self.state.elements@;
            let x = self.state.elements.pop().unwrap();
            proof {
                assert(pre.drop_last() =~= pre.remove(pre.len() - 1));
            }
            GetStep::Item(x)
        } else if self.state.is_stalled() {
            GetStep::Finished
        } else {
            GetStep::Wait
        }
    }

    fn put(&mut self, value: T) {
        proof {
            broadcast use vstd::seq_lib::group_to_multiset_ensures;
        }
        self.state.elements.push(value);
    }

    fn extend(&mut self, values: Vec<T>) {
        let ghost pre = self.state.elements@;
        let ghost vs = values@;
        let mut values = values;
        self.state.elements.append(&mut values);
        proof {
            vstd::seq_lib::lemma_multiset_commutative(pre, vs);
        }
    }
}

/// Holds when `delivered` is a possible order in which `get` calls hand out
/// the pending items of a stream until it reports finished: each delivered
/// item is taken from what is still pending (matching the `GetStep::Item`
/// contract of [`SyncStream::get_step`]), and the run ends only once nothing
/// is pending (matching the `GetStep::Finished` contract).
pub open spec fn drains_to_empty<T>(pending: Multiset<T>, delivered: Seq<T>) -> bool
    decreases delivered.len(),
{
    if delivered.len() == 0 {
        pending.len() == 0
    } else {
        pending.contains(delivered[0]) && drains_to_empty(
            pending.remove(delivered[0]),
            delivered.drop_first(),
        )
    }
}

/// Exactly-once delivery: whatever items producers buffered (their multiset
/// being `pending`, as the `put`/`extend` contracts accumulate it), any run of
/// `get` calls that continues until the stream reports finished hands out
/// exactly that multiset — no item is lost and none is delivered twice.
pub proof fn lemma_exactly_once_delivery<T>(pending: Multiset<T>, delivered: Seq<T>)
    requires
        drains_to_empty(pending, delivered),
    ensures
        delivered.to_multiset() == pending,
    decreases delivered.len(),
{
    broadcast use vstd::seq_lib::group_to_multiset_ensures;

    if delivered.len() == 0 {
        assert(delivered.to_multiset() =~= pending);
    } else {
        let x = delivered[0];
        lemma_exactly_once_delivery(pending.remove(x), delivered.drop_first());
        assert(delivered =~= seq![x] + delivered.drop_first());
        vstd::seq_lib::lemma_multiset_commutative(seq![x], delivered.drop_first());
        assert(seq![x].to_multiset() =~= Multiset::<T>::empty().insert(x)) by {
            assert(seq![x] =~= Seq::<T>::empty().push(x));
            assert(Seq::<T>::empty().to_multiset() =~= Multiset::<T>::empty());
        }
        assert(Multiset::<T>::empty().insert(x).add(pending.remove(x)) =~= pending);
    }
}

/// Moves every element of `source` onto the end of `target`, leaving
/// `source` empty.
pub fn drain_extend<T>(target: &mut Vec<T>, source: &mut Vec<T>)
    ensures
        final(target)@ == old(target)@ + old(source)@,
        final(source)@ == Seq::<T>::empty(),
{
    while source.len() > 0
        invariant
            target@ + source@ == old(target)@ + old(source)@,
        decreases source@.len(),
    {
        let ghost t_pre = target@;
        let ghost s_pre = source@;
        let item = source.remove(0);
        target.push(item);
        proof {
            assert(target@ + source@ =~= t_pre + s_pre);
        }
    }
    proof {
        assert(target@ =~= target@ + source@);
    }
}

/// A stream that separates the producer and consumer sides: producers push
/// onto a write buffer of their own (under its own lock in the shell), and a
/// consumer about to declare a stall first drains the whole write buffer into
/// the read side in one swap. Only a drain that finds the write buffer empty
/// as well proves a true stall. After a drain the shell wakes all waiting
/// consumers, which then find the drained items on the read side.
pub struct SwapSyncStream<T> {
    read_state: MutexSyncStreamState<T>,
    write_state: Vec<T>,
}

impl<T> SyncStream for SwapSyncStream<T> {
    type Item = T;

    closed spec fn pending(&self) -> Multiset<T> {
        self.read_state.elements@.to_multiset().add(self.write_state@.to_multiset())
    }

    closed spec fn waiting(&self) -> nat {
        self.read_state.waiting_count as nat
    }

    closed spec fn threads(&self) -> nat {
        self.read_state.thread_count as nat
    }

    closed spec fn wf(&self) -> bool {
        self.read_state.wf_spec()
    }

    fn with_threads(thread_count: usize) -> (s: Self) {
        proof {
            broadcast use vstd::seq_lib::group_to_multiset_ensures;
        }
        let s = Self {
            read_state: MutexSyncStreamState::with_threads(thread_count),
            write_state: Vec::new(),
        };
        proof {
            assert(s.pending() =~= Multiset::<T>::empty());
        }
        s
    }

    fn get_enter(&mut self) {
        self.read_state.waiting_count = self.read_state.waiting_count + 1;
    }

    fn is_stalled(&self) -> (r: bool) {
        self.read_state.is_stalled()
    }

    fn get_step(&mut self) -> (r: GetStep<T>) {
        proof {
            broadcast use vstd::seq_lib::group_to_multiset_ensures;
        }
        if self.read_state.elements.len() > 0 {
            self.read_state.waiting_count = self.read_state.waiting_count - 1;
            let ghost read_pre = self.read_state.elements@;
            let ghost write_pre = self.write_state@;
            let x = self.read_state.elements.pop().unwrap();
            proof {
                assert(read_pre.drop_last() =~= read_pre.remove(read_pre.len() - 1));
                assert(read_pre.to_multiset().remove(x).add(write_pre.to_multiset())
                    =~= read_pre.to_multiset().add(write_pre.to_multiset()).remove(x));
            }
            GetStep::Item(x)
        } else if self.read_state.is_stalled() {
            if self.write_state.len() == 0 {
                GetStep::Finished
            } else {
                let ghost write_pre = self.write_state@;
                drain_extend(&mut self.read_state.elements, &mut self.write_state);
                self.read_state.waiting_count = self.read_state.waiting_count - 1;
                let ghost drained = self.read_state.elements@;
                let x = self.read_state.elements.pop().unwrap();
                proof {
                    assert(drained =~= write_pre);
                    assert(drained.drop_last() =~= drained.remove(drained.len() - 1));
                    assert(drained.drop_last().to_multiset().add(Seq::<T>::empty().to_multiset())
                        =~= Seq::<T>::empty().to_multiset().add(write_pre.to_multiset()).remove(x));
                }
                GetStep::Item(x)
            }
        } else {
            GetStep::Wait
        }
    }

    fn put(&mut self, value: T) {
        proof {
            broadcast use vstd::seq_lib::group_to_multiset_ensures;
        }
        let ghost read_pre = self.read_state.elements@;
        let ghost write_pre = self.write_state@;
        self.write_state.push(value);
        proof {
            assert(read_pre.to_multiset().add(write_pre.to_multiset().insert(value))
                =~= read_pre.to_multiset().add(write_pre.to_multiset()).insert(value));
        }
    }

    fn extend(&mut self, values: Vec<T>) {
        let ghost read_pre = self.read_state.elements@;
        let ghost write_pre = self.write_state@;
        let ghost vs = values@;
        let mut values = values;
        self.write_state.append(&mut values);
        proof {
            vstd::seq_lib::lemma_multiset_commutative(write_pre, vs);
            assert(read_pre.to_multiset().add(write_pre.to_multiset().add(vs.to_multiset()))
                =~= read_pre.to_multiset().add(write_pre.to_multiset()).add(vs.to_multiset()));
        }
    }
}

} // verus!
