//! The traversal worker's decisions.
//!
//! A worker repeatedly takes a [`WorkItem`] off the stream, lists the
//! directory at its path (I/O that the surrounding shell performs), and hands
//! the listed entries to [`WorkTarget::process_item`]: the verified decision
//! of whether the directory contains the sentinel and, if it does not, which
//! child directories to enqueue at what depth.

use crate::matcher::Sentinel;
use crate::sync_reader::SyncStream;
use vstd::prelude::*;
use vstd::string::*;

verus! {

/// One unit of traversal work: a directory path and its depth below the
/// search root that produced it (depth 0 = a root itself). Created once,
/// consumed exactly once by exactly one worker.
pub struct WorkItem {
    pub path: String,
    pub depth: usize,
}

/// The mathematical value of a [`WorkItem`].
pub ghost struct WorkItemView {
    pub path: Seq<char>,
    pub depth: nat,
}

impl View for WorkItem {
    type V = WorkItemView;

    open spec fn view(&self) -> WorkItemView {
        WorkItemView { path: self.path@, depth: self.depth as nat }
    }
}

/// What the shell hands the library for one readable directory entry: its
/// decoded name, and whether it names a directory (after the shell resolved
/// at most one level of symlink indirection). Entries that could not be read
/// or decoded are skipped by the shell and never reach the library.
pub struct EntryInfo {
    pub name: String,
    pub is_dir: bool,
}

/// Whether `depth` lies beyond the configured maximum. `>` rather than `>=`:
/// the root is depth 0, so the search descends `max_depth` more levels and a
/// directory at exactly the maximum depth is still scanned.
pub open spec fn exceeds_depth_spec(max_depth: Option<usize>, depth: nat) -> bool {
    match max_depth {
        Option::None => false,
        Option::Some(m) => depth > m,
    }
}

pub fn exceeds_depth(max_depth: Option<usize>, depth: usize) -> (r: bool)
    ensures
        r == exceeds_depth_spec(max_depth, depth as nat),
{
    match max_depth {
        Option::None => false,
        Option::Some(m) => depth > m,
    }
}

/// The path of a child entry: the parent's path, a separator, the entry's
/// name.
pub open spec fn child_path_spec(parent: Seq<char>, name: Seq<char>) -> Seq<char> {
    parent + seq!['/'] + name
}

/// Builds the path of a child entry.
pub fn child_path(parent: &String, name: &String) -> (r: String)
    ensures
        r@ == child_path_spec(parent@, name@),
{
    proof {
        reveal_strlit("/");
    }
    let mut out = parent.clone();
    out.append("/");
    out.append(name.as_str());
    proof {
        assert(out@ =~= child_path_spec(parent@, name@));
    }
    out
}

/// Whether some listed entry satisfies the sentinel.
pub open spec fn has_sentinel(sentinel: Sentinel, entries: Seq<EntryInfo>) -> bool {
    exists|i: int| 0 <= i < entries.len() && sentinel.matches_spec(entries[i].name@)
}

/// The work item a directory entry turns into.
pub open spec fn child_of(item: WorkItem, e: EntryInfo) -> WorkItemView {
    WorkItemView { path: child_path_spec(item.path@, e.name@), depth: item.depth as nat + 1 }
}

/// The children a sentinel-free directory contributes: one work item per
/// entry that names a directory, at one level deeper — or none at all when
/// that level would exceed the configured maximum depth.
pub open spec fn child_views(item: WorkItem, entries: Seq<EntryInfo>, max_depth: Option<
    usize,
>) -> Seq<WorkItemView> {
    if exceeds_depth_spec(max_depth, item.depth as nat + 1) {
        Seq::empty()
    } else {
        entries.filter(|e: EntryInfo| e.is_dir).map_values(|e: EntryInfo| child_of(item, e))
    }
}

/// The views of a list of built work items.
pub open spec fn item_views(items: Seq<WorkItem>) -> Seq<WorkItemView> {
    items.map_values(|w: WorkItem| w@)
}

/// What one directory listing decided: the sentinel was found (the directory
/// is a result; none of its children are followed), or it was not and these
/// children are to be enqueued.
pub enum ScanOutcome {
    SentinelFound,
    Descend(Vec<WorkItem>),
}

/// Decides one listed directory: reports whether any entry satisfies the
/// sentinel, and if none does, builds the child work items of every
/// subdirectory entry at `item.depth + 1`, unless that depth exceeds the
/// configured maximum.
pub fn scan_entries(
    sentinel: &Sentinel,
    max_depth: Option<usize>,
    item: &WorkItem,
    entries: &Vec<EntryInfo>,
) -> (r: ScanOutcome)
    requires
        item.depth < usize::MAX,
    ensures
        (r is SentinelFound) == has_sentinel(*sentinel, entries@),
        r matches ScanOutcome::Descend(cs) ==> item_views(cs@) == child_views(
            *item,
            entries@,
            max_depth,
        ),
{
    let ghost all = entries@;
    let mut children: Vec<WorkItem> = Vec::new();
    let enqueue_children = !exceeds_depth(max_depth, item.depth + 1);
    let mut i: usize = 0;
    while i < entries.len()
        invariant
            i <= entries.len(),
            entries@ == all,
            item.depth < usize::MAX,
            enqueue_children == !exceeds_depth_spec(max_depth, item.depth as nat + 1),
            forall|j: int| 0 <= j < i ==> !sentinel.matches_spec(all[j].name@),
            item_views(children@) == child_views(*item, all.take(i as int), max_depth),
        decreases entries@.len() - i,
    {
        let e = &entries[i];
        if sentinel.is_match(e.name.as_str()) {
            assert(has_sentinel(*sentinel, all));
            return ScanOutcome::SentinelFound;
        }
        let ghost children_pre = children@;
        if e.is_dir && enqueue_children {
            let p = child_path(&item.path, &e.name);
            let w = WorkItem { path: p, depth: item.depth + 1 };
            proof {
                assert(w@ == child_of(*item, all[i as int]));
            }
            children.push(w);
        }
        proof {
            reveal(Seq::filter);
            let ghost dirs = |e: EntryInfo| e.is_dir;
            let ghost mk = |e: EntryInfo| child_of(*item, e);
            assert(all.take(i + 1).drop_last() =~= all.take(i as int));
            assert(all.take(i + 1).last() == all[i as int]);
            if !exceeds_depth_spec(max_depth, item.depth as nat + 1) {
                if all[i as int].is_dir {
                    assert(all.take(i + 1).filter(dirs) == all.take(i as int).filter(dirs).push(
                        all[i as int],
                    ));
                    assert(all.take(i + 1).filter(dirs).map_values(mk) =~= all.take(
                        i as int,
                    ).filter(dirs).map_values(mk).push(mk(all[i as int])));
                    assert(item_views(children@) =~= item_views(children_pre).push(
                        mk(all[i as int]),
                    ));
                } else {
                    assert(all.take(i + 1).filter(dirs) == all.take(i as int).filter(dirs));
                    assert(children@ == children_pre);
                }
            } else {
                assert(children@ == children_pre);
            }
            assert(item_views(children@) =~= child_views(*item, all.take(i + 1), max_depth));
        }
        i = i + 1;
    }
    proof {
        assert(all.take(entries@.len() as int) =~= all);
        assert(!has_sentinel(*sentinel, all));
    }
    ScanOutcome::Descend(children)
}

/// The work items that seed a search: one per caller-supplied root path, at
/// depth 0 (a root is always scanned).
pub open spec fn root_views(roots: Seq<String>) -> Seq<WorkItemView> {
    roots.map_values(|r: String| WorkItemView { path: r@, depth: 0 })
}

/// Seeds the stream with one work item per root, at depth 0; the
/// orchestrator calls this once, before the workers start.
pub fn seed_roots<S: SyncStream<Item = WorkItem>>(stream: &mut S, roots: &Vec<String>)
    requires
        old(stream).wf(),
        old(stream).waiting() < old(stream).threads(),
    ensures
        final(stream).wf(),
        final(stream).waiting() == old(stream).waiting(),
        final(stream).threads() == old(stream).threads(),
        exists|items: Seq<WorkItem>|
            #[trigger] item_views(items) == root_views(roots@)
                && final(stream).pending() == old(stream).pending().add(items.to_multiset()),
        final(stream).pending().len() == old(stream).pending().len() + roots@.len(),
{
    let ghost all = roots@;
    let mut items: Vec<WorkItem> = Vec::new();
    let mut i: usize = 0;
    while i < roots.len()
        invariant
            i <= roots.len(),
            roots@ == all,
            items@.len() == i,
            forall|j: int|
                0 <= j < i ==> (#[trigger] items@[j])@ == (WorkItemView {
                    path: all[j]@,
                    depth: 0,
                }),
        decreases roots@.len() - i,
    {
        items.push(WorkItem { path: roots[i].clone(), depth: 0 });
        i = i + 1;
    }
    let ghost built = items@;
    stream.extend(items);
    proof {
        broadcast use vstd::seq_lib::group_to_multiset_ensures;

        assert(item_views(built) =~= root_views(roots@));
        assert(built.to_multiset().len() == built.len());
    }
}

/// The immutable search configuration shared by all workers, together with
/// the stream that distributes their work.
pub struct WorkTarget<S: SyncStream<Item = WorkItem>> {
    pub sentinel_pattern: Sentinel,
    pub sync_stream: S,
    pub max_depth: Option<usize>,
}

impl<S: SyncStream<Item = WorkItem>> WorkTarget<S> {
    /// Whether `depth` lies beyond this target's maximum.
    pub fn exceeds_depth(&self, depth: usize) -> (r: bool)
        ensures
            r == exceeds_depth_spec(self.max_depth, depth as nat),
    {
        exceeds_depth(self.max_depth, depth)
    }

    /// One worker step, after the shell has listed the directory of `item`:
    /// decides whether the sentinel was found there (the caller then records
    /// `item.path` as a result, once) and, when it was not, enqueues the
    /// directory's children in one batched `extend`.
    pub fn process_item(&mut self, item: &WorkItem, entries: &Vec<EntryInfo>) -> (found: bool)
        requires
            old(self).sync_stream.wf(),
            old(self).sync_stream.waiting() < old(self).sync_stream.threads(),
            item.depth < usize::MAX,
        ensures
            final(self).sentinel_pattern == old(self).sentinel_pattern,
            final(self).max_depth == old(self).max_depth,
            final(self).sync_stream.wf(),
            final(self).sync_stream.waiting() == old(self).sync_stream.waiting(),
            final(self).sync_stream.threads() == old(self).sync_stream.threads(),
            found == has_sentinel(old(self).sentinel_pattern, entries@),
            found ==> final(self).sync_stream.pending() == old(self).sync_stream.pending(),
            !found ==> exists|cs: Seq<WorkItem>|
                #[trigger] item_views(cs) == child_views(*item, entries@, old(self).max_depth)
                    && final(self).sync_stream.pending() == old(self).sync_stream.pending().add(
                    cs.to_multiset(),
                ),
            !found ==> final(self).sync_stream.pending().len() == old(
                self,
            ).sync_stream.pending().len() + child_views(*item, entries@, old(self).max_depth).len(),
    {
        match scan_entries(&self.sentinel_pattern, self.max_depth, item, entries) {
            ScanOutcome::SentinelFound => true,
            ScanOutcome::Descend(children) => {
                let ghost cs = children@;
                self.sync_stream.extend(children);
                proof {
                    broadcast use vstd::seq_lib::group_to_multiset_ensures;

                    assert(item_views(cs) == child_views(*item, entries@, old(self).max_depth));
                    assert(item_views(cs).len() == cs.len());
                }
                false
            },
        }
    }
}

/// Building a child path loses nothing: distinct directories, or distinct
/// entries of one directory, always yield distinct child paths, as long as
/// entry names do not contain the separator (the platform never lists such
/// names). With exactly-once delivery of work items this is why no directory
/// of a tree is ever handed to two workers: every enqueued path is built
/// here, from its one parent and its one entry name.
pub proof fn lemma_child_path_injective(p1: Seq<char>, n1: Seq<char>, p2: Seq<char>, n2: Seq<char>)
    requires
        !n1.contains('/'),
        !n2.contains('/'),
        child_path_spec(p1, n1) == child_path_spec(p2, n2),
    ensures
        p1 == p2,
        n1 == n2,
{
    let c1 = child_path_spec(p1, n1);
    let c2 = child_path_spec(p2, n2);
    assert(c1[p1.len() as int] == '/');
    assert(c2[p2.len() as int] == '/');
    if p1.len() < p2.len() {
        let j = p2.len() as int;
        let head = p1 + seq!['/'];
        assert(c1 == head + n1);
        assert(head.len() <= j < c1.len());
        assert(c1[j] == n1[j - head.len()]);
        assert(n1[j - head.len()] == '/');
        assert(n1.contains('/'));
    }
    if p2.len() < p1.len() {
        let j = p1.len() as int;
        let head = p2 + seq!['/'];
        assert(c2 == head + n2);
        assert(head.len() <= j < c2.len());
        assert(c2[j] == n2[j - head.len()]);
        assert(n2[j - head.len()] == '/');
        assert(n2.contains('/'));
    }
    assert(p1.len() == p2.len());
    assert(p1 =~= p2) by {
        assert(forall|k: int| 0 <= k < p1.len() ==> c1[k] == #[trigger] p1[k] && c2[k] == p2[k]);
    }
    assert(n1 =~= n2) by {
        assert(forall|k: int|
            0 <= k < n1.len() ==> c1[p1.len() + 1 + k] == #[trigger] n1[k] && c2[p2.len() + 1 + k]
                == n2[k]);
    }
}

/// The result set a whole run builds, step by step: each step is one
/// processed directory (its work item and its listing), and appends the
/// directory's own path exactly when some entry matches — the `found` flag of
/// [`WorkTarget::process_item`] handed to
/// [`crate::sink::ResultSink::record_match`].
pub open spec fn sink_after_steps(
    sentinel: Sentinel,
    steps: Seq<(WorkItem, Seq<EntryInfo>)>,
) -> Seq<Seq<char>>
    decreases steps.len(),
{
    if steps.len() == 0 {
        Seq::empty()
    } else if has_sentinel(sentinel, steps.last().1) {
        sink_after_steps(sentinel, steps.drop_last()).push(steps.last().0.path@)
    } else {
        sink_after_steps(sentinel, steps.drop_last())
    }
}

/// The paths of the directories a run of steps processed.
pub open spec fn step_paths(steps: Seq<(WorkItem, Seq<EntryInfo>)>) -> Seq<Seq<char>> {
    steps.map_values(|s: (WorkItem, Seq<EntryInfo>)| s.0.path@)
}

/// A sentinel-free search reports nothing: when no processed directory's
/// listing contains a matching entry, the result set of the whole run is
/// empty.
pub proof fn lemma_sentinel_free_search_is_empty(
    sentinel: Sentinel,
    steps: Seq<(WorkItem, Seq<EntryInfo>)>,
)
    requires
        forall|i: int| 0 <= i < steps.len() ==> !has_sentinel(sentinel, (#[trigger] steps[i]).1),
    ensures
        sink_after_steps(sentinel, steps) == Seq::<Seq<char>>::empty(),
    decreases steps.len(),
{
    if steps.len() > 0 {
        assert(forall|i: int|
            0 <= i < steps.drop_last().len() ==> (#[trigger] steps.drop_last()[i]) == steps[i]);
        lemma_sentinel_free_search_is_empty(sentinel, steps.drop_last());
    }
}

/// A directory appears at most once in the result set: when no two steps
/// processed the same directory (what exactly-once delivery of work items
/// gives the worker protocol), the run's result paths hold no duplicate —
/// however many entries inside one directory match the sentinel.
pub proof fn lemma_single_result_per_directory(
    sentinel: Sentinel,
    steps: Seq<(WorkItem, Seq<EntryInfo>)>,
)
    requires
        step_paths(steps).no_duplicates(),
    ensures
        sink_after_steps(sentinel, steps).no_duplicates(),
        forall|p: Seq<char>| #[trigger]
            sink_after_steps(sentinel, steps).contains(p) ==> step_paths(steps).contains(p),
    decreases steps.len(),
{
    if steps.len() > 0 {
        let prefix = steps.drop_last();
        assert(step_paths(prefix) =~= step_paths(steps).drop_last());
        assert(step_paths(prefix).no_duplicates());
        lemma_single_result_per_directory(sentinel, prefix);
        let prior = sink_after_steps(sentinel, prefix);
        assert(forall|p: Seq<char>| #[trigger]
            step_paths(prefix).contains(p) ==> step_paths(steps).contains(p));
        if has_sentinel(sentinel, steps.last().1) {
            let p_last = steps.last().0.path@;
            assert(p_last == step_paths(steps).last());
            assert(!prior.contains(p_last)) by {
                if step_paths(prefix).contains(p_last) {
                    let i = choose|i: int|
                        0 <= i < step_paths(prefix).len() && step_paths(prefix)[i] == p_last;
                    assert(step_paths(steps)[i] == step_paths(steps)[steps.len() - 1]);
                    assert(false);
                }
            }
            assert(sink_after_steps(sentinel, steps) == prior.push(p_last));
            assert(prior.push(p_last).no_duplicates()) by {
                assert(forall|i: int|
                    0 <= i < prior.len() ==> #[trigger] prior.push(p_last)[i] == prior[i]);
                assert(prior.push(p_last)[prior.len() as int] == p_last);
                assert(forall|i: int| 0 <= i < prior.len() ==> prior[i] != p_last) by {
                    assert(forall|i: int|
                        0 <= i < prior.len() ==> #[trigger] prior.contains(prior[i]));
                }
            }
            assert forall|p: Seq<char>| #[trigger]
                sink_after_steps(sentinel, steps).contains(p) implies step_paths(steps).contains(
                p,
            ) by {
                let i = choose|i: int|
                    0 <= i < prior.push(p_last).len() && prior.push(p_last)[i] == p;
                if i < prior.len() {
                    assert(prior.contains(p));
                } else {
                    assert(p == p_last);
                    assert(step_paths(steps)[steps.len() - 1] == p);
                }
            }
        } else {
            assert forall|p: Seq<char>| #[trigger]
                sink_after_steps(sentinel, steps).contains(p) implies step_paths(steps).contains(
                p,
            ) by {
                assert(prior.contains(p));
            }
        }
    }
}

/// Depth cutoff: every child produced for a directory at depth `d` is at
/// depth `d + 1`; none of them lies beyond the configured maximum depth, and
/// a directory whose children would lie beyond it is not expanded at all.
pub proof fn lemma_depth_cutoff(item: WorkItem, entries: Seq<EntryInfo>, max_depth: Option<usize>)
    ensures
        forall|j: int|
            0 <= j < child_views(item, entries, max_depth).len() ==> (#[trigger] child_views(
                item,
                entries,
                max_depth,
            )[j]).depth == item.depth as nat + 1,
        forall|j: int|
            0 <= j < child_views(item, entries, max_depth).len() ==> !exceeds_depth_spec(
                max_depth,
                (#[trigger] child_views(item, entries, max_depth)[j]).depth,
            ),
        exceeds_depth_spec(max_depth, item.depth as nat + 1) ==> child_views(
            item,
            entries,
            max_depth,
        ) == Seq::<WorkItemView>::empty(),
{
}

} // verus!
