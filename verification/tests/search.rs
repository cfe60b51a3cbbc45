use pj::matcher::Sentinel;
use pj::sink::ResultSink;
use pj::sync_reader::{GetStep, MutexSyncStream, SwapSyncStream, SyncStream};
use pj::worker::{seed_roots, EntryInfo, WorkItem, WorkTarget};

/// An in-memory directory tree: each pair maps a directory path to its
/// entries (name, is_dir). Paths absent from the table list as empty.
type Tree = Vec<(String, Vec<(String, bool)>)>;

fn entry(name: &str, is_dir: bool) -> (String, bool) {
    (name.to_string(), is_dir)
}

fn list_dir(tree: &Tree, path: &str) -> Vec<EntryInfo> {
    for (dir, entries) in tree {
        if dir == path {
            return entries
                .iter()
                .map(|(name, is_dir)| EntryInfo { name: name.clone(), is_dir: *is_dir })
                .collect();
        }
    }
    Vec::new()
}

/// A single-threaded run of the worker loop: seeds the stream with the roots
/// at depth 0, then gets, lists and processes items until the stream reports
/// quiescence. Returns the sorted matched directories.
fn run_search<S: SyncStream<Item = WorkItem>>(
    make_stream: fn(usize) -> S,
    sentinel: Sentinel,
    max_depth: Option<usize>,
    roots: &[&str],
    tree: &Tree,
) -> Vec<String> {
    let mut target = WorkTarget {
        sentinel_pattern: sentinel,
        sync_stream: make_stream(1),
        max_depth,
    };
    let root_paths: Vec<String> = roots.iter().map(|r| r.to_string()).collect();
    seed_roots(&mut target.sync_stream, &root_paths);
    let mut sink = ResultSink::new();
    loop {
        target.sync_stream.get_enter();
        match target.sync_stream.get_step() {
            GetStep::Item(item) => {
                let entries = list_dir(tree, &item.path);
                let found = target.process_item(&item, &entries);
                sink.record_match(found, &item);
            }
            GetStep::Finished => break,
            GetStep::Wait => panic!("a lone worker never waits"),
        }
    }
    let mut results = sink.snapshot();
    results.sort();
    results
}

fn scenario_tree() -> Tree {
    vec![
        ("root".to_string(), vec![entry("a", true), entry("b", true)]),
        ("root/a".to_string(), vec![entry("TARGET", false)]),
        ("root/b".to_string(), vec![entry("c", true)]),
        ("root/b/c".to_string(), vec![entry("TARGET", false)]),
    ]
}

#[test]
fn test_scenario_exact_no_depth_limit() {
    let results = run_search(
        MutexSyncStream::<WorkItem>::with_threads,
        Sentinel::exact("TARGET".to_string()),
        None,
        &["root"],
        &scenario_tree(),
    );
    assert_eq!(results, vec!["root/a".to_string(), "root/b/c".to_string()]);
}

#[test]
fn test_scenario_exact_no_depth_limit_swap_stream() {
    let results = run_search(
        SwapSyncStream::<WorkItem>::with_threads,
        Sentinel::exact("TARGET".to_string()),
        None,
        &["root"],
        &scenario_tree(),
    );
    assert_eq!(results, vec!["root/a".to_string(), "root/b/c".to_string()]);
}

#[test]
fn test_scenario_depth_limit_one() {
    let results = run_search(
        MutexSyncStream::<WorkItem>::with_threads,
        Sentinel::exact("TARGET".to_string()),
        Some(1),
        &["root"],
        &scenario_tree(),
    );
    assert_eq!(results, vec!["root/a".to_string()]);
}

#[test]
fn test_scenario_pattern_single_match_per_directory() {
    let tree: Tree = vec![(
        "root".to_string(),
        vec![entry("target_file", false), entry("targets", false)],
    )];
    let results = run_search(
        MutexSyncStream::<WorkItem>::with_threads,
        Sentinel::pattern("target.*").expect("pattern compiles"),
        None,
        &["root"],
        &tree,
    );
    assert_eq!(results, vec!["root".to_string()]);
}

#[test]
fn test_sentinel_free_tree_finishes_empty() {
    let tree: Tree = vec![
        ("root".to_string(), vec![entry("a", true), entry("x", false)]),
        ("root/a".to_string(), vec![entry("b", true)]),
        ("root/a/b".to_string(), vec![entry("y", false)]),
    ];
    let results = run_search(
        MutexSyncStream::<WorkItem>::with_threads,
        Sentinel::exact("TARGET".to_string()),
        None,
        &["root"],
        &tree,
    );
    assert!(results.is_empty());
}

#[test]
fn test_exact_sentinel_matches_whole_name_only() {
    let s = Sentinel::exact("TARGET".to_string());
    assert!(s.is_match("TARGET"));
    assert!(!s.is_match("TARGETS"));
    assert!(!s.is_match("TARGE"));
    assert!(!s.is_match(""));
}

#[test]
fn test_pattern_sentinel_is_anchored() {
    let s = Sentinel::pattern("target.*").expect("pattern compiles");
    assert!(s.is_match("target_file"));
    assert!(s.is_match("targets"));
    assert!(s.is_match("target"));
    assert!(!s.is_match("a_target_file"));
}

#[test]
fn test_pattern_sentinel_keeps_existing_anchors() {
    let s = Sentinel::pattern("^abc$").expect("pattern compiles");
    assert!(s.is_match("abc"));
    assert!(!s.is_match("xabc"));
    assert!(!s.is_match("abcx"));
}

#[test]
fn test_invalid_pattern_is_rejected() {
    assert!(Sentinel::pattern("(").is_none());
}

#[test]
fn test_scan_builds_children_at_next_depth() {
    let mut target = WorkTarget {
        sentinel_pattern: Sentinel::exact("TARGET".to_string()),
        sync_stream: MutexSyncStream::<WorkItem>::with_threads(1),
        max_depth: None,
    };
    let item = WorkItem { path: "p".to_string(), depth: 3 };
    let entries = vec![
        EntryInfo { name: "x".to_string(), is_dir: true },
        EntryInfo { name: "f".to_string(), is_dir: false },
        EntryInfo { name: "y".to_string(), is_dir: true },
    ];
    let found = target.process_item(&item, &entries);
    assert!(!found);
    let mut delivered = Vec::new();
    loop {
        target.sync_stream.get_enter();
        match target.sync_stream.get_step() {
            GetStep::Item(w) => delivered.push((w.path, w.depth)),
            GetStep::Finished => break,
            GetStep::Wait => panic!("a lone worker never waits"),
        }
    }
    delivered.sort();
    assert_eq!(
        delivered,
        vec![("p/x".to_string(), 4), ("p/y".to_string(), 4)]
    );
}

#[test]
fn test_depth_cutoff_stops_expansion() {
    let mut target = WorkTarget {
        sentinel_pattern: Sentinel::exact("TARGET".to_string()),
        sync_stream: MutexSyncStream::<WorkItem>::with_threads(1),
        max_depth: Some(2),
    };
    assert!(!target.exceeds_depth(2));
    assert!(target.exceeds_depth(3));
    let item = WorkItem { path: "p".to_string(), depth: 2 };
    let entries = vec![EntryInfo { name: "x".to_string(), is_dir: true }];
    let found = target.process_item(&item, &entries);
    assert!(!found);
    target.sync_stream.get_enter();
    assert!(matches!(target.sync_stream.get_step(), GetStep::Finished));
}

#[test]
fn test_match_enqueues_no_children() {
    let mut target = WorkTarget {
        sentinel_pattern: Sentinel::exact("TARGET".to_string()),
        sync_stream: MutexSyncStream::<WorkItem>::with_threads(1),
        max_depth: None,
    };
    let item = WorkItem { path: "p".to_string(), depth: 0 };
    let entries = vec![
        EntryInfo { name: "x".to_string(), is_dir: true },
        EntryInfo { name: "TARGET".to_string(), is_dir: false },
    ];
    let found = target.process_item(&item, &entries);
    assert!(found);
    target.sync_stream.get_enter();
    assert!(matches!(target.sync_stream.get_step(), GetStep::Finished));
}

#[test]
fn test_record_match_appends_at_most_once() {
    let mut sink = ResultSink::new();
    let item = WorkItem { path: "root/a".to_string(), depth: 1 };
    sink.record_match(false, &item);
    sink.record_match(true, &item);
    assert_eq!(sink.snapshot(), vec!["root/a".to_string()]);
}
