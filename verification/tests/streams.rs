use pj::sync_reader::{drain_extend, GetStep, MutexSyncStream, SwapSyncStream, SyncStream};

/// Drives `thread_count` simulated workers over one stream: each worker first
/// buffers its share of `0..total`, then the workers take turns getting items
/// until every one of them observes the stall. Returns how often each value
/// was delivered.
fn run_sync_stream_test<T: SyncStream<Item = i64>>(
    make_sync_stream: fn(usize) -> T,
    thread_count: i64,
) -> Vec<usize> {
    let total: i64 = 1000;
    let mut stream = make_sync_stream(thread_count as usize);

    let step = total / thread_count;
    for i in 0..thread_count {
        let min = i * step;
        let max = (i + 1) * step;
        for v in min..max {
            stream.put(v);
        }
    }

    let mut seen_counts: Vec<usize> = vec![0; total as usize];
    let mut entered = vec![false; thread_count as usize];
    let mut done = vec![false; thread_count as usize];
    loop {
        let mut all_done = true;
        for w in 0..thread_count as usize {
            if done[w] {
                continue;
            }
            all_done = false;
            if !entered[w] {
                stream.get_enter();
                entered[w] = true;
            }
            match stream.get_step() {
                GetStep::Item(v) => {
                    seen_counts[v as usize] += 1;
                    entered[w] = false;
                }
                GetStep::Finished => {
                    done[w] = true;
                }
                GetStep::Wait => {}
            }
        }
        if all_done {
            break;
        }
    }
    seen_counts
}

#[test]
fn test_mutex_sync_stream() {
    for _ in 0..100 {
        let seen = run_sync_stream_test(MutexSyncStream::<i64>::with_threads, 10);
        for (i, seen_count) in seen.into_iter().enumerate() {
            assert_eq!(seen_count, 1, "{} seen {} time(s)", i, seen_count);
        }
    }
}

#[test]
fn test_swap_sync_stream() {
    for _ in 0..100 {
        let seen = run_sync_stream_test(SwapSyncStream::<i64>::with_threads, 10);
        for (i, seen_count) in seen.into_iter().enumerate() {
            assert_eq!(seen_count, 1, "{} seen {} time(s)", i, seen_count);
        }
    }
}

#[test]
fn test_empty_stream_is_finished_at_once() {
    let mut stream = MutexSyncStream::<i64>::with_threads(1);
    stream.get_enter();
    assert!(matches!(stream.get_step(), GetStep::Finished));
}

#[test]
fn test_single_waiter_waits_while_others_are_active() {
    let mut stream = MutexSyncStream::<i64>::with_threads(2);
    stream.get_enter();
    assert!(matches!(stream.get_step(), GetStep::Wait));
    stream.put(7);
    match stream.get_step() {
        GetStep::Item(v) => assert_eq!(v, 7),
        _ => panic!("expected the buffered item"),
    }
}

#[test]
fn test_extend_delivers_every_item_once() {
    let mut stream = SwapSyncStream::<i64>::with_threads(1);
    stream.extend(vec![3, 1, 4, 1, 5]);
    stream.put(9);
    let mut delivered = Vec::new();
    loop {
        stream.get_enter();
        match stream.get_step() {
            GetStep::Item(v) => delivered.push(v),
            GetStep::Finished => break,
            GetStep::Wait => panic!("a lone worker never waits"),
        }
    }
    delivered.sort();
    assert_eq!(delivered, vec![1, 1, 3, 4, 5, 9]);
}

#[test]
fn test_drain_extend() {
    let mut target = vec![1, 2];
    let mut source = vec![3, 4, 5];
    drain_extend(&mut target, &mut source);
    assert_eq!(target, vec![1, 2, 3, 4, 5]);
    assert!(source.is_empty());
}

#[test]
fn test_drain_extend_from_empty() {
    let mut target: Vec<i64> = vec![8];
    let mut source: Vec<i64> = Vec::new();
    drain_extend(&mut target, &mut source);
    assert_eq!(target, vec![8]);
    assert!(source.is_empty());
}
