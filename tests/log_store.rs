use cdi::block_store::BlockStore;
use cdi::log::{LogLine, ProcessInfo, ProcessStatus, Stream};
use cdi::memory::MemoryStore;
use cdi::store::{LogStore, StoreError};

type Make<S> = fn(Vec<ProcessInfo>, u64, usize) -> S;

fn info(name: &str) -> ProcessInfo {
    ProcessInfo::new(name.to_string(), format!("run {}", name), None)
}

fn ids(lines: &[LogLine]) -> Vec<u64> {
    lines.iter().map(|l| l.id).collect()
}

fn store_with<S: LogStore>(make: Make<S>, max_lines: usize) -> (S, u64, u64) {
    let a = info("a");
    let b = info("b");
    let (ia, ib) = (a.id, b.id);
    (make(vec![a, b], 7, max_lines), ia, ib)
}

fn ids_start_at_zero_and_increase_by_one_on<S: LogStore>(make: Make<S>) {
    let (mut s, a, _) = store_with(make, 10);
    for i in 0..5 {
        s.append(a, Stream::Stdout, format!("line {}", i), 1000 + i as u128).unwrap();
    }
    let lines = s.get_lines(a, None).unwrap();
    assert_eq!(ids(&lines), vec![0, 1, 2, 3, 4]);
    assert_eq!(lines[3].content, "line 3");
    assert_eq!(lines[3].timestamp, 1003);
    assert_eq!(lines[3].process_id, a);
    assert_eq!(lines[3].session_id, 7);
    assert_eq!(lines[3].stream, Stream::Stdout);
}

#[test]
fn ids_start_at_zero_and_increase_by_one() {
    ids_start_at_zero_and_increase_by_one_on(MemoryStore::new);
    ids_start_at_zero_and_increase_by_one_on(BlockStore::new);
}

fn eviction_drops_only_the_oldest_on<S: LogStore>(make: Make<S>) {
    let (mut s, a, _) = store_with(make, 3);
    for i in 0..3 {
        s.append(a, Stream::Stdout, format!("{}", i), 0).unwrap();
    }
    assert_eq!(ids(&s.get_lines(a, None).unwrap()), vec![0, 1, 2]);
    s.append(a, Stream::Stderr, "3".to_string(), 0).unwrap();
    let lines = s.get_lines(a, None).unwrap();
    assert_eq!(ids(&lines), vec![1, 2, 3]);
    assert_eq!(lines[2].stream, Stream::Stderr);
}

#[test]
fn eviction_drops_only_the_oldest() {
    eviction_drops_only_the_oldest_on(MemoryStore::new);
    eviction_drops_only_the_oldest_on(BlockStore::new);
}

fn oldest_retained_id_counts_evictions_on<S: LogStore>(make: Make<S>) {
    let (mut s, a, _) = store_with(make, 4);
    for i in 0..11 {
        s.append(a, Stream::Stdout, format!("{}", i), 0).unwrap();
        assert!(s.get_lines(a, None).unwrap().len() <= 4);
    }
    let lines = s.get_lines(a, None).unwrap();
    assert_eq!(lines.len(), 4);
    assert_eq!(lines[0].id, 7);
    assert_eq!(ids(&lines), vec![7, 8, 9, 10]);
}

#[test]
fn oldest_retained_id_counts_evictions() {
    oldest_retained_id_counts_evictions_on(MemoryStore::new);
    oldest_retained_id_counts_evictions_on(BlockStore::new);
}

fn zero_capacity_keeps_nothing_but_ids_advance_on<S: LogStore>(make: Make<S>) {
    let (mut s, a, _) = store_with(make, 0);
    s.append(a, Stream::Stdout, "x".to_string(), 0).unwrap();
    s.append(a, Stream::Stdout, "y".to_string(), 0).unwrap();
    assert!(s.get_lines(a, None).unwrap().is_empty());
    assert!(s.get_lines_since(a, 0).unwrap().is_empty());
}

#[test]
fn zero_capacity_keeps_nothing_but_ids_advance() {
    zero_capacity_keeps_nothing_but_ids_advance_on(MemoryStore::new);
    zero_capacity_keeps_nothing_but_ids_advance_on(BlockStore::new);
}

fn get_lines_with_limit_returns_most_recent_on<S: LogStore>(make: Make<S>) {
    let (mut s, a, _) = store_with(make, 10);
    for i in 0..6 {
        s.append(a, Stream::Stdout, format!("{}", i), 0).unwrap();
    }
    assert_eq!(ids(&s.get_lines(a, Some(2)).unwrap()), vec![4, 5]);
    assert_eq!(ids(&s.get_lines(a, Some(0)).unwrap()), Vec::<u64>::new());
    assert_eq!(ids(&s.get_lines(a, Some(100)).unwrap()), vec![0, 1, 2, 3, 4, 5]);
}

#[test]
fn get_lines_with_limit_returns_most_recent() {
    get_lines_with_limit_returns_most_recent_on(MemoryStore::new);
    get_lines_with_limit_returns_most_recent_on(BlockStore::new);
}

fn lines_since_returns_strictly_newer_on<S: LogStore>(make: Make<S>) {
    let (mut s, a, _) = store_with(make, 5);
    for i in 0..8 {
        s.append(a, Stream::Stdout, format!("{}", i), 0).unwrap();
    }
    // retained ids: 3..=7
    assert_eq!(ids(&s.get_lines_since(a, 4).unwrap()), vec![5, 6, 7]);
    assert_eq!(ids(&s.get_lines_since(a, 3).unwrap()), vec![4, 5, 6, 7]);
    assert_eq!(ids(&s.get_lines_since(a, 6).unwrap()), vec![7]);
}

#[test]
fn lines_since_returns_strictly_newer() {
    lines_since_returns_strictly_newer_on(MemoryStore::new);
    lines_since_returns_strictly_newer_on(BlockStore::new);
}

fn lines_since_below_oldest_returns_all_on<S: LogStore>(make: Make<S>) {
    let (mut s, a, _) = store_with(make, 5);
    for i in 0..8 {
        s.append(a, Stream::Stdout, format!("{}", i), 0).unwrap();
    }
    assert_eq!(ids(&s.get_lines_since(a, 0).unwrap()), vec![3, 4, 5, 6, 7]);
    assert_eq!(ids(&s.get_lines_since(a, 2).unwrap()), vec![3, 4, 5, 6, 7]);
}

#[test]
fn lines_since_below_oldest_returns_all() {
    lines_since_below_oldest_returns_all_on(MemoryStore::new);
    lines_since_below_oldest_returns_all_on(BlockStore::new);
}

fn lines_since_at_or_above_newest_is_empty_on<S: LogStore>(make: Make<S>) {
    let (mut s, a, _) = store_with(make, 5);
    for i in 0..8 {
        s.append(a, Stream::Stdout, format!("{}", i), 0).unwrap();
    }
    assert!(s.get_lines_since(a, 7).unwrap().is_empty());
    assert!(s.get_lines_since(a, u64::MAX).unwrap().is_empty());
}

#[test]
fn lines_since_at_or_above_newest_is_empty() {
    lines_since_at_or_above_newest_is_empty_on(MemoryStore::new);
    lines_since_at_or_above_newest_is_empty_on(BlockStore::new);
}

fn unknown_process_is_not_found_on<S: LogStore>(make: Make<S>) {
    let (mut s, a, b) = store_with(make, 5);
    let unknown = a.wrapping_add(b).wrapping_add(1);
    assert_eq!(
        s.append(unknown, Stream::Stdout, "x".to_string(), 0),
        Err(StoreError::ProcessNotFound(unknown))
    );
    assert_eq!(s.get_lines(unknown, None).err(), Some(StoreError::ProcessNotFound(unknown)));
    assert_eq!(s.get_lines_since(unknown, 0).err(), Some(StoreError::ProcessNotFound(unknown)));
    assert_eq!(s.get_process(unknown).err(), Some(StoreError::ProcessNotFound(unknown)));
    assert_eq!(
        s.set_process_status(unknown, ProcessStatus::Crashed, Some(1)),
        Err(StoreError::ProcessNotFound(unknown))
    );
}

#[test]
fn unknown_process_is_not_found() {
    unknown_process_is_not_found_on(MemoryStore::new);
    unknown_process_is_not_found_on(BlockStore::new);
}

fn interleaved_appends_keep_histories_apart_on<S: LogStore>(make: Make<S>) {
    let (mut s, a, b) = store_with(make, 3);
    for i in 0..5 {
        s.append(a, Stream::Stdout, format!("a{}", i), 0).unwrap();
        s.append(b, Stream::Stderr, format!("b{}", i), 0).unwrap();
        s.append(b, Stream::Stderr, format!("b{}x", i), 0).unwrap();
    }
    let la = s.get_lines(a, None).unwrap();
    let lb = s.get_lines(b, None).unwrap();
    assert_eq!(ids(&la), vec![2, 3, 4]);
    assert_eq!(ids(&lb), vec![7, 8, 9]);
    assert!(la.iter().all(|l| l.process_id == a && l.content.starts_with('a')));
    assert!(lb.iter().all(|l| l.process_id == b && l.content.starts_with('b')));
    assert_eq!(lb[2].content, "b4x");
}

#[test]
fn interleaved_appends_keep_histories_apart() {
    interleaved_appends_keep_histories_apart_on(MemoryStore::new);
    interleaved_appends_keep_histories_apart_on(BlockStore::new);
}

fn processes_are_listed_in_registration_order_on<S: LogStore>(make: Make<S>) {
    let (s, a, b) = store_with(make, 3);
    let all = s.get_processes();
    assert_eq!(all.len(), 2);
    assert_eq!(all[0].id, a);
    assert_eq!(all[1].id, b);
    assert_eq!(s.get_process(b).unwrap().name, "b");
}

#[test]
fn processes_are_listed_in_registration_order() {
    processes_are_listed_in_registration_order_on(MemoryStore::new);
    processes_are_listed_in_registration_order_on(BlockStore::new);
}

fn repeated_id_registers_once_with_last_record_on<S: LogStore>(make: Make<S>) {
    let first = ProcessInfo::new("a".to_string(), "run".to_string(), None);
    let mut second = ProcessInfo::new("a".to_string(), "run".to_string(), None);
    second.exit_code = Some(9);
    let other = info("z");
    let s = make(vec![first, other, second], 1, 4);
    let all = s.get_processes();
    assert_eq!(all.len(), 2);
    assert_eq!(all[0].exit_code, Some(9));
    assert_eq!(all[1].name, "z");
}

#[test]
fn repeated_id_registers_once_with_last_record() {
    repeated_id_registers_once_with_last_record_on(MemoryStore::new);
    repeated_id_registers_once_with_last_record_on(BlockStore::new);
}

fn status_update_keeps_lines_on<S: LogStore>(make: Make<S>) {
    let (mut s, a, _) = store_with(make, 3);
    s.append(a, Stream::Stdout, "hello".to_string(), 5).unwrap();
    s.set_process_status(a, ProcessStatus::Crashed, Some(2)).unwrap();
    let p = s.get_process(a).unwrap();
    assert_eq!(p.status, ProcessStatus::Crashed);
    assert_eq!(p.exit_code, Some(2));
    assert_eq!(s.get_lines(a, None).unwrap()[0].content, "hello");
}

#[test]
fn status_update_keeps_lines() {
    status_update_keeps_lines_on(MemoryStore::new);
    status_update_keeps_lines_on(BlockStore::new);
}

fn many_lines_across_blocks_on<S: LogStore>(make: Make<S>) {
    let (mut s, a, b) = store_with(make, 200);
    for i in 0..700u64 {
        s.append(a, Stream::Stdout, format!("line {}", i), i as u128).unwrap();
        if i % 3 == 0 {
            s.append(b, Stream::Stderr, format!("other {}", i), 0).unwrap();
        }
    }
    let lines = s.get_lines(a, None).unwrap();
    assert_eq!(lines.len(), 200);
    for (k, l) in lines.iter().enumerate() {
        let id = 500 + k as u64;
        assert_eq!(l.id, id);
        assert_eq!(l.content, format!("line {}", id));
        assert_eq!(l.timestamp, id as u128);
    }
    assert_eq!(ids(&s.get_lines_since(a, 649).unwrap()), (650..700).collect::<Vec<u64>>());
    assert_eq!(ids(&s.get_lines(a, Some(130)).unwrap()), (570..700).collect::<Vec<u64>>());
    let lb = s.get_lines(b, None).unwrap();
    assert_eq!(lb.len(), 200);
    assert_eq!(lb[0].id, 34);
    assert_eq!(lb[199].content, "other 699");
}

#[test]
fn many_lines_across_blocks() {
    many_lines_across_blocks_on(MemoryStore::new);
    many_lines_across_blocks_on(BlockStore::new);
}

fn long_lines_fill_blocks_by_bytes_on<S: LogStore>(make: Make<S>) {
    let (mut s, a, _) = store_with(make, 50);
    for i in 0..60u64 {
        let text = format!("{}:{}", i, "x".repeat(5000));
        s.append(a, Stream::Stdout, text, 0).unwrap();
    }
    let lines = s.get_lines(a, None).unwrap();
    assert_eq!(ids(&lines), (10..60).collect::<Vec<u64>>());
    assert!(lines[0].content.starts_with("10:"));
    assert_eq!(lines[49].content.len(), 5003);
}

#[test]
fn long_lines_fill_blocks_by_bytes() {
    long_lines_fill_blocks_by_bytes_on(MemoryStore::new);
    long_lines_fill_blocks_by_bytes_on(BlockStore::new);
}

fn unicode_content_survives_on<S: LogStore>(make: Make<S>) {
    let (mut s, a, _) = store_with(make, 5);
    s.append(a, Stream::Stdout, "héllo wörld ✓".to_string(), 0).unwrap();
    s.append(a, Stream::Stdout, String::new(), 0).unwrap();
    s.append(a, Stream::Stdout, "日本語".to_string(), 0).unwrap();
    let lines = s.get_lines(a, None).unwrap();
    assert_eq!(lines[0].content, "héllo wörld ✓");
    assert_eq!(lines[1].content, "");
    assert_eq!(lines[2].content, "日本語");
}

#[test]
fn unicode_content_survives() {
    unicode_content_survives_on(MemoryStore::new);
    unicode_content_survives_on(BlockStore::new);
}
