use std::cell::Cell;

use vohiyo::fut::Fut;
use vohiyo::ready::Ready;
use vohiyo::resolver::ResolverMap;

fn handle<T>() -> (tokio::sync::oneshot::Sender<T>, Fut<T>) {
    let (tx, rx) = tokio::sync::oneshot::channel();
    (tx, Fut::new(rx))
}

#[test]
fn second_request_before_resolution_starts_no_fetch() {
    let mut map: ResolverMap<String, String> = ResolverMap::new();
    let calls = Cell::new(0usize);
    let mut senders = Vec::new();
    for _ in 0..2 {
        let got = map.get_or_update("alice", |_| {
            calls.set(calls.get() + 1);
            let (tx, fut) = handle();
            senders.push(tx);
            fut
        });
        assert!(got.is_none());
    }
    assert_eq!(calls.get(), 1);
    assert_eq!(map.pending_len(), 1);
    assert!(map.contains("alice"));
    assert!(!map.is_ready("alice"));
}

#[test]
fn poll_without_finished_work_changes_nothing() {
    let mut map: ResolverMap<String, u32> = ResolverMap::new();
    let (_tx, fut) = handle::<u32>();
    map.add(fut);
    map.set("k".to_string(), "v".to_string());
    let done = map.poll();
    assert!(done.is_empty());
    assert_eq!(map.pending_len(), 1);
    assert_eq!(map.try_get("k").map(String::as_str), Some("v"));
}

#[test]
fn poll_on_empty_cache_returns_nothing() {
    let mut map: ResolverMap<String, u32> = ResolverMap::new();
    assert!(map.poll().is_empty());
    assert_eq!(map.pending_len(), 0);
}

#[test]
fn poll_hands_over_finished_values_once() {
    let mut map: ResolverMap<String, u32> = ResolverMap::new();
    let (tx1, f1) = handle::<u32>();
    let (_tx2, f2) = handle::<u32>();
    let (tx3, f3) = handle::<u32>();
    map.add(f1);
    map.add(f2);
    map.add(f3);
    tx1.send(7).unwrap();
    tx3.send(9).unwrap();
    assert_eq!(map.poll(), vec![7, 9]);
    assert_eq!(map.pending_len(), 1);
    assert!(map.poll().is_empty());
}

#[test]
fn ready_value_is_returned_without_fetch() {
    let mut map: ResolverMap<String, u32> = ResolverMap::new();
    map.set("k".to_string(), "v".to_string());
    let got = map.get_or_update("k", |_| panic!("no fetch for a ready key"));
    assert_eq!(got.map(String::as_str), Some("v"));
    assert_eq!(map.pending_len(), 0);
}

#[test]
fn set_replaces_and_remove_forgets() {
    let mut map: ResolverMap<u32, u32> = ResolverMap::new();
    assert!(map.insert_pending("a"));
    assert!(!map.insert_pending("a"));
    assert_eq!(map.try_get("a"), None);
    map.set("a".to_string(), 1);
    map.set("a".to_string(), 2);
    assert_eq!(map.try_get("a"), Some(&2));
    assert_eq!(map.remove("a"), Some(2));
    assert!(!map.contains("a"));
    assert!(!map.remove_by_key("a"));
    assert!(map.insert_pending("b"));
    assert_eq!(map.remove("b"), None);
}

#[test]
fn ready_slot_accessors() {
    let mut r: Ready<u32> = Ready::Ready(3);
    assert!(r.is_ready());
    assert_eq!(r.as_option(), Some(&3));
    if let Some(v) = r.as_option_mut() {
        *v = 4;
    }
    assert_eq!(r.into_option(), Some(4));
    let n: Ready<u32> = Ready::NotReady;
    assert!(!n.is_ready());
    assert_eq!(n.as_option(), None);
    assert_eq!(n.into_option(), None);
}
