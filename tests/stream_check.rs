use vohiyo::batch::{chunk_ids, merge_results};
use vohiyo::data::Stream;
use vohiyo::stream_check::{diff_statuses, Action, Batcher, StreamCheck};

fn stream(user: &str) -> Stream {
    Stream {
        game_name: String::new(),
        game_id: String::new(),
        id: format!("s-{user}"),
        started_at: None,
        title: String::new(),
        stream_type: Some("live".to_string()),
        user_id: user.to_string(),
        user_login: user.to_string(),
        viewer_count: 1,
    }
}

#[test]
fn burst_of_subscriptions_is_one_request() {
    let mut b = Batcher::new(0);
    b.subscribe("alice".to_string(), 100);
    assert_eq!(b.tick(600), None);
    b.subscribe("bob".to_string(), 900);
    assert_eq!(b.tick(1099), None);
    assert_eq!(b.tick(1100), Some(vec!["alice".to_string(), "bob".to_string()]));
    assert_eq!(b.tick(2200), None);
}

#[test]
fn refresh_asks_for_every_watched_id() {
    let mut b = Batcher::new(0);
    b.subscribe("alice".to_string(), 0);
    b.subscribe("bob".to_string(), 0);
    assert!(b.tick(1000).is_some());
    assert_eq!(b.tick(29_999), None);
    assert_eq!(b.tick(30_000), Some(vec!["alice".to_string(), "bob".to_string()]));
    b.unsubscribe("alice");
    assert_eq!(b.tick(60_000), Some(vec!["bob".to_string()]));
}

#[test]
fn refresh_on_empty_watch_set_asks_for_nothing() {
    let mut b = Batcher::new(0);
    assert_eq!(b.tick(30_000), Some(vec![]));
}

#[test]
fn resubscribing_a_watched_id_is_idempotent() {
    let mut b = Batcher::new(0);
    b.subscribe("alice".to_string(), 0);
    b.subscribe("alice".to_string(), 10);
    assert_eq!(b.tick(1000), Some(vec!["alice".to_string()]));
}

#[test]
fn hundred_and_fifty_ids_make_two_requests() {
    let mut b = Batcher::new(0);
    for i in 0..150 {
        b.subscribe(i.to_string(), 10);
    }
    let ids = b.tick(1010).expect("one batch");
    assert_eq!(ids.len(), 150);
    let chunks = chunk_ids(&ids);
    assert_eq!(chunks.len(), 2);
    assert_eq!(chunks[0].len(), 100);
    assert_eq!(chunks[1].len(), 50);
    assert_eq!(chunks[0][0], "0");
    assert_eq!(chunks[1][0], "100");
    assert_eq!(chunks[1][49], "149");
    let answers: Vec<Vec<Stream>> = chunks
        .iter()
        .map(|chunk| chunk.iter().filter(|id| id.ends_with('7')).map(|id| stream(id)).collect())
        .collect();
    let merged = merge_results(answers);
    assert_eq!(merged.len(), 15);
    let statuses = diff_statuses(&ids, merged);
    assert_eq!(statuses.len(), 150);
    assert_eq!(statuses[0].0, "0");
    assert_eq!(statuses.iter().filter(|(_, s)| s.is_some()).count(), 15);
    assert!(statuses.iter().any(|(id, s)| id == "149" && s.is_none()));
    assert!(statuses.iter().any(|(id, s)| id == "147" && s.is_some()));
    assert_eq!(merge_results(chunk_ids(&ids)), ids);
}

#[test]
fn chunking_edges() {
    assert!(chunk_ids(&vec![]).is_empty());
    let ids: Vec<String> = (0..100).map(|i| i.to_string()).collect();
    assert_eq!(chunk_ids(&ids).len(), 1);
    let ids: Vec<String> = (0..101).map(|i| i.to_string()).collect();
    assert_eq!(chunk_ids(&ids).len(), 2);
}

#[test]
fn absent_ids_are_reported_gone() {
    let requested = vec!["alice".to_string(), "bob".to_string(), "carol".to_string()];
    let found = vec![stream("bob")];
    let r = diff_statuses(&requested, found);
    assert_eq!(r.len(), 3);
    assert_eq!(r[0].0, "alice");
    assert!(r[0].1.is_none());
    assert_eq!(r[1].0, "bob");
    assert_eq!(r[1].1.as_ref().map(|s| s.id.as_str()), Some("s-bob"));
    assert_eq!(r[2].0, "carol");
    assert!(r[2].1.is_none());
}

#[test]
fn streams_nobody_asked_for_are_ignored() {
    let requested = vec!["a".to_string(), "a".to_string()];
    let r = diff_statuses(&requested, vec![stream("x"), stream("a")]);
    assert_eq!(r.len(), 1);
    assert_eq!(r[0].0, "a");
    assert!(r[0].1.is_some());
}

#[test]
fn unsubscribing_drops_the_id_from_the_pending_batch() {
    let mut b = Batcher::new(0);
    b.subscribe("alice".to_string(), 0);
    b.subscribe("bob".to_string(), 0);
    b.unsubscribe("alice");
    assert_eq!(b.tick(1000), Some(vec!["bob".to_string()]));
    assert_eq!(b.tick(30_000), Some(vec!["bob".to_string()]));
}

#[test]
fn stream_check_records_presence_and_absence() {
    let (watch_tx, mut watch_rx) = tokio::sync::mpsc::unbounded_channel();
    let (update_tx, update_rx) = tokio::sync::mpsc::unbounded_channel();
    let mut check = StreamCheck::new(watch_tx, update_rx);
    assert!(check.get_or_subscribe("alice").is_none());
    assert!(check.get_or_subscribe("alice").is_none());
    assert!(matches!(watch_rx.try_recv(), Ok(Action::Added(id)) if id == "alice"));
    assert!(watch_rx.try_recv().is_err());

    update_tx.send(("alice".to_string(), Some(stream("alice")))).unwrap();
    check.poll();
    assert_eq!(check.get_or_subscribe("alice").map(|s| s.id.as_str()), Some("s-alice"));
    assert!(matches!(check.poll_event(), Some(Action::Added(s)) if s.user_id == "alice"));

    update_tx.send(("alice".to_string(), None)).unwrap();
    check.poll();
    assert!(check.get_or_subscribe("alice").is_none());
    assert!(matches!(check.poll_event(), Some(Action::Removed(s)) if s.user_id == "alice"));
    assert!(check.poll_event().is_none());

    check.unsubscribe("alice");
    assert!(matches!(watch_rx.try_recv(), Ok(Action::Removed(id)) if id == "alice"));
}
