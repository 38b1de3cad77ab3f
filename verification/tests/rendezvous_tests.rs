use nwv_shell::codec::PathRecord;
use nwv_shell::rendezvous::{await_path, take_if_match, Rendezvous};

fn record(url: &str, path: &str, mime: &str) -> PathRecord {
    PathRecord {
        url: String::from(url),
        local_path: String::from(path),
        mime_type: String::from(mime),
    }
}

#[test]
fn matching_record_resolves_the_waiter() {
    let mut rv = Rendezvous::new();
    assert!(rv.register(String::from("nwv://index.html")));
    let resolved = rv.deliver(&record("nwv://index.html", "/abs/index.html", "text/html"));
    assert!(resolved);
    assert!(rv.pending.is_empty());
}

#[test]
fn unrelated_record_is_discarded_and_waiters_kept() {
    let mut rv = Rendezvous::new();
    assert!(rv.register(String::from("nwv://index.html")));
    let resolved = rv.deliver(&record("nwv://other.css", "/abs/other.css", "text/css"));
    assert!(!resolved);
    assert_eq!(rv.pending, vec![String::from("nwv://index.html")]);
}

#[test]
fn duplicate_registration_is_refused() {
    let mut rv = Rendezvous::new();
    assert!(rv.register(String::from("u")));
    assert!(!rv.register(String::from("u")));
    assert_eq!(rv.pending.len(), 1);
}

#[test]
fn record_resolves_only_its_own_waiter() {
    let mut rv = Rendezvous::new();
    assert!(rv.register(String::from("a")));
    assert!(rv.register(String::from("b")));
    assert!(rv.deliver(&record("b", "/b", "text/plain")));
    assert_eq!(rv.pending, vec![String::from("a")]);
}

#[test]
fn a_record_resolves_at_most_one_waiter() {
    let mut rv = Rendezvous::new();
    assert!(rv.register(String::from("a")));
    assert!(rv.register(String::from("b")));
    assert!(rv.deliver(&record("a", "/a", "text/plain")));
    assert!(!rv.deliver(&record("a", "/a", "text/plain")));
    assert_eq!(rv.pending, vec![String::from("b")]);
}

#[test]
fn await_path_returns_the_matching_record() {
    let (tx, rx) = crossbeam_channel::bounded::<PathRecord>(4);
    tx.send(record("nwv://stale.js", "/abs/stale.js", "text/javascript")).unwrap();
    tx.send(record("nwv://index.html", "/abs/index.html", "text/html")).unwrap();
    let got = await_path("nwv://index.html", &rx, 16).unwrap();
    assert_eq!(got.url, "nwv://index.html");
    assert_eq!(got.local_path, "/abs/index.html");
    assert_eq!(got.mime_type, "text/html");
}

#[test]
fn await_path_sees_stream_closure_as_shutdown() {
    let (tx, rx) = crossbeam_channel::bounded::<PathRecord>(4);
    tx.send(record("nwv://other", "/o", "text/plain")).unwrap();
    drop(tx);
    assert_eq!(await_path("nwv://index.html", &rx, 16), None);
}

#[test]
fn await_path_gives_up_after_its_discard_budget() {
    let (tx, rx) = crossbeam_channel::bounded::<PathRecord>(4);
    tx.send(record("a", "/a", "t")).unwrap();
    tx.send(record("b", "/b", "t")).unwrap();
    assert_eq!(await_path("z", &rx, 1), None);
}

#[test]
fn take_if_match_keeps_only_the_wanted_record() {
    let hit = take_if_match(record("nwv://index.html", "/abs/index.html", "text/html"), "nwv://index.html");
    assert_eq!(
        hit,
        Some(record("nwv://index.html", "/abs/index.html", "text/html"))
    );
    let miss = take_if_match(record("nwv://other.css", "/abs/other.css", "text/css"), "nwv://index.html");
    assert_eq!(miss, None);
}
