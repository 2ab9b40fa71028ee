use server::cache::{load, save};
use server::snapshot::Snapshot;

#[test]
fn absent_cache_file_is_empty() {
    assert_eq!(load(None).len(), 0);
}

#[test]
fn empty_cache_file_is_empty() {
    assert_eq!(load(Some(b"")).len(), 0);
}

#[test]
fn empty_object_is_empty() {
    assert_eq!(load(Some(b"{}")).len(), 0);
}

#[test]
fn malformed_cache_file_is_empty() {
    assert_eq!(load(Some(b"{\"/a\": 1")).len(), 0);
    assert_eq!(load(Some(b"not json")).len(), 0);
    assert_eq!(load(Some(b"[1, 2]")).len(), 0);
    assert_eq!(load(Some(b"{\"/a\": \"yesterday\"}")).len(), 0);
    assert_eq!(load(Some(b"{\"/a\": 1.5}")).len(), 0);
    assert_eq!(load(Some(&[0xff, 0xfe])).len(), 0);
}

#[test]
fn well_formed_cache_file_is_read() {
    let s = load(Some(b"{\"/client/a.css\": 1700000000, \"/client/b.ts\": -5}"));
    assert_eq!(s.len(), 2);
    assert_eq!(s.get("/client/a.css"), Some(1700000000));
    assert_eq!(s.get("/client/b.ts"), Some(-5));
}

#[test]
fn repeated_key_keeps_its_last_time() {
    let s = load(Some(b"{\"/a\": 1, \"/a\": 2}"));
    assert_eq!(s.len(), 1);
    assert_eq!(s.get("/a"), Some(2));
}

#[test]
fn empty_snapshot_is_written_as_empty_object() {
    assert_eq!(save(&Snapshot::new()), Some(b"{}".to_vec()));
}

#[test]
fn snapshot_is_written_as_pretty_json() {
    let mut s = Snapshot::new();
    s.insert("/b".to_string(), 2);
    s.insert("/a".to_string(), 1);
    let text = String::from_utf8(save(&s).unwrap()).unwrap();
    assert_eq!(text, "{\n  \"/a\": 1,\n  \"/b\": 2\n}");
}

#[test]
fn written_text_does_not_depend_on_the_order_of_recording() {
    let mut a = Snapshot::new();
    a.insert("/x".to_string(), 1);
    a.insert("/y".to_string(), 2);
    let mut b = Snapshot::new();
    b.insert("/y".to_string(), 2);
    b.insert("/x".to_string(), 1);
    assert_eq!(save(&a), save(&b));
}

#[test]
fn cache_round_trip() {
    let mut s = Snapshot::new();
    s.insert("/client/input.css".to_string(), 1_700_000_000);
    s.insert("/client/src/index.tsx".to_string(), i64::MAX);
    s.insert("/client/odd \"name\"\n\\.ts".to_string(), i64::MIN);
    s.insert("/client/\u{00e9}\u{4e2d}.css".to_string(), 0);
    let text = save(&s).unwrap();
    let back = load(Some(&text));
    assert!(!back.differs(&s));
    assert_eq!(back.len(), 4);
    assert_eq!(save(&back), Some(text));
}

#[test]
fn round_trip_of_a_read_file() {
    let first = load(Some(b"{\"/b\":2,\"/a\":1}"));
    let text = save(&first).unwrap();
    let second = load(Some(&text));
    assert!(!first.differs(&second));
    assert_eq!(second.get("/a"), Some(1));
    assert_eq!(second.get("/b"), Some(2));
}

#[test]
fn nothing_read_recovers_to_the_empty_snapshot() {
    assert_eq!(server::cache::recover(None).len(), 0);
}

#[test]
fn read_files_recover_to_their_snapshot() {
    let list = vec![
        server::snapshot::FileTimestamp { path: "/a".to_string(), mtime: 1 },
        server::snapshot::FileTimestamp { path: "/b".to_string(), mtime: 2 },
    ];
    let s = server::cache::recover(Some(list));
    assert_eq!(s.len(), 2);
    assert_eq!(s.get("/a"), Some(1));
    assert_eq!(s.get("/b"), Some(2));
}
