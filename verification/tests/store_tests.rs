use rsky_feedgen::auth::AuthError;
use rsky_feedgen::checkpoint::{
    checkpoint_error_envelope, get_cursor, handle_get_cursor, handle_update_cursor,
    CheckpointError, CursorLog,
};
use rsky_feedgen::shaping::NotFoundErrorCode;
use rsky_feedgen::feed::PostRef;
use rsky_feedgen::gateway::{handle_queue_creation, handle_queue_deletion};
use rsky_feedgen::ingest::{apply_batch, EventKind, IngestionEvent, WriteStore};

fn post(uri: &str, at: u64, uid: u64) -> PostRef {
    PostRef { uri: uri.to_string(), at, uid }
}

fn snapshot(store: &WriteStore) -> Vec<(String, u64, u64)> {
    store.posts.iter().map(|p| (p.uri.clone(), p.at, p.uid)).collect()
}

#[test]
fn batch_application_is_idempotent() {
    let mut store = WriteStore { posts: vec![post("at://existing", 30, 3)] };
    let batch = vec![
        IngestionEvent { kind: EventKind::Create, reference: post("at://existing", 30, 3) },
        IngestionEvent { kind: EventKind::Create, reference: post("at://new", 40, 4) },
        IngestionEvent { kind: EventKind::Delete, reference: post("", 99, 9) },
        IngestionEvent { kind: EventKind::Create, reference: post("at://old", 10, 1) },
    ];
    apply_batch(&mut store, &batch);
    let once = snapshot(&store);
    apply_batch(&mut store, &batch);
    let twice = snapshot(&store);
    assert_eq!(once, twice);
    assert_eq!(
        once,
        vec![
            ("at://new".to_string(), 40, 4),
            ("at://existing".to_string(), 30, 3),
            ("at://old".to_string(), 10, 1),
        ]
    );
}

#[test]
fn create_then_delete_in_one_batch_lets_the_last_event_win() {
    let mut store = WriteStore { posts: Vec::new() };
    let batch = vec![
        IngestionEvent { kind: EventKind::Create, reference: post("at://x", 5, 1) },
        IngestionEvent { kind: EventKind::Delete, reference: post("at://x", 5, 1) },
    ];
    apply_batch(&mut store, &batch);
    assert!(store.posts.is_empty());
    apply_batch(&mut store, &batch);
    assert!(store.posts.is_empty());
}

#[test]
fn queue_creation_without_key_mutates_nothing() {
    let mut store = WriteStore { posts: vec![post("at://keep", 10, 1)] };
    let before = snapshot(&store);
    let refs = vec![post("at://incoming", 20, 2)];
    let r = handle_queue_creation(Some("hunter2"), None, &mut store, &refs);
    assert_eq!(r, Err(AuthError::MissingCredential));
    assert_eq!(snapshot(&store), before);
}

#[test]
fn queue_creation_with_wrong_key_mutates_nothing() {
    let mut store = WriteStore { posts: vec![post("at://keep", 10, 1)] };
    let before = snapshot(&store);
    let refs = vec![post("at://incoming", 20, 2)];
    let r = handle_queue_creation(Some("hunter2"), Some("wrong"), &mut store, &refs);
    assert_eq!(r, Err(AuthError::InvalidCredential));
    assert_eq!(snapshot(&store), before);
}

#[test]
fn queue_creation_with_key_applies_in_feed_order() {
    let mut store = WriteStore { posts: Vec::new() };
    let refs = vec![post("at://older", 10, 1), post("at://newer", 20, 2)];
    let r = handle_queue_creation(Some("hunter2"), Some("hunter2"), &mut store, &refs);
    assert!(r.is_ok());
    assert_eq!(
        snapshot(&store),
        vec![("at://newer".to_string(), 20, 2), ("at://older".to_string(), 10, 1)]
    );
}

#[test]
fn queue_deletion_with_key_removes_only_named_refs() {
    let mut store = WriteStore { posts: vec![post("at://a", 20, 2), post("at://b", 10, 1)] };
    let refs = vec![post("at://a", 20, 2), post("", 99, 9)];
    let r = handle_queue_deletion(Some("hunter2"), Some("hunter2"), &mut store, &refs);
    assert!(r.is_ok());
    assert_eq!(snapshot(&store), vec![("at://b".to_string(), 10, 1)]);
}

#[test]
fn queue_deletion_without_key_mutates_nothing() {
    let mut store = WriteStore { posts: vec![post("at://a", 20, 2)] };
    let before = snapshot(&store);
    let refs = vec![post("at://a", 20, 2)];
    let r = handle_queue_deletion(None, Some("anything"), &mut store, &refs);
    assert_eq!(r, Err(AuthError::ConfigurationError));
    assert_eq!(snapshot(&store), before);
}

#[test]
fn checkpoint_write_then_lagging_read_never_invents_a_value() {
    let mut log = CursorLog { writes: Vec::new() };
    let r = handle_update_cursor(
        Some("hunter2"),
        Some("hunter2"),
        &mut log,
        "firehose".to_string(),
        42,
    );
    assert!(r.is_ok());
    // A replica that has applied nothing yet: absent, not invented.
    let r = get_cursor(&log, "firehose", 0);
    assert_eq!(r.err(), Some(CheckpointError::NoCheckpoint));
    // A caught-up replica returns exactly what was written, never more.
    let r = get_cursor(&log, "firehose", 1).unwrap();
    assert_eq!(r.service, "firehose");
    assert_eq!(r.sequence, 42);
}

#[test]
fn checkpoint_last_writer_wins_per_service() {
    let mut log = CursorLog { writes: Vec::new() };
    handle_update_cursor(Some("k"), Some("k"), &mut log, "firehose".to_string(), 41).unwrap();
    handle_update_cursor(Some("k"), Some("k"), &mut log, "backfill".to_string(), 7).unwrap();
    handle_update_cursor(Some("k"), Some("k"), &mut log, "firehose".to_string(), 42).unwrap();
    let r = get_cursor(&log, "firehose", 3).unwrap();
    assert_eq!(r.sequence, 42);
    let r = get_cursor(&log, "backfill", 3).unwrap();
    assert_eq!(r.sequence, 7);
    // A replica one write behind still serves the older firehose value.
    let r = get_cursor(&log, "firehose", 2).unwrap();
    assert_eq!(r.sequence, 41);
}

#[test]
fn failed_checkpoint_read_answers_with_the_not_found_envelope() {
    let log = CursorLog { writes: Vec::new() };
    let miss = get_cursor(&log, "firehose", 0).err().unwrap();
    assert_eq!(miss, CheckpointError::NoCheckpoint);
    let envelope = checkpoint_error_envelope(miss);
    assert_eq!(envelope.code, Some(NotFoundErrorCode::NotFoundError));
    assert_eq!(envelope.message.as_deref(), Some("Not Found"));
}

#[test]
fn checkpoint_update_without_key_mutates_nothing() {
    let mut log = CursorLog { writes: Vec::new() };
    let r = handle_update_cursor(Some("hunter2"), None, &mut log, "firehose".to_string(), 42);
    assert_eq!(r, Err(AuthError::MissingCredential));
    assert!(log.writes.is_empty());
}

#[test]
fn checkpoint_read_is_service_key_gated() {
    let log = CursorLog { writes: Vec::new() };
    let r = handle_get_cursor(Some("hunter2"), Some("bad"), &log, "firehose", 0);
    assert_eq!(r.err(), Some(CheckpointError::Unauthorized(AuthError::InvalidCredential)));
}
