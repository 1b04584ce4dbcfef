use rsky_feedgen::auth::{accept_claims, RequestIdentity};
use rsky_feedgen::codec::{format_cursor, parse_cursor, u64_to_dec, parse_dec};
use rsky_feedgen::feed::{
    effective_limit, serve, supported_feed_uri, FeedQuery, FeedStore, PostRef, ServingError,
};
use rsky_feedgen::gateway::handle_feed_skeleton;
use rsky_feedgen::telemetry::VisitorLog;

fn post(uri: &str, at: u64, uid: u64) -> PostRef {
    PostRef { uri: uri.to_string(), at, uid }
}

fn five_post_store() -> FeedStore {
    FeedStore {
        posts: vec![
            post("at://a", 50, 1),
            post("at://b", 40, 2),
            post("at://c", 30, 3),
            post("at://d", 20, 4),
            post("at://e", 10, 5),
        ],
    }
}

fn query(feed: Option<&str>, limit: Option<i64>, cursor: Option<String>) -> FeedQuery {
    FeedQuery { feed: feed.map(|f| f.to_string()), limit, cursor }
}

#[test]
fn decimal_codec_round_trip() {
    assert_eq!(u64_to_dec(0), "0");
    assert_eq!(u64_to_dec(42), "42");
    assert_eq!(u64_to_dec(u64::MAX), "18446744073709551615");
    assert_eq!(parse_dec("18446744073709551615"), Some(u64::MAX));
    assert_eq!(parse_dec("18446744073709551616"), None);
    assert_eq!(parse_dec(""), None);
    assert_eq!(parse_dec("12a"), None);
}

#[test]
fn cursor_codec_round_trip() {
    assert_eq!(format_cursor(42, 7), "42::7");
    assert_eq!(parse_cursor("42::7"), Some((42, 7)));
    assert_eq!(parse_cursor("abc"), None);
    assert_eq!(parse_cursor("42:7"), None);
    assert_eq!(parse_cursor("::5"), None);
    assert_eq!(parse_cursor("42::"), None);
    assert_eq!(parse_cursor("42::x"), None);
}

#[test]
fn effective_limit_is_clamped() {
    assert_eq!(effective_limit(None), 50);
    assert_eq!(effective_limit(Some(-5)), 0);
    assert_eq!(effective_limit(Some(7)), 7);
    assert_eq!(effective_limit(Some(1000)), 100);
}

#[test]
fn unknown_algorithm_is_refused_not_emptied() {
    let store = five_post_store();
    let r = serve(&store, &query(Some("at://someone/other-feed"), None, None));
    assert_eq!(r.err(), Some(ServingError::UnknownAlgorithm));
    let r = serve(&store, &query(None, None, None));
    assert_eq!(r.err(), Some(ServingError::UnknownAlgorithm));
}

#[test]
fn malformed_cursor_is_refused() {
    let store = five_post_store();
    let uri = supported_feed_uri();
    let r = serve(&store, &query(Some(&uri), None, Some("not-a-cursor".to_string())));
    assert_eq!(r.err(), Some(ServingError::InvalidCursor));
}

#[test]
fn pagination_enumerates_every_post_exactly_once() {
    let store = five_post_store();
    let uri = supported_feed_uri();
    let mut seen: Vec<String> = Vec::new();
    let mut cursor: Option<String> = None;
    let mut rounds = 0;
    loop {
        let page = serve(&store, &query(Some(&uri), Some(2), cursor.clone())).unwrap();
        if page.refs.is_empty() {
            assert!(page.cursor.is_none());
            break;
        }
        for r in &page.refs {
            seen.push(r.uri.clone());
        }
        cursor = page.cursor.clone();
        assert!(cursor.is_some());
        rounds += 1;
        assert!(rounds <= 5);
    }
    assert_eq!(seen, vec!["at://a", "at://b", "at://c", "at://d", "at://e"]);
}

#[test]
fn first_page_cursor_names_last_served_post() {
    let store = five_post_store();
    let uri = supported_feed_uri();
    let page = serve(&store, &query(Some(&uri), Some(2), None)).unwrap();
    assert_eq!(page.refs.len(), 2);
    assert_eq!(page.refs[0].uri, "at://a");
    assert_eq!(page.refs[1].uri, "at://b");
    assert_eq!(page.cursor.as_deref(), Some("40::2"));
}

#[test]
fn anonymous_request_records_one_visitor_for_host_service() {
    let store = five_post_store();
    let uri = supported_feed_uri();
    let mut visitors = VisitorLog { visits: Vec::new() };
    let q = query(Some(&uri), Some(2), None);
    let r = handle_feed_skeleton(
        &store,
        &mut visitors,
        &RequestIdentity::Anonymous,
        "did:web:feedgen.test",
        &q,
    );
    assert!(r.is_ok());
    assert_eq!(visitors.visits.len(), 1);
    assert_eq!(visitors.visits[0].visitor, "anonymous");
    assert_eq!(visitors.visits[0].service, "did:web:feedgen.test");
}

#[test]
fn authenticated_request_attributes_visit_to_claims() {
    let store = five_post_store();
    let uri = supported_feed_uri();
    let claims = accept_claims(
        Some("{\"iss\":\"did:example:alice\",\"aud\":\"did:web:feedgen.test\"}"),
        "did:web:feedgen.test",
    )
    .unwrap();
    let mut visitors = VisitorLog { visits: Vec::new() };
    let q = query(Some(&uri), None, None);
    let r = handle_feed_skeleton(
        &store,
        &mut visitors,
        &RequestIdentity::Authenticated(claims),
        "did:web:feedgen.test",
        &q,
    );
    assert!(r.is_ok());
    assert_eq!(visitors.visits.len(), 1);
    assert_eq!(visitors.visits[0].visitor, "did:example:alice");
    assert_eq!(visitors.visits[0].service, "did:web:feedgen.test");
}

#[test]
fn telemetry_failure_never_hides_serving_errors_or_results() {
    // Telemetry is recorded even when serving then fails: the visit record
    // exists although the algorithm was unknown.
    let store = five_post_store();
    let mut visitors = VisitorLog { visits: Vec::new() };
    let q = query(Some("at://nope"), None, None);
    let r = handle_feed_skeleton(
        &store,
        &mut visitors,
        &RequestIdentity::Anonymous,
        "did:web:feedgen.test",
        &q,
    );
    assert_eq!(r.err(), Some(ServingError::UnknownAlgorithm));
    assert_eq!(visitors.visits.len(), 1);
}
