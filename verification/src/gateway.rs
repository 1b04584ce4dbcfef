//! The endpoint pipelines: each inbound request passes its guard first, and
//! only then reaches business logic. A failed guard short-circuits with a
//! typed rejection and provably leaves the stores untouched; the optionally
//! authenticated serving path records its visitor telemetry exactly once,
//! whatever the serving outcome.

use vstd::prelude::*;
use crate::auth::{AuthError, RequestIdentity, service_key_guard};
use crate::codec::cursor_text;
use crate::feed::{FeedPage, FeedQuery, FeedStore, PostRef, ServingError, serve};
use crate::ingest::{
    EventKind, IngestionEvent, WriteStore, apply_batch_map, apply_create, apply_delete,
    lemma_apply_batch_snoc, store_map,
};
use crate::telemetry::{VisitorLog, record_request_visit, spec_anonymous_visitor};

verus! {

/// The process-wide configuration, loaded once before serving begins and
/// never mutated: the shared service-key secret (absent means misconfigured,
/// and every service-key-gated request is refused), this service's own
/// identity, and the hostname its identity document must name.
#[derive(Debug)]
pub struct ServiceConfig {
    /// Shared secret for machine-to-machine callers.
    pub service_key: Option<String>,
    /// This service's own identity; the audience session tokens must name.
    pub service_did: String,
    /// Hostname backing the well-known identity document.
    pub hostname: String,
}

/// The feed-skeleton endpoint: session token optional. Records exactly one
/// visitor record — the token's issuer and audience when authenticated, the
/// anonymous marker and this service's identity when not — and then serves
/// the page, whatever the telemetry or identity outcome.
pub fn handle_feed_skeleton(
    store: &FeedStore,
    visitors: &mut VisitorLog,
    identity: &RequestIdentity,
    service_did: &str,
    q: &FeedQuery,
) -> (r: Result<FeedPage, ServingError>)
    requires
        store.wf(),
    ensures
        final(visitors).visits@.len() == old(visitors).visits@.len() + 1,
        final(visitors).visits@.subrange(0, old(visitors).visits@.len() as int) == old(
            visitors,
        ).visits@,
        identity is Authenticated ==> final(visitors).visits@.last().visitor@
            == identity->Authenticated_0.issuer@ && final(visitors).visits@.last().service@
            == identity->Authenticated_0.audience@,
        identity is Anonymous ==> final(visitors).visits@.last().visitor@
            == spec_anonymous_visitor() && final(visitors).visits@.last().service@ == service_did@,
        !q.algo_ok() ==> r == Err::<FeedPage, ServingError>(ServingError::UnknownAlgorithm),
        q.algo_ok() && !q.cursor_usable() ==> r == Err::<FeedPage, ServingError>(
            ServingError::InvalidCursor,
        ),
        q.algo_ok() && q.cursor_usable() ==> {
            let start = q.start_index(store.posts@);
            let cnt = q.page_count(store.posts@);
            &&& r is Ok
            &&& 0 <= start <= store.posts@.len()
            &&& r->Ok_0.refs@.len() == cnt
            &&& forall|m: int|
                0 <= m < cnt ==> r->Ok_0.refs@[m].uri@ == store.posts@[start + m].uri@
                    && r->Ok_0.refs@[m].at == store.posts@[start + m].at && r->Ok_0.refs@[m].uid
                    == store.posts@[start + m].uid
            &&& cnt > 0 ==> r->Ok_0.cursor is Some && r->Ok_0.cursor->0@ == cursor_text(
                store.posts@[start + cnt - 1].at as nat,
                store.posts@[start + cnt - 1].uid as nat,
            )
            &&& cnt == 0 ==> r->Ok_0.cursor is None
        },
{
    record_request_visit(visitors, identity, service_did);
    serve(store, q)
}

/// A creation batch as ingestion events, in order.
pub open spec fn creates_of(refs: Seq<PostRef>) -> Seq<IngestionEvent> {
    refs.map_values(|p: PostRef| (IngestionEvent { kind: EventKind::Create, reference: p }))
}

/// A deletion batch as ingestion events, in order.
pub open spec fn deletes_of(refs: Seq<PostRef>) -> Seq<IngestionEvent> {
    refs.map_values(|p: PostRef| (IngestionEvent { kind: EventKind::Delete, reference: p }))
}

/// The queue-create endpoint: service-key gated. A failed guard mutates
/// nothing; a passed guard applies the whole batch, in order, as creates.
pub fn handle_queue_creation(
    configured: Option<&str>,
    key_header: Option<&str>,
    store: &mut WriteStore,
    refs: &Vec<PostRef>,
) -> (r: Result<(), AuthError>)
    requires
        old(store).wf(),
    ensures
        r is Err ==> final(store).posts@ == old(store).posts@,
        configured is None ==> r == Err::<(), AuthError>(AuthError::ConfigurationError),
        configured is Some && key_header is None ==> r == Err::<(), AuthError>(
            AuthError::MissingCredential,
        ),
        configured is Some && key_header is Some && key_header->0@ != configured->0@ ==> r
            == Err::<(), AuthError>(AuthError::InvalidCredential),
        configured is Some && key_header is Some && key_header->0@ == configured->0@ ==> {
            &&& r is Ok
            &&& final(store).wf()
            &&& store_map(final(store).posts@) == apply_batch_map(
                store_map(old(store).posts@),
                creates_of(refs@),
            )
        },
{
    match service_key_guard(configured, key_header) {
        Err(e) => Err(e),
        Ok(_) => {
            let ghost m0 = store_map(store.posts@);
            let ghost es = creates_of(refs@);
            let n = refs.len();
            let mut i: usize = 0;
            while i < n
                invariant
                    n == refs@.len(),
                    es == creates_of(refs@),
                    0 <= i <= n,
                    store.wf(),
                    store_map(store.posts@) == apply_batch_map(m0, es.subrange(0, i as int)),
                decreases n - i,
            {
                proof {
                    assert(es.subrange(0, i + 1) =~= es.subrange(0, i as int).push(
                        es[i as int],
                    ));
                    lemma_apply_batch_snoc(m0, es.subrange(0, i as int), es[i as int]);
                    assert(es[i as int] == (IngestionEvent {
                        kind: EventKind::Create,
                        reference: refs@[i as int],
                    }));
                }
                apply_create(store, &refs[i]);
                i = i + 1;
            }
            proof {
                assert(es.subrange(0, n as int) =~= es);
            }
            Ok(())
        },
    }
}

/// The queue-delete endpoint: service-key gated. A failed guard mutates
/// nothing; a passed guard applies the whole batch, in order, as deletes.
pub fn handle_queue_deletion(
    configured: Option<&str>,
    key_header: Option<&str>,
    store: &mut WriteStore,
    refs: &Vec<PostRef>,
) -> (r: Result<(), AuthError>)
    requires
        old(store).wf(),
    ensures
        r is Err ==> final(store).posts@ == old(store).posts@,
        configured is None ==> r == Err::<(), AuthError>(AuthError::ConfigurationError),
        configured is Some && key_header is None ==> r == Err::<(), AuthError>(
            AuthError::MissingCredential,
        ),
        configured is Some && key_header is Some && key_header->0@ != configured->0@ ==> r
            == Err::<(), AuthError>(AuthError::InvalidCredential),
        configured is Some && key_header is Some && key_header->0@ == configured->0@ ==> {
            &&& r is Ok
            &&& final(store).wf()
            &&& store_map(final(store).posts@) == apply_batch_map(
                store_map(old(store).posts@),
                deletes_of(refs@),
            )
        },
{
    match service_key_guard(configured, key_header) {
        Err(e) => Err(e),
        Ok(_) => {
            let ghost m0 = store_map(store.posts@);
            let ghost es = deletes_of(refs@);
            let n = refs.len();
            let mut i: usize = 0;
            while i < n
                invariant
                    n == refs@.len(),
                    es == deletes_of(refs@),
                    0 <= i <= n,
                    store.wf(),
                    store_map(store.posts@) == apply_batch_map(m0, es.subrange(0, i as int)),
                decreases n - i,
            {
                proof {
                    assert(es.subrange(0, i + 1) =~= es.subrange(0, i as int).push(
                        es[i as int],
                    ));
                    lemma_apply_batch_snoc(m0, es.subrange(0, i as int), es[i as int]);
                    assert(es[i as int] == (IngestionEvent {
                        kind: EventKind::Delete,
                        reference: refs@[i as int],
                    }));
                }
                let target = &refs[i];
                apply_delete(store, target.at, target.uid);
                i = i + 1;
            }
            proof {
                assert(es.subrange(0, n as int) =~= es);
            }
            Ok(())
        },
    }
}

} // verus!
