//! Visitor telemetry: one append-only record per feed-skeleton request,
//! attributing the visit to the resolved identity — or to the anonymous
//! identity and the host service when no identity was resolved. Telemetry is
//! best effort and never a reason to refuse serving.

use vstd::prelude::*;
use crate::auth::RequestIdentity;

verus! {

/// One visit: who consumed the feed, and which service identity issued the
/// credential the visit was resolved from.
#[derive(Debug)]
pub struct VisitorRecord {
    /// The visiting identity, or the anonymous marker.
    pub visitor: String,
    /// The issuing service identity the visit is attributed to.
    pub service: String,
}

/// The append-only visitor log.
#[derive(Debug)]
pub struct VisitorLog {
    /// Records in arrival order; never updated or deleted.
    pub visits: Vec<VisitorRecord>,
}

/// The marker recorded for a request with no resolved identity.
pub open spec fn spec_anonymous_visitor() -> Seq<char> {
    "anonymous"@
}

/// Appends one visit record. Append-only: everything already logged stays.
pub fn record_visit(log: &mut VisitorLog, visitor: String, service: String)
    ensures
        final(log).visits@.len() == old(log).visits@.len() + 1,
        final(log).visits@.subrange(0, old(log).visits@.len() as int) == old(log).visits@,
        final(log).visits@.last().visitor@ == visitor@,
        final(log).visits@.last().service@ == service@,
{
    log.visits.push(VisitorRecord { visitor, service });
    proof {
        assert(log.visits@.subrange(0, old(log).visits@.len() as int) =~= old(log).visits@);
    }
}

/// Records the visit for a request's resolved identity: an authenticated
/// visit is attributed to the token's issuer and audience; an anonymous one
/// to the anonymous marker and this process's own service identity.
pub fn record_request_visit(log: &mut VisitorLog, identity: &RequestIdentity, service_did: &str)
    ensures
        final(log).visits@.len() == old(log).visits@.len() + 1,
        final(log).visits@.subrange(0, old(log).visits@.len() as int) == old(log).visits@,
        identity is Authenticated ==> final(log).visits@.last().visitor@
            == identity->Authenticated_0.issuer@ && final(log).visits@.last().service@
            == identity->Authenticated_0.audience@,
        identity is Anonymous ==> final(log).visits@.last().visitor@ == spec_anonymous_visitor()
            && final(log).visits@.last().service@ == service_did@,
{
    match identity {
        RequestIdentity::Authenticated(claims) => {
            record_visit(log, claims.issuer.clone(), claims.audience.clone());
        },
        RequestIdentity::Anonymous => {
            record_visit(log, String::from_str("anonymous"), service_did.to_owned());
        },
    }
}

} // verus!
