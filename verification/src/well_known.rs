//! The well-known identity document: the service describes itself to peers,
//! but only when its configured identity actually names the configured
//! hostname; a mismatched or absent configuration answers not-found rather
//! than publishing a wrong identity.

use vstd::prelude::*;
use crate::shaping::{PathUnknownErrorMessageResponse, NotFoundErrorCode, resource_not_found};

verus! {

/// One service entry of the identity document.
#[derive(Debug)]
pub struct KnownService {
    /// Entry identifier.
    pub id: String,
    /// Entry type tag.
    pub service_type: String,
    /// Where the service is reachable.
    pub service_endpoint: String,
}

/// The identity document served at the well-known path.
#[derive(Debug)]
pub struct WellKnown {
    /// Document context identifiers.
    pub context: Vec<String>,
    /// The service's own identity.
    pub id: String,
    /// The service entries.
    pub service: Vec<KnownService>,
}

/// `suffix` closes `s`.
pub open spec fn suffix_of(suffix: Seq<char>, s: Seq<char>) -> bool {
    suffix.len() <= s.len() && s.subrange(s.len() - suffix.len(), s.len() as int) == suffix
}

/// Whether the text ends with the given suffix.
pub fn str_ends_with(s: &str, suffix: &str) -> (r: bool)
    ensures
        r == suffix_of(suffix@, s@),
{
    let n = s.unicode_len();
    let m = suffix.unicode_len();
    if m > n {
        return false;
    }
    let mut i: usize = 0;
    while i < m
        invariant
            n == s@.len(),
            m == suffix@.len(),
            m <= n,
            0 <= i <= m,
            forall|j: int| 0 <= j < i ==> s@[n - m + j] == suffix@[j],
        decreases m - i,
    {
        let cs = s.get_char(n - m + i);
        let cf = suffix.get_char(i);
        if cs != cf {
            proof {
                assert(s@.subrange(n as int - m, n as int)[i as int] != suffix@[i as int]);
            }
            return false;
        }
        i = i + 1;
    }
    proof {
        assert(s@.subrange(n as int - m, n as int) =~= suffix@);
    }
    true
}

/// Builds the identity document for the configured identity and hostname:
/// refused as not-found when no identity is configured or when the identity
/// does not end in the hostname; otherwise the fixed document naming this
/// service and its endpoint.
pub fn well_known_doc(service_did: Option<&str>, hostname: &str) -> (r: Result<
    WellKnown,
    PathUnknownErrorMessageResponse,
>)
    ensures
        service_did is None ==> r is Err,
        service_did is Some && !suffix_of(hostname@, service_did->0@) ==> r is Err,
        r is Err ==> r->Err_0.code == Some(NotFoundErrorCode::NotFoundError)
            && r->Err_0.message is Some && r->Err_0.message->0@ == "Not Found"@,
        service_did is Some && suffix_of(hostname@, service_did->0@) ==> {
            &&& r is Ok
            &&& r->Ok_0.id@ == service_did->0@
            &&& r->Ok_0.context@.len() == 1
            &&& r->Ok_0.context@[0]@ == "https://www.w3.org/ns/did/v1"@
            &&& r->Ok_0.service@.len() == 1
            &&& r->Ok_0.service@[0].id@ == "#bsky_fg"@
            &&& r->Ok_0.service@[0].service_type@ == "BskyFeedGenerator"@
            &&& r->Ok_0.service@[0].service_endpoint@ == "https://"@ + hostname@
        },
{
    let did = match service_did {
        None => { return Err(resource_not_found()) },
        Some(did) => did,
    };
    if !str_ends_with(did, hostname) {
        return Err(resource_not_found());
    }
    let mut endpoint = String::from_str("https://");
    endpoint.append(hostname);
    let entry = KnownService {
        id: String::from_str("#bsky_fg"),
        service_type: String::from_str("BskyFeedGenerator"),
        service_endpoint: endpoint,
    };
    let mut context: Vec<String> = Vec::new();
    context.push(String::from_str("https://www.w3.org/ns/did/v1"));
    let mut service: Vec<KnownService> = Vec::new();
    service.push(entry);
    Ok(WellKnown { context, id: did.to_owned(), service })
}

} // verus!
