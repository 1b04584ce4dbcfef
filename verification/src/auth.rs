//! Dual-mode authentication gateway: a machine-to-machine service-key guard
//! checked against a process-wide shared secret, and a user-facing
//! session-token guard that strips the bearer scheme, hands the token to an
//! external signature verifier, and accepts the decoded claims only when
//! their audience names this service.

use vstd::prelude::*;

verus! {

/// Compares two strings in constant time with respect to their contents:
/// every character position is inspected whether or not an earlier position
/// already differs, so the running time depends only on the lengths.
pub fn constant_time_eq(a: &str, b: &str) -> (r: bool)
    ensures
        r == (a@ == b@),
{
    let a_len = a.unicode_len();
    let b_len = b.unicode_len();
    if a_len != b_len {
        return false;
    }
    let mut diff: u32 = 0;
    let mut i: usize = 0;
    proof {
        assert(a@.subrange(0, 0) =~= b@.subrange(0, 0));
    }
    while i < a_len
        invariant
            a_len == a@.len(),
            b_len == b@.len(),
            a_len == b_len,
            0 <= i <= a_len,
            (diff == 0) == (a@.subrange(0, i as int) == b@.subrange(0, i as int)),
        decreases a_len - i,
    {
        let ca = a.get_char(i) as u32;
        let cb = b.get_char(i) as u32;
        let step = ca ^ cb;
        proof {
            assert((ca ^ cb == 0) == (ca == cb)) by (bit_vector);
            assert((diff | step == 0) == (diff == 0 && step == 0)) by (bit_vector);
            assert(a@.subrange(0, i + 1) == a@.subrange(0, i as int).push(a@[i as int]));
            assert(b@.subrange(0, i + 1) == b@.subrange(0, i as int).push(b@[i as int]));
            if diff == 0 && step == 0 {
                assert(a@.subrange(0, i + 1) == b@.subrange(0, i + 1));
            }
            if diff != 0 {
                assert(a@.subrange(0, i + 1).subrange(0, i as int) =~= a@.subrange(0, i as int));
                assert(b@.subrange(0, i + 1).subrange(0, i as int) =~= b@.subrange(0, i as int));
                assert(a@.subrange(0, i + 1) != b@.subrange(0, i + 1));
            } else if step != 0 {
                assert(a@[i as int] as u32 != b@[i as int] as u32);
                assert(a@.subrange(0, i + 1)[i as int] != b@.subrange(0, i + 1)[i as int]);
                assert(a@.subrange(0, i + 1) != b@.subrange(0, i + 1));
            }
        }
        diff = diff | step;
        i = i + 1;
    }
    proof {
        assert(a@.subrange(0, a_len as int) == a@);
        assert(b@.subrange(0, b_len as int) == b@);
    }
    diff == 0
}

/// Failure of either guard pipeline.
#[derive(Debug, Clone, Copy, PartialEq, Eq, Structural)]
pub enum AuthError {
    /// The expected credential header was not present at all.
    MissingCredential,
    /// A credential was presented but did not check out.
    InvalidCredential,
    /// The process has no shared secret configured; surfaced to callers as a
    /// generic bad request so configuration state does not leak.
    ConfigurationError,
}

/// Decoded result of a verified bearer token, valid for one request.
#[derive(Debug, Clone)]
pub struct SessionClaims {
    /// The identity that the token was issued to (`iss`).
    pub issuer: String,
    /// The identity the token is addressed to (`aud`); must equal the
    /// configured service identity for the claims to be trusted.
    pub audience: String,
    /// The raw payload the external verifier handed back.
    pub raw: String,
}

/// A request's resolved identity, produced once by the gateway and passed to
/// downstream logic instead of re-deriving "did the guard fail" at each use.
#[derive(Debug, Clone)]
pub enum RequestIdentity {
    /// The session-token guard verified a token and accepted its claims.
    Authenticated(SessionClaims),
    /// No token, or the guard failed; endpoints that allow this continue.
    Anonymous,
}

/// Machine-to-machine guard: compares the presented key header against the
/// configured shared secret, in constant time. Never consults any store.
pub fn service_key_guard(configured: Option<&str>, header: Option<&str>) -> (r: Result<
    String,
    AuthError,
>)
    ensures
        configured is None ==> r == Err::<String, AuthError>(AuthError::ConfigurationError),
        configured is Some && header is None ==> r == Err::<String, AuthError>(
            AuthError::MissingCredential,
        ),
        configured is Some && header is Some && header->0@ != configured->0@ ==> r == Err::<
            String,
            AuthError,
        >(AuthError::InvalidCredential),
        configured is Some && header is Some && header->0@ == configured->0@ ==> r is Ok
            && r->Ok_0@ == header->0@,
{
    match configured {
        None => Err(AuthError::ConfigurationError),
        Some(secret) => match header {
            None => Err(AuthError::MissingCredential),
            Some(key) => {
                if constant_time_eq(key, secret) {
                    Ok(key.to_owned())
                } else {
                    Err(AuthError::InvalidCredential)
                }
            },
        },
    }
}

/// The scheme marker that a session-token header must open with.
pub open spec fn has_bearer_prefix(s: Seq<char>) -> bool {
    s.len() >= 7 && s.subrange(0, 7) == "Bearer "@
}

/// The chunk of `s` after its last space: what splitting on single spaces
/// leaves as the final piece, and hence the token part of a bearer header.
pub open spec fn after_last_space(s: Seq<char>) -> Seq<char>
    decreases s.len(),
{
    if s.len() == 0 {
        s
    } else if s.last() == ' ' {
        Seq::empty()
    } else {
        after_last_space(s.drop_last()).push(s.last())
    }
}

proof fn lemma_after_last_space(s: Seq<char>, k: int)
    requires
        0 <= k <= s.len(),
        forall|j: int| k <= j < s.len() ==> s[j] != ' ',
        k > 0 ==> s[k - 1] == ' ',
    ensures
        after_last_space(s) == s.subrange(k, s.len() as int),
    decreases s.len(),
{
    if s.len() == 0 {
        assert(after_last_space(s) =~= s.subrange(k, s.len() as int));
    } else if s.last() == ' ' {
        assert(k == s.len());
        assert(after_last_space(s) =~= s.subrange(k, s.len() as int));
    } else {
        assert(k < s.len());
        let t = s.drop_last();
        lemma_after_last_space(t, k);
        assert(t.subrange(k, t.len() as int) =~= s.subrange(k, s.len() as int).drop_last());
        assert(after_last_space(s) =~= s.subrange(k, s.len() as int));
    }
}

/// Session-token guard, first stage: reject an absent header or a wrong
/// scheme marker, and hand back the token text to be given to the external
/// signature verifier.
pub fn extract_bearer(header: Option<&str>) -> (r: Result<String, AuthError>)
    ensures
        header is None ==> r == Err::<String, AuthError>(AuthError::MissingCredential),
        header is Some && !has_bearer_prefix(header->0@) ==> r == Err::<String, AuthError>(
            AuthError::InvalidCredential,
        ),
        header is Some && has_bearer_prefix(header->0@) ==> r is Ok && r->Ok_0@
            == after_last_space(header->0@),
{
    let h = match header {
        None => { return Err(AuthError::MissingCredential) },
        Some(h) => h,
    };
    let n = h.unicode_len();
    proof {
        reveal_strlit("Bearer ");
    }
    let prefix_ok = n >= 7 && h.get_char(0) == 'B' && h.get_char(1) == 'e' && h.get_char(2) == 'a'
        && h.get_char(3) == 'r' && h.get_char(4) == 'e' && h.get_char(5) == 'r' && h.get_char(6)
        == ' ';
    proof {
        if prefix_ok {
            assert(h@.subrange(0, 7) =~= "Bearer "@);
        } else if n >= 7 && h@.subrange(0, 7) == "Bearer "@ {
            assert(h@[0] == "Bearer "@[0]) by {
                assert(h@.subrange(0, 7)[0] == h@[0]);
            }
            assert(h@[1] == "Bearer "@[1]) by {
                assert(h@.subrange(0, 7)[1] == h@[1]);
            }
            assert(h@[2] == "Bearer "@[2]) by {
                assert(h@.subrange(0, 7)[2] == h@[2]);
            }
            assert(h@[3] == "Bearer "@[3]) by {
                assert(h@.subrange(0, 7)[3] == h@[3]);
            }
            assert(h@[4] == "Bearer "@[4]) by {
                assert(h@.subrange(0, 7)[4] == h@[4]);
            }
            assert(h@[5] == "Bearer "@[5]) by {
                assert(h@.subrange(0, 7)[5] == h@[5]);
            }
            assert(h@[6] == "Bearer "@[6]) by {
                assert(h@.subrange(0, 7)[6] == h@[6]);
            }
            assert(false);
        }
    }
    if !prefix_ok {
        return Err(AuthError::InvalidCredential);
    }
    let mut start: usize = 0;
    let mut i: usize = 0;
    while i < n
        invariant
            n == h@.len(),
            0 <= start <= i <= n,
            forall|j: int| start <= j < i ==> h@[j] != ' ',
            start > 0 ==> h@[start - 1] == ' ',
        decreases n - i,
    {
        if h.get_char(i) == ' ' {
            start = i + 1;
        }
        i = i + 1;
    }
    let token = h.substring_char(start, n);
    proof {
        lemma_after_last_space(h@, start as int);
    }
    Ok(token.to_owned())
}

/// What the claims of a token payload decode to: the `(iss, aud)` pair of the
/// JSON document, or nothing when the text is not such a document. The decode
/// of a given text is a fixed value, so it only carries a name here; the
/// trusted decoder below ties the name to the outside parser.
pub uninterp spec fn jwt_claims_of(s: Seq<char>) -> Option<(Seq<char>, Seq<char>)>;

/// Relies on serde_json::from_str::<serde_json::Value> together with
/// serde_json::Value::get and serde_json::Value::as_str: parsing a JSON text
/// and reading its `iss` and `aud` string fields depends on the text alone.
#[verifier::external_body]
fn decode_claims_json(s: &str) -> (r: Option<(String, String)>)
    ensures
        r is Some <==> jwt_claims_of(s@) is Some,
        r is Some ==> ((r->Some_0).0@, (r->Some_0).1@) == jwt_claims_of(s@)->Some_0,
{
    match serde_json::from_str::<serde_json::Value>(s) {
        Ok(doc) => match (
            doc.get("iss").and_then(serde_json::Value::as_str),
            doc.get("aud").and_then(serde_json::Value::as_str),
        ) {
            (Some(iss), Some(aud)) => Some((iss.to_owned(), aud.to_owned())),
            _ => None,
        },
        Err(_) => None,
    }
}

/// Session-token guard, second stage: given what the external signature
/// verifier produced for the extracted token (`None` when the signature,
/// validity window, or encoding failed), decode the payload into claims and
/// accept them only when their audience is this process's own service
/// identity. A well-signed token for some other audience is rejected.
pub fn accept_claims(payload: Option<&str>, service_did: &str) -> (r: Result<
    SessionClaims,
    AuthError,
>)
    ensures
        payload is None ==> r == Err::<SessionClaims, AuthError>(AuthError::InvalidCredential),
        payload is Some && jwt_claims_of(payload->0@) is None ==> r == Err::<
            SessionClaims,
            AuthError,
        >(AuthError::InvalidCredential),
        payload is Some && jwt_claims_of(payload->0@) is Some && jwt_claims_of(
            payload->0@,
        )->Some_0.1 != service_did@ ==> r == Err::<SessionClaims, AuthError>(
            AuthError::InvalidCredential,
        ),
        payload is Some && jwt_claims_of(payload->0@) is Some && jwt_claims_of(
            payload->0@,
        )->Some_0.1 == service_did@ ==> r is Ok && r->Ok_0.issuer@ == jwt_claims_of(
            payload->0@,
        )->Some_0.0 && r->Ok_0.audience@ == service_did@ && r->Ok_0.raw@ == payload->0@,
{
    let text = match payload {
        None => { return Err(AuthError::InvalidCredential) },
        Some(text) => text,
    };
    match decode_claims_json(text) {
        None => Err(AuthError::InvalidCredential),
        Some((issuer, audience)) => {
            if constant_time_eq(audience.as_str(), service_did) {
                Ok(SessionClaims { issuer, audience, raw: text.to_owned() })
            } else {
                Err(AuthError::InvalidCredential)
            }
        },
    }
}

/// Folds a session guard outcome into the tagged identity that endpoints with
/// optional authentication branch on.
pub fn resolve_identity(outcome: Result<SessionClaims, AuthError>) -> (r: RequestIdentity)
    ensures
        outcome is Ok ==> r is Authenticated && r->Authenticated_0 == outcome->Ok_0,
        outcome is Err ==> r is Anonymous,
{
    match outcome {
        Ok(claims) => RequestIdentity::Authenticated(claims),
        Err(_) => RequestIdentity::Anonymous,
    }
}

} // verus!
