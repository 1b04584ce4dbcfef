use rsky_feedgen::account::{
    check_eligibility, dispatch_with_token, plan_account_delete, plan_email_confirmation,
    request_account_delete, request_email_confirmation, Account, AccountDirectory, TokenPurpose,
    WorkflowError,
};
use rsky_feedgen::shaping::{
    bad_request, default_catcher, not_found, resource_not_found, unauthorized,
    unprocessable_entity, workflow_error_envelope, ErrorCode, InternalErrorCode,
    NotFoundErrorCode, CORS,
};
use rsky_feedgen::well_known::{str_ends_with, well_known_doc};

fn directory() -> AccountDirectory {
    AccountDirectory {
        accounts: vec![
            Account {
                did: "did:example:alice".to_string(),
                email: Some("alice@example.com".to_string()),
                deactivated: false,
                taken_down: false,
            },
            Account {
                did: "did:example:bob".to_string(),
                email: None,
                deactivated: false,
                taken_down: false,
            },
            Account {
                did: "did:example:carol".to_string(),
                email: Some("carol@example.com".to_string()),
                deactivated: true,
                taken_down: true,
            },
        ],
    }
}

#[test]
fn missing_account_is_refused() {
    let dir = directory();
    assert_eq!(check_eligibility(&dir, "did:example:nobody"), Err(WorkflowError::AccountNotFound));
}

#[test]
fn no_email_refuses_issuance_for_both_purposes() {
    let dir = directory();
    assert_eq!(plan_account_delete(&dir, "did:example:bob").err(), Some(WorkflowError::NoEmailOnFile));
    assert_eq!(
        plan_email_confirmation(&dir, "did:example:bob").err(),
        Some(WorkflowError::NoEmailOnFile)
    );
}

#[test]
fn issuance_targets_the_accounts_own_email() {
    let dir = directory();
    let order = plan_account_delete(&dir, "did:example:alice").unwrap();
    assert_eq!(order.did, "did:example:alice");
    assert_eq!(order.purpose, TokenPurpose::DeleteAccount);
    assert_eq!(order.email, "alice@example.com");
    let dispatch = dispatch_with_token(order, "token-123".to_string());
    assert_eq!(dispatch.email, "alice@example.com");
    assert_eq!(dispatch.token, "token-123");
    assert_eq!(dispatch.purpose, TokenPurpose::DeleteAccount);
}

#[test]
fn deactivated_and_taken_down_accounts_still_get_tokens() {
    let dir = directory();
    let order = plan_email_confirmation(&dir, "did:example:carol").unwrap();
    assert_eq!(order.purpose, TokenPurpose::ConfirmEmail);
    assert_eq!(order.email, "carol@example.com");
}

#[test]
fn workflow_errors_collapse_to_one_opaque_envelope() {
    let a = workflow_error_envelope(WorkflowError::AccountNotFound);
    let b = workflow_error_envelope(WorkflowError::NoEmailOnFile);
    assert_eq!(a.code, Some(InternalErrorCode::InternalError));
    assert_eq!(b.code, Some(InternalErrorCode::InternalError));
    assert_eq!(a.message, b.message);
    assert_eq!(a.message.as_deref(), Some("Internal error."));
}

#[test]
fn endpoint_refusals_are_indistinguishable_on_the_wire() {
    let dir = directory();
    let missing = request_account_delete(&dir, "did:example:nobody").err().unwrap();
    let no_email = request_account_delete(&dir, "did:example:bob").err().unwrap();
    assert_eq!(missing.code, no_email.code);
    assert_eq!(missing.message, no_email.message);
    let ok = request_email_confirmation(&dir, "did:example:alice").unwrap();
    assert_eq!(ok.purpose, TokenPurpose::ConfirmEmail);
    assert_eq!(ok.email, "alice@example.com");
}

#[test]
fn error_envelopes_carry_fixed_generic_messages() {
    let r = not_found();
    assert_eq!(r.code, Some(NotFoundErrorCode::UndefinedEndpoint));
    assert_eq!(r.message.as_deref(), Some("Not Found"));
    let r = resource_not_found();
    assert_eq!(r.code, Some(NotFoundErrorCode::NotFoundError));
    assert_eq!(r.message.as_deref(), Some("Not Found"));
    let r = bad_request();
    assert_eq!(r.code, Some(ErrorCode::ValidationError));
    assert_eq!(r.message.as_deref(), Some("The request was improperly formed."));
    let r = unprocessable_entity();
    assert_eq!(
        r.message.as_deref(),
        Some("The request was well-formed but was unable to be followed due to semantic errors.")
    );
    let r = unauthorized();
    assert_eq!(r.code, Some(InternalErrorCode::Unavailable));
    assert_eq!(r.message.as_deref(), Some("Request could not be processed."));
    let r = default_catcher();
    assert_eq!(r.code, Some(InternalErrorCode::InternalError));
    assert_eq!(r.message.as_deref(), Some("Internal error."));
}

#[test]
fn cors_headers_cover_every_response() {
    let headers = CORS::response_headers();
    let pairs: Vec<(String, String)> =
        headers.into_iter().map(|h| (h.name, h.value)).collect();
    assert_eq!(
        pairs,
        vec![
            ("Access-Control-Allow-Origin".to_string(), "*".to_string()),
            (
                "Access-Control-Allow-Methods".to_string(),
                "POST, GET, PATCH, OPTIONS, DELETE".to_string()
            ),
            ("Access-Control-Allow-Headers".to_string(), "*".to_string()),
            ("Access-Control-Allow-Credentials".to_string(), "true".to_string()),
        ]
    );
}

#[test]
fn well_known_doc_requires_matching_hostname() {
    let r = well_known_doc(Some("did:web:feedgen.example.com"), "other.example.com");
    let err = r.err().unwrap();
    assert_eq!(err.code, Some(NotFoundErrorCode::NotFoundError));
    assert_eq!(err.message.as_deref(), Some("Not Found"));
    let err = well_known_doc(None, "feedgen.example.com").err().unwrap();
    assert_eq!(err.code, Some(NotFoundErrorCode::NotFoundError));
    assert_eq!(err.message.as_deref(), Some("Not Found"));
}

#[test]
fn well_known_doc_describes_the_service() {
    let doc = well_known_doc(Some("did:web:feedgen.example.com"), "feedgen.example.com").unwrap();
    assert_eq!(doc.id, "did:web:feedgen.example.com");
    assert_eq!(doc.context, vec!["https://www.w3.org/ns/did/v1".to_string()]);
    assert_eq!(doc.service.len(), 1);
    assert_eq!(doc.service[0].id, "#bsky_fg");
    assert_eq!(doc.service[0].service_type, "BskyFeedGenerator");
    assert_eq!(doc.service[0].service_endpoint, "https://feedgen.example.com");
}

#[test]
fn suffix_check_agrees_with_std() {
    assert!(str_ends_with("did:web:feedgen.example.com", "feedgen.example.com"));
    assert!(!str_ends_with("did:web:feedgen.example.com", "elsewhere.com"));
    assert!(str_ends_with("abc", ""));
    assert!(!str_ends_with("c", "abc"));
}
