//! Scoped account-action token issuance. An authenticated account owner asks
//! for a single-purpose token (confirm email, delete account); the workflow
//! fetches the account — including deactivated and taken-down records, which
//! must stay reachable by email — enforces that an email is on file, and
//! produces a mint order naming the account's own address. The token itself
//! is minted and mailed by outside collaborators; no caller-supplied address
//! ever enters the order.

use vstd::prelude::*;
use crate::shaping::{workflow_error_envelope, InternalErrorCode, InternalErrorMessageResponse};

verus! {

/// The single purpose a token is scoped to.
#[derive(Debug, Clone, Copy, PartialEq, Eq, Structural)]
pub enum TokenPurpose {
    /// Confirm the account's email address.
    ConfirmEmail,
    /// Authorize deletion of the account.
    DeleteAccount,
}

/// An account record as the owning collaborator hands it out.
#[derive(Debug)]
pub struct Account {
    /// The account's identity: its primary key.
    pub did: String,
    /// Email on file, if any.
    pub email: Option<String>,
    /// The account is deactivated; does not block token issuance.
    pub deactivated: bool,
    /// The account is taken down; does not block token issuance.
    pub taken_down: bool,
}

/// The account store as the workflow reads it.
#[derive(Debug)]
pub struct AccountDirectory {
    /// All account records.
    pub accounts: Vec<Account>,
}

/// Why issuance was refused. Collapsed to one opaque wire error by
/// `workflow_error_envelope`, so callers cannot enumerate accounts.
#[derive(Debug, Clone, Copy, PartialEq, Eq, Structural)]
pub enum WorkflowError {
    /// No record exists for the identity.
    AccountNotFound,
    /// The record exists but carries no email address.
    NoEmailOnFile,
}

/// An instruction to the outside collaborators: mint a token scoped to
/// `(did, purpose)` and deliver it to `email` — always the account's own.
#[derive(Debug)]
pub struct MintOrder {
    /// The identity the token is bound to.
    pub did: String,
    /// The purpose the token is bound to.
    pub purpose: TokenPurpose,
    /// The account's own email address, the only delivery destination.
    pub email: String,
}

/// A minted token on its way to the delivery collaborator.
#[derive(Debug)]
pub struct TokenDispatch {
    /// Where the token is sent: the account's own address.
    pub email: String,
    /// The minted single-purpose token value.
    pub token: String,
    /// The purpose it was minted for.
    pub purpose: TokenPurpose,
}

/// The first account record for an identity, if any.
pub open spec fn spec_lookup(accounts: Seq<Account>, did: Seq<char>) -> Option<Account>
    decreases accounts.len(),
{
    if accounts.len() == 0 {
        None
    } else if accounts[0].did@ == did {
        Some(accounts[0])
    } else {
        spec_lookup(accounts.drop_first(), did)
    }
}

proof fn lemma_lookup_at(accounts: Seq<Account>, did: Seq<char>, k: int)
    requires
        0 <= k <= accounts.len(),
        forall|j: int| 0 <= j < k ==> accounts[j].did@ != did,
        k < accounts.len() ==> accounts[k as int].did@ == did,
    ensures
        k == accounts.len() ==> spec_lookup(accounts, did) is None,
        k < accounts.len() ==> spec_lookup(accounts, did) == Some(accounts[k as int]),
    decreases accounts.len(),
{
    if accounts.len() == 0 {
    } else if k == 0 {
    } else {
        lemma_lookup_at(accounts.drop_first(), did, k - 1);
    }
}

/// Fetches the account for an identity — deactivated and taken-down records
/// included — and enforces eligibility: the account must exist and must have
/// an email on file. Returns that email, never a caller-supplied one.
pub fn check_eligibility(dir: &AccountDirectory, did: &str) -> (r: Result<String, WorkflowError>)
    ensures
        spec_lookup(dir.accounts@, did@) is None ==> r == Err::<String, WorkflowError>(
            WorkflowError::AccountNotFound,
        ),
        spec_lookup(dir.accounts@, did@) is Some && spec_lookup(dir.accounts@, did@)->Some_0.email
            is None ==> r == Err::<String, WorkflowError>(WorkflowError::NoEmailOnFile),
        spec_lookup(dir.accounts@, did@) is Some && spec_lookup(dir.accounts@, did@)->Some_0.email
            is Some ==> r is Ok && r->Ok_0@ == spec_lookup(
            dir.accounts@,
            did@,
        )->Some_0.email->0@,
{
    let did_owned = did.to_owned();
    let n = dir.accounts.len();
    let mut i: usize = 0;
    while i < n
        invariant
            did_owned@ == did@,
            n == dir.accounts@.len(),
            0 <= i <= n,
            forall|j: int| 0 <= j < i ==> dir.accounts@[j].did@ != did@,
        decreases n - i,
    {
        let account = &dir.accounts[i];
        if account.did == did_owned {
            proof {
                lemma_lookup_at(dir.accounts@, did@, i as int);
            }
            match &account.email {
                None => { return Err(WorkflowError::NoEmailOnFile) },
                Some(email) => { return Ok(email.clone()) },
            }
        }
        i = i + 1;
    }
    proof {
        lemma_lookup_at(dir.accounts@, did@, n as int);
    }
    Err(WorkflowError::AccountNotFound)
}

/// Plans the issuance of a single-purpose token: refused — no token minted,
/// no mail dispatched — whenever the account is missing or has no email on
/// file, for every purpose alike; otherwise an order to mint for exactly
/// `(did, purpose)` and deliver to the account's own email.
pub fn plan_token_issue(dir: &AccountDirectory, did: &str, purpose: TokenPurpose) -> (r: Result<
    MintOrder,
    WorkflowError,
>)
    ensures
        spec_lookup(dir.accounts@, did@) is None ==> r == Err::<MintOrder, WorkflowError>(
            WorkflowError::AccountNotFound,
        ),
        spec_lookup(dir.accounts@, did@) is Some && spec_lookup(dir.accounts@, did@)->Some_0.email
            is None ==> r == Err::<MintOrder, WorkflowError>(WorkflowError::NoEmailOnFile),
        spec_lookup(dir.accounts@, did@) is Some && spec_lookup(dir.accounts@, did@)->Some_0.email
            is Some ==> {
            &&& r is Ok
            &&& r->Ok_0.did@ == did@
            &&& r->Ok_0.purpose == purpose
            &&& r->Ok_0.email@ == spec_lookup(dir.accounts@, did@)->Some_0.email->0@
        },
{
    match check_eligibility(dir, did) {
        Err(e) => Err(e),
        Ok(email) => Ok(MintOrder { did: did.to_owned(), purpose, email }),
    }
}

/// Plans the token for the account-deletion request endpoint.
pub fn plan_account_delete(dir: &AccountDirectory, did: &str) -> (r: Result<
    MintOrder,
    WorkflowError,
>)
    ensures
        spec_lookup(dir.accounts@, did@) is None ==> r == Err::<MintOrder, WorkflowError>(
            WorkflowError::AccountNotFound,
        ),
        spec_lookup(dir.accounts@, did@) is Some && spec_lookup(dir.accounts@, did@)->Some_0.email
            is None ==> r == Err::<MintOrder, WorkflowError>(WorkflowError::NoEmailOnFile),
        spec_lookup(dir.accounts@, did@) is Some && spec_lookup(dir.accounts@, did@)->Some_0.email
            is Some ==> r is Ok && r->Ok_0.did@ == did@ && r->Ok_0.purpose
            == TokenPurpose::DeleteAccount && r->Ok_0.email@ == spec_lookup(
            dir.accounts@,
            did@,
        )->Some_0.email->0@,
{
    plan_token_issue(dir, did, TokenPurpose::DeleteAccount)
}

/// Plans the token for the email-confirmation request endpoint.
pub fn plan_email_confirmation(dir: &AccountDirectory, did: &str) -> (r: Result<
    MintOrder,
    WorkflowError,
>)
    ensures
        spec_lookup(dir.accounts@, did@) is None ==> r == Err::<MintOrder, WorkflowError>(
            WorkflowError::AccountNotFound,
        ),
        spec_lookup(dir.accounts@, did@) is Some && spec_lookup(dir.accounts@, did@)->Some_0.email
            is None ==> r == Err::<MintOrder, WorkflowError>(WorkflowError::NoEmailOnFile),
        spec_lookup(dir.accounts@, did@) is Some && spec_lookup(dir.accounts@, did@)->Some_0.email
            is Some ==> r is Ok && r->Ok_0.did@ == did@ && r->Ok_0.purpose
            == TokenPurpose::ConfirmEmail && r->Ok_0.email@ == spec_lookup(
            dir.accounts@,
            did@,
        )->Some_0.email->0@,
{
    plan_token_issue(dir, did, TokenPurpose::ConfirmEmail)
}

/// The account-deletion request endpoint's decision, session-token gated by
/// the caller: the mint order for the collaborators, or the one opaque wire
/// error that every workflow failure collapses to — the caller cannot tell
/// a missing account from a missing email.
pub fn request_account_delete(dir: &AccountDirectory, did: &str) -> (r: Result<
    MintOrder,
    InternalErrorMessageResponse,
>)
    ensures
        r is Err <==> spec_lookup(dir.accounts@, did@) is None || spec_lookup(
            dir.accounts@,
            did@,
        )->Some_0.email is None,
        r is Err ==> r->Err_0.code == Some(InternalErrorCode::InternalError)
            && r->Err_0.message is Some && r->Err_0.message->0@ == "Internal error."@,
        r is Ok ==> r->Ok_0.did@ == did@ && r->Ok_0.purpose == TokenPurpose::DeleteAccount
            && r->Ok_0.email@ == spec_lookup(dir.accounts@, did@)->Some_0.email->0@,
{
    match plan_account_delete(dir, did) {
        Ok(order) => Ok(order),
        Err(e) => Err(workflow_error_envelope(e)),
    }
}

/// The email-confirmation request endpoint's decision, shaped like the
/// account-deletion one: the same opaque error for every refusal.
pub fn request_email_confirmation(dir: &AccountDirectory, did: &str) -> (r: Result<
    MintOrder,
    InternalErrorMessageResponse,
>)
    ensures
        r is Err <==> spec_lookup(dir.accounts@, did@) is None || spec_lookup(
            dir.accounts@,
            did@,
        )->Some_0.email is None,
        r is Err ==> r->Err_0.code == Some(InternalErrorCode::InternalError)
            && r->Err_0.message is Some && r->Err_0.message->0@ == "Internal error."@,
        r is Ok ==> r->Ok_0.did@ == did@ && r->Ok_0.purpose == TokenPurpose::ConfirmEmail
            && r->Ok_0.email@ == spec_lookup(dir.accounts@, did@)->Some_0.email->0@,
{
    match plan_email_confirmation(dir, did) {
        Ok(order) => Ok(order),
        Err(e) => Err(workflow_error_envelope(e)),
    }
}

/// Pairs a token minted for an order with the order's own delivery address:
/// the dispatch the mailer collaborator receives.
pub fn dispatch_with_token(order: MintOrder, token: String) -> (d: TokenDispatch)
    ensures
        d.email@ == order.email@,
        d.token@ == token@,
        d.purpose == order.purpose,
{
    TokenDispatch { email: order.email, token, purpose: order.purpose }
}

} // verus!
