//! Subscription-cursor checkpointing. Writes go to the authoritative write
//! store, reads are served from a lagging read replica; the replica is
//! modelled as a prefix of the write log it has applied so far. A reader may
//! therefore see a stale checkpoint, but never one that was not explicitly
//! written.

use vstd::prelude::*;
use crate::auth::AuthError;
use crate::shaping::{NotFoundErrorCode, PathUnknownErrorMessageResponse, resource_not_found};

verus! {

/// One persisted checkpoint: the last applied event sequence number for one
/// upstream service.
#[derive(Debug)]
pub struct SubState {
    /// Upstream service name.
    pub service: String,
    /// Last successfully applied event sequence number.
    pub sequence: i64,
}

/// The write store's checkpoint log, in write order. Last writer wins per
/// service; monotonicity is the writers' convention, not enforced here.
#[derive(Debug)]
pub struct CursorLog {
    /// Every checkpoint write, oldest first.
    pub writes: Vec<SubState>,
}

/// Why a checkpoint request failed.
#[derive(Debug, Clone, Copy, PartialEq, Eq, Structural)]
pub enum CheckpointError {
    /// The service-key guard refused the request.
    Unauthorized(AuthError),
    /// No checkpoint for that service is visible yet.
    NoCheckpoint,
}

/// The last write for `service` among the first `visible` log entries, as
/// `(index, sequence)`; what a replica that has applied that prefix serves.
pub open spec fn last_checkpoint(writes: Seq<SubState>, service: Seq<char>, visible: int) -> Option<
    (int, int),
>
    decreases visible,
{
    if visible <= 0 || visible > writes.len() {
        None
    } else if writes[visible - 1].service@ == service {
        Some((visible - 1, writes[visible - 1].sequence as int))
    } else {
        last_checkpoint(writes, service, visible - 1)
    }
}

/// Persists a checkpoint: appends to the write store's log.
pub fn set_cursor(log: &mut CursorLog, service: String, sequence: i64)
    ensures
        final(log).writes@.len() == old(log).writes@.len() + 1,
        final(log).writes@.subrange(0, old(log).writes@.len() as int) == old(log).writes@,
        final(log).writes@.last().service@ == service@,
        final(log).writes@.last().sequence == sequence,
{
    log.writes.push(SubState { service, sequence });
    proof {
        assert(log.writes@.subrange(0, old(log).writes@.len() as int) =~= old(log).writes@);
    }
}

/// Reads the checkpoint for a service from a replica that has applied the
/// first `visible` writes of the log. Returns the last visible write for
/// that service, exactly when one exists.
pub fn get_cursor(log: &CursorLog, service: &str, visible: usize) -> (r: Result<
    SubState,
    CheckpointError,
>)
    requires
        visible <= log.writes@.len(),
    ensures
        r is Ok <==> last_checkpoint(log.writes@, service@, visible as int) is Some,
        r is Ok ==> {
            let found = last_checkpoint(log.writes@, service@, visible as int)->Some_0;
            &&& r->Ok_0.service@ == service@
            &&& r->Ok_0.sequence as int == found.1
        },
        r is Err ==> r == Err::<SubState, CheckpointError>(CheckpointError::NoCheckpoint),
{
    let service_owned = service.to_owned();
    let mut i: usize = visible;
    while i > 0
        invariant
            service_owned@ == service@,
            0 <= i <= visible <= log.writes@.len(),
            last_checkpoint(log.writes@, service@, visible as int) == last_checkpoint(
                log.writes@,
                service@,
                i as int,
            ),
        decreases i,
    {
        let entry = &log.writes[i - 1];
        if entry.service == service_owned {
            proof {
                assert(log.writes@[i - 1].service@ == service@);
                assert(last_checkpoint(log.writes@, service@, i as int) == Some(
                    (i as int - 1, log.writes@[i - 1].sequence as int),
                ));
            }
            return Ok(SubState { service: service_owned, sequence: entry.sequence });
        }
        proof {
            assert(last_checkpoint(log.writes@, service@, i as int) == last_checkpoint(
                log.writes@,
                service@,
                i as int - 1,
            ));
        }
        i = i - 1;
    }
    Err(CheckpointError::NoCheckpoint)
}

/// A replica never invents a checkpoint: whatever a read returns was
/// explicitly written, at a visible position of the write log. Reading right
/// after writing may still see an older value (replica lag), but never a
/// value no writer set.
pub proof fn lemma_checkpoint_only_written(writes: Seq<SubState>, service: Seq<char>, visible: int)
    requires
        last_checkpoint(writes, service, visible) is Some,
    ensures
        ({
            let found = last_checkpoint(writes, service, visible)->Some_0;
            &&& 0 <= found.0 < writes.len()
            &&& found.0 < visible
            &&& writes[found.0].service@ == service
            &&& writes[found.0].sequence as int == found.1
        }),
    decreases visible,
{
    if visible <= 0 || visible > writes.len() {
    } else if writes[visible - 1].service@ == service {
    } else {
        lemma_checkpoint_only_written(writes, service, visible - 1);
    }
}

/// The wire shape of a failed checkpoint read: whichever way the read side
/// missed, the caller sees the one not-found envelope. Guard failures never
/// reach this mapping — they short-circuit to the unauthorized envelope
/// before the lookup runs.
pub fn checkpoint_error_envelope(miss: CheckpointError) -> (r: PathUnknownErrorMessageResponse)
    requires
        miss is NoCheckpoint,
    ensures
        r.code == Some(NotFoundErrorCode::NotFoundError),
        r.message is Some && r.message->0@ == "Not Found"@,
{
    match miss {
        CheckpointError::Unauthorized(_) => resource_not_found(),
        CheckpointError::NoCheckpoint => resource_not_found(),
    }
}

/// Guard failures leave no trace in the write store: the machine-to-machine
/// checkpoint endpoint, composed behind the service-key guard.
pub fn handle_update_cursor(
    configured: Option<&str>,
    key_header: Option<&str>,
    log: &mut CursorLog,
    service: String,
    sequence: i64,
) -> (r: Result<(), AuthError>)
    ensures
        r is Err ==> final(log).writes@ == old(log).writes@,
        configured is None ==> r == Err::<(), AuthError>(AuthError::ConfigurationError),
        configured is Some && key_header is None ==> r == Err::<(), AuthError>(
            AuthError::MissingCredential,
        ),
        configured is Some && key_header is Some && key_header->0@ != configured->0@ ==> r
            == Err::<(), AuthError>(AuthError::InvalidCredential),
        configured is Some && key_header is Some && key_header->0@ == configured->0@ ==> {
            &&& r is Ok
            &&& final(log).writes@.len() == old(log).writes@.len() + 1
            &&& final(log).writes@.subrange(0, old(log).writes@.len() as int) == old(log).writes@
            &&& final(log).writes@.last().service@ == service@
            &&& final(log).writes@.last().sequence == sequence
        },
{
    match crate::auth::service_key_guard(configured, key_header) {
        Err(e) => Err(e),
        Ok(_) => {
            set_cursor(log, service, sequence);
            Ok(())
        },
    }
}

/// The replica-served checkpoint read, composed behind the service-key
/// guard.
pub fn handle_get_cursor(
    configured: Option<&str>,
    key_header: Option<&str>,
    log: &CursorLog,
    service: &str,
    visible: usize,
) -> (r: Result<SubState, CheckpointError>)
    requires
        visible <= log.writes@.len(),
    ensures
        configured is None ==> r == Err::<SubState, CheckpointError>(
            CheckpointError::Unauthorized(AuthError::ConfigurationError),
        ),
        configured is Some && key_header is None ==> r == Err::<SubState, CheckpointError>(
            CheckpointError::Unauthorized(AuthError::MissingCredential),
        ),
        configured is Some && key_header is Some && key_header->0@ != configured->0@ ==> r
            == Err::<SubState, CheckpointError>(
            CheckpointError::Unauthorized(AuthError::InvalidCredential),
        ),
        configured is Some && key_header is Some && key_header->0@ == configured->0@ ==> {
            &&& r is Ok <==> last_checkpoint(log.writes@, service@, visible as int) is Some
            &&& r is Ok ==> r->Ok_0.service@ == service@ && r->Ok_0.sequence as int
                == last_checkpoint(log.writes@, service@, visible as int)->Some_0.1
            &&& r is Err ==> r == Err::<SubState, CheckpointError>(CheckpointError::NoCheckpoint)
        },
{
    match crate::auth::service_key_guard(configured, key_header) {
        Err(e) => Err(CheckpointError::Unauthorized(e)),
        Ok(_) => get_cursor(log, service, visible),
    }
}

} // verus!
