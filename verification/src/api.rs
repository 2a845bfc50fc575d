//! Decisions behind the service's request handlers.
//!
//! These are the pure parts of the routes: resolving a liveness
//! query's answer with its bounded-wait fallback, assembling the
//! stats reply, deciding whether a player may join a session, and
//! the status placeholder.

use vstd::prelude::*;

use crate::net_types::Stats;
use crate::token::BasicAuthToken;

verus! {

use vstd::string::StringExecFns;

/// The status endpoint's reply.
pub fn get_status(token: Option<BasicAuthToken>) -> (r: String)
    ensures
        r@ == "unimplemented"@,
{
    let _ = token;
    String::from_str("unimplemented")
}

/// Resolves one observation of the shared liveness slot: a negative
/// value means the worker has not answered, and after the bounded
/// wait the caller must fall back to zero rather than hang; an
/// answered count is clamped into range.
pub fn resolve_alive_count(observed: i64) -> (r: u32)
    ensures
        observed < 0 ==> r == 0,
        0 <= observed <= u32::MAX ==> r == observed,
        observed > u32::MAX ==> r == u32::MAX,
{
    if observed < 0 {
        0
    } else if observed > u32::MAX as i64 {
        u32::MAX
    } else {
        observed as u32
    }
}

/// Assembles the stats reply; unique users are not tracked.
pub fn build_stats(ws_connected: u32, sessions_active: u32) -> (r: Stats)
    ensures
        r.ws_connected == ws_connected,
        r.sessions_active == sessions_active,
        r.unique_users == 0,
{
    Stats { ws_connected, sessions_active, unique_users: 0 }
}

/// Why a join request was refused.
#[derive(Copy, Clone, PartialEq, Eq, Structural, Debug)]
pub enum JoinError {
    /// No session with that identifier exists.
    SessionMissing,
    /// The session exists but is not active.
    SessionInactive,
    /// An active player of that name already sits in the session.
    DuplicateName,
}

impl JoinError {
    /// The user-facing message for this refusal.
    pub fn message(&self) -> (r: &'static str)
        ensures
            *self == JoinError::SessionMissing ==> r@ == "Session doesn't exist"@,
            *self == JoinError::SessionInactive ==> r@ == "Session inactive"@,
            *self == JoinError::DuplicateName ==> r@ == "A user with the same name exists"@,
    {
        match self {
            JoinError::SessionMissing => "Session doesn't exist",
            JoinError::SessionInactive => "Session inactive",
            JoinError::DuplicateName => "A user with the same name exists",
        }
    }
}

/// Decides a join request from what the persistence collaborator
/// reports: the session must exist and be active, and the display
/// name must be free among that session's active players.
pub fn evaluate_join(session_exists: bool, session_active: bool, name_taken: bool) -> (r: Result<
    (),
    JoinError,
>)
    ensures
        !session_exists ==> r == Err::<(), JoinError>(JoinError::SessionMissing),
        session_exists && !session_active ==> r == Err::<(), JoinError>(JoinError::SessionInactive),
        session_exists && session_active && name_taken ==> r == Err::<(), JoinError>(
            JoinError::DuplicateName,
        ),
        session_exists && session_active && !name_taken ==> r == Ok::<(), JoinError>(()),
{
    if !session_exists {
        Err(JoinError::SessionMissing)
    } else if !session_active {
        Err(JoinError::SessionInactive)
    } else if name_taken {
        Err(JoinError::DuplicateName)
    } else {
        Ok(())
    }
}

} // verus!
