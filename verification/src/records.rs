//! Records the persistence collaborator hands back.

use vstd::prelude::*;

use crate::session_id::SessionID;

verus! {

/// A stored game session: creation time is seconds since the epoch.
pub struct SessionData {
    pub id: SessionID,
    pub created: u64,
    pub active: bool,
    pub settings: Option<String>,
}

/// A player as the process keeps it in memory.
pub struct PlayerData {
    pub name: String,
    pub role: Option<String>,
}

} // verus!
