//! Plain value types returned over the wire.

use vstd::prelude::*;

use crate::records::SessionData;

verus! {

/// The service's live counters.
pub struct Stats {
    pub ws_connected: u32,
    pub sessions_active: u32,
    pub unique_users: u64,
}

/// A session summary for listings.
pub struct BasicSessionInfo {
    pub id: String,
    pub player_count: u32,
    pub active: bool,
    pub created: u64,
}

/// A player row for listings.
pub struct PlayerData {
    pub user_id: u32,
    pub name: String,
    pub role: Option<String>,
    pub joined: u64,
    pub state: String,
}

impl BasicSessionInfo {
    /// The summary of a stored session record; the player count
    /// starts at zero and is filled in separately.
    pub fn from_session(sd: &SessionData) -> (r: BasicSessionInfo)
        ensures
            r.id@ == sd.id@,
            r.player_count == 0,
            r.active == sd.active,
            r.created == sd.created,
    {
        BasicSessionInfo {
            id: sd.id.as_str(),
            player_count: 0,
            active: sd.active,
            created: sd.created,
        }
    }
}

} // verus!
