//! Credential and connection core for a multi-session game service.
//!
//! The crate covers the tiered credential model (signed claim sets,
//! tier derivation), session identifiers, the handshake gate that
//! classifies socket upgrades, and the connection registry with its
//! notification routing and liveness reaping.

pub mod api;
pub mod auth;
pub mod codec;
pub mod gate;
pub mod jsonfmt;
pub mod jsonparse;
pub mod net_types;
pub mod notify;
pub mod records;
pub mod session_id;
pub mod strutil;
pub mod token;

pub use api::get_status;
pub use net_types::{BasicSessionInfo, PlayerData, Stats};
pub use notify::{Notification, Notifier, WebsocketHandler};
pub use records::SessionData;
pub use session_id::SessionID;
pub use token::{AdminAuthToken, AuthClaimError, AuthClaims, AuthLevel, BasicAuthToken,
    PlayerAuthToken, PlayerState};
