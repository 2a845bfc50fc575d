//! Signed claim sets and the tiered credential hierarchy.
//!
//! A claim set carries an expiry, an authorization level and a few
//! optional fields.  Tier derivation turns a claim set into the
//! narrowest credential matching a requested tier, or fails with a
//! distinguishable error.  Expiry is checked here, at derivation time,
//! not by the codec.

use vstd::prelude::*;

use crate::session_id::{SessionID, is_sid_seq};
use crate::strutil::str_eq;

verus! {

/// The signed payload: expiry, level, and the optional tier fields.
pub struct AuthClaims {
    pub exp: u64,
    pub auth_level: String,
    pub session_id: Option<String>,
    pub user_name: Option<String>,
    pub role: Option<String>,
    pub state: Option<String>,
    pub user_id: Option<u64>,
}

/// Mathematical model of a claim set.
pub ghost struct AuthClaimsView {
    pub exp: u64,
    pub auth_level: Seq<char>,
    pub session_id: Option<Seq<char>>,
    pub user_name: Option<Seq<char>>,
    pub role: Option<Seq<char>>,
    pub state: Option<Seq<char>>,
    pub user_id: Option<u64>,
}

impl View for AuthClaims {
    type V = AuthClaimsView;

    open spec fn view(&self) -> AuthClaimsView {
        AuthClaimsView {
            exp: self.exp,
            auth_level: self.auth_level@,
            session_id: match self.session_id {
                Some(s) => Some(s@),
                None => None,
            },
            user_name: match self.user_name {
                Some(s) => Some(s@),
                None => None,
            },
            role: match self.role {
                Some(s) => Some(s@),
                None => None,
            },
            state: match self.state {
                Some(s) => Some(s@),
                None => None,
            },
            user_id: self.user_id,
        }
    }
}

/// Why a claim set was rejected at derivation or extraction time.
#[derive(Copy, Clone, PartialEq, Eq, Structural, Debug)]
pub enum AuthClaimError {
    /// No credential was present in the request at all.
    NoAuthCookie,
    /// The expiry is not strictly in the future.
    Expired,
    /// The credential was refused by policy.
    Blocked,
    /// The level string names no known authorization level.
    UnknownLevel,
    /// The level does not match the requested tier.
    WrongLevel,
    /// A field the requested tier needs is absent.
    MissingField,
    /// The session identifier in the claims is not well-formed.
    InvalidSessionId,
    /// The token's signature or structure is invalid.
    Malformed,
}

/// An authorization level carried by a claim set.
#[derive(Copy, Clone, PartialEq, Eq, Structural, Debug)]
pub enum AuthLevel {
    Player,
    Control,
}

/// The level named by a level string, if any.
pub open spec fn spec_level_of(s: Seq<char>) -> Option<AuthLevel> {
    if s == "player"@ {
        Some(AuthLevel::Player)
    } else if s == "control"@ {
        Some(AuthLevel::Control)
    } else {
        None
    }
}

/// Basic-tier derivation: any claim set with a known level and an
/// expiry strictly in the future, checked in that order of errors:
/// expiry first, then the level.
pub open spec fn spec_derive_basic(c: AuthClaimsView, now: u64) -> Result<
    AuthLevel,
    AuthClaimError,
> {
    if c.exp <= now {
        Err(AuthClaimError::Expired)
    } else {
        match spec_level_of(c.auth_level) {
            Some(level) => Ok(level),
            None => Err(AuthClaimError::UnknownLevel),
        }
    }
}

/// Model of a player credential: the claim fields the player tier
/// requires, pulled out of the claim set.
pub ghost struct PlayerTokenView {
    pub claims: AuthClaimsView,
    pub user_name: Seq<char>,
    pub session_id: Seq<char>,
    pub role: Seq<char>,
    pub state: Option<Seq<char>>,
}

/// Narrowing a basic credential to the player tier: level must be
/// `player`; user name, role and a well-formed session identifier
/// must all be present.  This step does not look at the clock.
pub open spec fn spec_narrow_player(level: AuthLevel, c: AuthClaimsView) -> Result<
    PlayerTokenView,
    AuthClaimError,
> {
    if level != AuthLevel::Player {
        Err(AuthClaimError::WrongLevel)
    } else if c.user_name is None {
        Err(AuthClaimError::MissingField)
    } else if c.role is None {
        Err(AuthClaimError::MissingField)
    } else if c.session_id is None {
        Err(AuthClaimError::MissingField)
    } else if !is_sid_seq(c.session_id->0) {
        Err(AuthClaimError::InvalidSessionId)
    } else {
        Ok(
            PlayerTokenView {
                claims: c,
                user_name: c.user_name->0,
                session_id: c.session_id->0,
                role: c.role->0,
                state: c.state,
            },
        )
    }
}

/// Player-tier derivation from a claim set: basic derivation first,
/// then the player narrowing.
pub open spec fn spec_derive_player(c: AuthClaimsView, now: u64) -> Result<
    PlayerTokenView,
    AuthClaimError,
> {
    match spec_derive_basic(c, now) {
        Err(e) => Err(e),
        Ok(level) => spec_narrow_player(level, c),
    }
}

/// Narrowing a basic credential to the administrator tier: the level
/// must be `control`; no further fields are required.
pub open spec fn spec_narrow_admin(level: AuthLevel, c: AuthClaimsView) -> Result<
    AuthClaimsView,
    AuthClaimError,
> {
    if level != AuthLevel::Control {
        Err(AuthClaimError::WrongLevel)
    } else {
        Ok(c)
    }
}

/// Admin-tier derivation from a claim set: basic derivation first,
/// then the administrator narrowing.
pub open spec fn spec_derive_admin(c: AuthClaimsView, now: u64) -> Result<
    AuthClaimsView,
    AuthClaimError,
> {
    match spec_derive_basic(c, now) {
        Err(e) => Err(e),
        Ok(level) => spec_narrow_admin(level, c),
    }
}

/// A claim set that passed basic-tier derivation.
pub struct BasicAuthToken {
    exp: u64,
    auth_level: AuthLevel,
    claims: AuthClaims,
}

/// Model of a basic credential.
pub ghost struct BasicTokenView {
    pub exp: u64,
    pub auth_level: AuthLevel,
    pub claims: AuthClaimsView,
}

impl View for BasicAuthToken {
    type V = BasicTokenView;

    closed spec fn view(&self) -> BasicTokenView {
        BasicTokenView { exp: self.exp, auth_level: self.auth_level, claims: self.claims@ }
    }
}

impl BasicAuthToken {
    /// The level carried by the underlying claim set.
    pub fn auth_level(&self) -> (r: AuthLevel)
        ensures
            r == self@.auth_level,
    {
        self.auth_level
    }

    /// The underlying claim set.
    pub fn claims(&self) -> (r: &AuthClaims)
        ensures
            r@ == self@.claims,
    {
        &self.claims
    }

    /// Derives the basic tier from a verified claim set, against the
    /// given current time.
    pub fn from_claims(claims: AuthClaims, now: u64) -> (r: Result<BasicAuthToken, AuthClaimError>)
        ensures
            match r {
                Ok(t) => spec_derive_basic(claims@, now) == Ok::<AuthLevel, AuthClaimError>(
                    t@.auth_level,
                ) && t@.claims == claims@ && t@.exp == claims@.exp,
                Err(e) => spec_derive_basic(claims@, now) == Err::<AuthLevel, AuthClaimError>(e),
            },
    {
        if claims.exp <= now {
            return Err(AuthClaimError::Expired);
        }
        let auth_level = if str_eq(claims.auth_level.as_str(), "player") {
            AuthLevel::Player
        } else if str_eq(claims.auth_level.as_str(), "control") {
            AuthLevel::Control
        } else {
            return Err(AuthClaimError::UnknownLevel);
        };
        Ok(BasicAuthToken { exp: claims.exp, auth_level, claims })
    }
}

/// The coarse lifecycle state a player can be in.
pub enum PlayerState {
    Waiting,
    Alive,
    Dead,
    Spectator,
}

impl PlayerState {
    /// The wire spelling of this state.
    pub open spec fn spec_str(&self) -> Seq<char> {
        match self {
            PlayerState::Waiting => "waiting"@,
            PlayerState::Alive => "alive"@,
            PlayerState::Dead => "dead"@,
            PlayerState::Spectator => "spectator"@,
        }
    }

    /// The wire spelling of this state.
    pub fn as_str(&self) -> (r: &'static str)
        ensures
            r@ == self.spec_str(),
    {
        match self {
            PlayerState::Waiting => "waiting",
            PlayerState::Alive => "alive",
            PlayerState::Dead => "dead",
            PlayerState::Spectator => "spectator",
        }
    }
}

/// A credential narrowed to the player tier.
pub struct PlayerAuthToken {
    pub basic: BasicAuthToken,
    pub user_name: String,
    pub session_id: SessionID,
    pub role: String,
    pub state: Option<String>,
}

impl View for PlayerAuthToken {
    type V = PlayerTokenView;

    open spec fn view(&self) -> PlayerTokenView {
        PlayerTokenView {
            claims: self.basic@.claims,
            user_name: self.user_name@,
            session_id: self.session_id@,
            role: self.role@,
            state: match self.state {
                Some(s) => Some(s@),
                None => None,
            },
        }
    }
}

impl PlayerAuthToken {
    /// The player's display name.
    pub fn user_name(&self) -> (r: &str)
        ensures
            r@ == self.user_name@,
    {
        self.user_name.as_str()
    }

    /// The player's role string.
    pub fn role(&self) -> (r: &str)
        ensures
            r@ == self.role@,
    {
        self.role.as_str()
    }

    /// Narrows a basic credential to the player tier.
    pub fn from_basic(basic: BasicAuthToken) -> (r: Result<PlayerAuthToken, AuthClaimError>)
        ensures
            match r {
                Ok(t) => spec_narrow_player(basic@.auth_level, basic@.claims) == Ok::<
                    PlayerTokenView,
                    AuthClaimError,
                >(t@) && t.basic@ == basic@ && t.session_id.wf(),
                Err(e) => spec_narrow_player(basic@.auth_level, basic@.claims) == Err::<
                    PlayerTokenView,
                    AuthClaimError,
                >(e),
            },
    {
        if !matches!(basic.auth_level, AuthLevel::Player) {
            return Err(AuthClaimError::WrongLevel);
        }
        let user_name = match &basic.claims.user_name {
            Some(u) => u.clone(),
            None => {
                return Err(AuthClaimError::MissingField);
            },
        };
        let role = match &basic.claims.role {
            Some(u) => u.clone(),
            None => {
                return Err(AuthClaimError::MissingField);
            },
        };
        let sid_str = match &basic.claims.session_id {
            Some(u) => u.clone(),
            None => {
                return Err(AuthClaimError::MissingField);
            },
        };
        let session_id = match SessionID::new(sid_str.as_str()) {
            Ok(sid) => sid,
            Err(_) => {
                return Err(AuthClaimError::InvalidSessionId);
            },
        };
        let state = match &basic.claims.state {
            Some(u) => Some(u.clone()),
            None => None,
        };
        Ok(PlayerAuthToken { basic, user_name, session_id, role, state })
    }
}

/// A credential narrowed to the administrator tier.
pub struct AdminAuthToken {
    basic: BasicAuthToken,
}

impl View for AdminAuthToken {
    type V = BasicTokenView;

    closed spec fn view(&self) -> BasicTokenView {
        self.basic@
    }
}

impl AdminAuthToken {
    /// Narrows a basic credential to the administrator tier.
    pub fn from_basic(basic: BasicAuthToken) -> (r: Result<AdminAuthToken, AuthClaimError>)
        ensures
            match r {
                Ok(t) => spec_narrow_admin(basic@.auth_level, basic@.claims) == Ok::<
                    AuthClaimsView,
                    AuthClaimError,
                >(basic@.claims) && t@ == basic@,
                Err(e) => spec_narrow_admin(basic@.auth_level, basic@.claims) == Err::<
                    AuthClaimsView,
                    AuthClaimError,
                >(e),
            },
    {
        if !matches!(basic.auth_level, AuthLevel::Control) {
            return Err(AuthClaimError::WrongLevel);
        }
        Ok(AdminAuthToken { basic })
    }
}

/// A well-formed player claim set with a future expiry derives the
/// player tier, and the derived credential carries exactly the
/// fields the claim set was signed with: together with the codec's
/// round trip, signing and then verifying such a claim set hands
/// back the original values.
pub proof fn lemma_player_round_trip_fields(c: AuthClaimsView, now: u64)
    requires
        c.exp > now,
        spec_level_of(c.auth_level) == Some(AuthLevel::Player),
        c.user_name is Some,
        c.role is Some,
        c.session_id is Some,
        is_sid_seq(c.session_id->0),
    ensures
        spec_derive_player(c, now) == Ok::<PlayerTokenView, AuthClaimError>(
            PlayerTokenView {
                claims: c,
                user_name: c.user_name->0,
                session_id: c.session_id->0,
                role: c.role->0,
                state: c.state,
            },
        ),
{
}

/// An expired claim set never derives any tier: not basic, not
/// player, not admin, whatever its level and fields.
pub proof fn lemma_expired_derives_nothing(c: AuthClaimsView, now: u64)
    requires
        c.exp <= now,
    ensures
        spec_derive_basic(c, now) == Err::<AuthLevel, AuthClaimError>(AuthClaimError::Expired),
        spec_derive_player(c, now) == Err::<PlayerTokenView, AuthClaimError>(
            AuthClaimError::Expired,
        ),
        spec_derive_admin(c, now) == Err::<AuthClaimsView, AuthClaimError>(
            AuthClaimError::Expired,
        ),
{
}

} // verus!
