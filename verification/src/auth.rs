//! Issuing credentials and deriving them from token strings.
//!
//! Minting signs a claim set that expires four hours after issue.
//! Deriving verifies a token string with the codec and then narrows
//! it to the requested tier against the given current time.

use vstd::prelude::*;

use crate::codec::{dev_secret, dev_secret_spec, sign_claims, token_of, verify_token};
use crate::session_id::SessionID;
use crate::token::{
    AdminAuthToken, AuthClaimError, AuthClaims, AuthClaimsView, AuthLevel, BasicAuthToken,
    PlayerAuthToken, PlayerState, PlayerTokenView, spec_derive_admin, spec_derive_basic,
    spec_derive_player,
};

verus! {

use vstd::string::StringExecFns;

/// How long a freshly minted credential lives, in seconds.
pub open spec fn spec_token_lifetime() -> u64 {
    14400
}

/// The expiry minted at time `now`: four hours later, saturating at
/// the end of representable time.
pub open spec fn expiry_at(now: u64) -> u64 {
    if now + spec_token_lifetime() > u64::MAX {
        u64::MAX
    } else {
        (now + spec_token_lifetime()) as u64
    }
}

/// The expiry minted at time `now`.
pub fn expiry_for(now: u64) -> (r: u64)
    ensures
        r == expiry_at(now),
{
    if now > u64::MAX - 14400 {
        u64::MAX
    } else {
        now + 14400
    }
}

/// The claim set minted for a player.
pub open spec fn player_claims(
    sid: Seq<char>,
    user_name: Seq<char>,
    role: Seq<char>,
    state: Seq<char>,
    exp: u64,
) -> AuthClaimsView {
    AuthClaimsView {
        exp,
        auth_level: "player"@,
        session_id: Some(sid),
        user_name: Some(user_name),
        role: Some(role),
        state: Some(state),
        user_id: None,
    }
}

/// The claim set minted for an administrator.
pub open spec fn admin_claims(exp: u64) -> AuthClaimsView {
    AuthClaimsView {
        exp,
        auth_level: "control"@,
        session_id: None,
        user_name: None,
        role: None,
        state: None,
        user_id: None,
    }
}

impl PlayerAuthToken {
    /// Mints a signed player credential for this session, name, role
    /// and state, expiring four hours after `now` (saturating at the
    /// end of representable time).  Minting never fails; a bad clock
    /// is the caller's fatal construction error.
    pub fn get_jwt(
        session_id: &SessionID,
        user_name: &str,
        role: &str,
        state: PlayerState,
        now: u64,
    ) -> (r: String)
        ensures
            r@ == token_of(
                player_claims(session_id@, user_name@, role@, state.spec_str(), expiry_at(now)),
                dev_secret_spec(),
            ),
    {
        let claims = AuthClaims {
            exp: expiry_for(now),
            auth_level: String::from_str("player"),
            session_id: Some(session_id.as_str()),
            user_name: Some(String::from_str(user_name)),
            role: Some(String::from_str(role)),
            state: Some(String::from_str(state.as_str())),
            user_id: None,
        };
        sign_claims(&claims, dev_secret())
    }

    /// Verifies a token string and narrows it to the player tier at
    /// time `now`.  A string that is no signed token is malformed;
    /// a signed one fails exactly with its derivation error.
    pub fn from_token_str(value: &str, now: u64) -> (r: Result<PlayerAuthToken, AuthClaimError>)
        ensures
            r matches Ok(p) ==> p.session_id.wf() && value@ == token_of(
                p@.claims,
                dev_secret_spec(),
            ) && spec_derive_player(p@.claims, now) == Ok::<PlayerTokenView, AuthClaimError>(p@),
            forall|c: AuthClaimsView| value@ == token_of(c, dev_secret_spec()) ==> match r {
                Ok(p) => spec_derive_player(c, now) == Ok::<PlayerTokenView, AuthClaimError>(p@),
                Err(e) => spec_derive_player(c, now) == Err::<PlayerTokenView, AuthClaimError>(e),
            },
            r matches Err(e) ==> e == AuthClaimError::Malformed || (exists|c: AuthClaimsView|
                value@ == token_of(c, dev_secret_spec()) && spec_derive_player(c, now) == Err::<
                    PlayerTokenView,
                    AuthClaimError,
                >(e)),
    {
        let basic = match BasicAuthToken::from_token_str(value, now) {
            Ok(b) => b,
            Err(e) => {
                proof {
                    if e != AuthClaimError::Malformed {
                        let c = choose|c: AuthClaimsView|
                            value@ == token_of(c, dev_secret_spec()) && spec_derive_basic(c, now)
                                == Err::<AuthLevel, AuthClaimError>(e);
                        assert(spec_derive_player(c, now) == Err::<PlayerTokenView, AuthClaimError>(
                            e,
                        ));
                    }
                }
                return Err(e);
            },
        };
        let ghost bview = basic@;
        match PlayerAuthToken::from_basic(basic) {
            Ok(p) => {
                proof {
                    assert(p@.claims == bview.claims);
                    assert(spec_derive_player(bview.claims, now) == Ok::<
                        PlayerTokenView,
                        AuthClaimError,
                    >(p@));
                }
                Ok(p)
            },
            Err(e) => {
                proof {
                    assert(value@ == token_of(bview.claims, dev_secret_spec())
                        && spec_derive_player(bview.claims, now) == Err::<
                        PlayerTokenView,
                        AuthClaimError,
                    >(e));
                }
                Err(e)
            },
        }
    }
}

impl AdminAuthToken {
    /// Mints a signed administrator credential expiring four hours
    /// after `now` (saturating at the end of representable time).
    /// Minting never fails.
    pub fn get_jwt(now: u64) -> (r: String)
        ensures
            r@ == token_of(admin_claims(expiry_at(now)), dev_secret_spec()),
    {
        let claims = AuthClaims {
            exp: expiry_for(now),
            auth_level: String::from_str("control"),
            session_id: None,
            user_name: None,
            role: None,
            state: None,
            user_id: None,
        };
        sign_claims(&claims, dev_secret())
    }

    /// Verifies a token string and narrows it to the administrator
    /// tier at time `now`.  A string that is no signed token is
    /// malformed; a signed one fails exactly with its derivation
    /// error.
    pub fn from_token_str(value: &str, now: u64) -> (r: Result<AdminAuthToken, AuthClaimError>)
        ensures
            r matches Ok(t) ==> value@ == token_of(t@.claims, dev_secret_spec())
                && spec_derive_admin(t@.claims, now) == Ok::<AuthClaimsView, AuthClaimError>(
                t@.claims,
            ),
            forall|c: AuthClaimsView| value@ == token_of(c, dev_secret_spec()) ==> match r {
                Ok(t) => spec_derive_admin(c, now) == Ok::<AuthClaimsView, AuthClaimError>(c)
                    && t@.claims == c,
                Err(e) => spec_derive_admin(c, now) == Err::<AuthClaimsView, AuthClaimError>(e),
            },
            r matches Err(e) ==> e == AuthClaimError::Malformed || (exists|c: AuthClaimsView|
                value@ == token_of(c, dev_secret_spec()) && spec_derive_admin(c, now) == Err::<
                    AuthClaimsView,
                    AuthClaimError,
                >(e)),
    {
        let basic = match BasicAuthToken::from_token_str(value, now) {
            Ok(b) => b,
            Err(e) => {
                proof {
                    if e != AuthClaimError::Malformed {
                        let c = choose|c: AuthClaimsView|
                            value@ == token_of(c, dev_secret_spec()) && spec_derive_basic(c, now)
                                == Err::<AuthLevel, AuthClaimError>(e);
                        assert(spec_derive_admin(c, now) == Err::<AuthClaimsView, AuthClaimError>(
                            e,
                        ));
                    }
                }
                return Err(e);
            },
        };
        let ghost bview = basic@;
        match AdminAuthToken::from_basic(basic) {
            Ok(t) => Ok(t),
            Err(e) => {
                proof {
                    assert(value@ == token_of(bview.claims, dev_secret_spec())
                        && spec_derive_admin(bview.claims, now) == Err::<
                        AuthClaimsView,
                        AuthClaimError,
                    >(e));
                }
                Err(e)
            },
        }
    }
}

impl BasicAuthToken {
    /// Verifies a token string and derives the basic tier at time
    /// `now`.  A string that is no signed token is malformed; a
    /// signed one fails exactly with its derivation error.
    pub fn from_token_str(value: &str, now: u64) -> (r: Result<BasicAuthToken, AuthClaimError>)
        ensures
            r matches Ok(t) ==> spec_derive_basic(t@.claims, now) == Ok::<
                AuthLevel,
                AuthClaimError,
            >(t@.auth_level) && t@.exp == t@.claims.exp && value@ == token_of(
                t@.claims,
                dev_secret_spec(),
            ),
            forall|c: AuthClaimsView| value@ == token_of(c, dev_secret_spec()) ==> match r {
                Ok(t) => t@.claims == c,
                Err(e) => spec_derive_basic(c, now) == Err::<AuthLevel, AuthClaimError>(e),
            },
            r matches Err(e) ==> e == AuthClaimError::Malformed || (exists|c: AuthClaimsView|
                value@ == token_of(c, dev_secret_spec()) && spec_derive_basic(c, now) == Err::<
                    AuthLevel,
                    AuthClaimError,
                >(e)),
    {
        let claims = match verify_token(value, dev_secret()) {
            Ok(c) => c,
            Err(e) => {
                return Err(e);
            },
        };
        let ghost cview = claims@;
        match BasicAuthToken::from_claims(claims, now) {
            Ok(t) => Ok(t),
            Err(e) => {
                proof {
                    assert(value@ == token_of(cview, dev_secret_spec()) && spec_derive_basic(
                        cview,
                        now,
                    ) == Err::<AuthLevel, AuthClaimError>(e));
                }
                Err(e)
            },
        }
    }
}

} // verus!
