//! The handshake gate: locating a credential in a request and
//! classifying a socket upgrade.
//!
//! A request carries its token either in an authorization header or
//! in a cookie; the header wins ties, and the cookie is consulted
//! only when the header is absent or fails.
//! A socket upgrade carries the raw token in its request path.
//! Player credentials are preferred to administrator ones, and a
//! rejection is a generic error that leaks no tier-specific reason.

use vstd::prelude::*;

use crate::codec::{dev_secret_spec, token_of};
use crate::session_id::SessionID;
use crate::token::{
    AdminAuthToken, AuthClaimError, AuthClaimsView, AuthLevel, BasicAuthToken, PlayerAuthToken,
    PlayerTokenView, spec_derive_admin, spec_derive_basic, spec_derive_player,
};

verus! {

use vstd::string::StrSliceExecFns;

/// The token a `Bearer` authorization header carries: the header
/// must be the word `Bearer`, one space, and the token, with no
/// further space anywhere.
pub open spec fn spec_bearer(h: Seq<char>) -> Option<Seq<char>> {
    if h.len() >= 7 && h.take(7) == "Bearer "@ && (forall|i: int|
        7 <= i < h.len() ==> h[i] != ' ') {
        Some(h.skip(7))
    } else {
        None
    }
}

/// Extracts the token from a `Bearer` authorization header.
pub fn bearer_token<'a>(h: &'a str) -> (r: Option<&'a str>)
    ensures
        match r {
            Some(t) => spec_bearer(h@) == Some(t@),
            None => spec_bearer(h@) is None,
        },
{
    proof {
        reveal_strlit("Bearer ");
    }
    let n = h.unicode_len();
    if n < 7 {
        return None;
    }
    let prefix_ok = {
        let mut i: usize = 0;
        let mut ok = true;
        let bearer = "Bearer ";
        while i < 7
            invariant
                i <= 7,
                n >= 7,
                n == h@.len(),
                bearer@ == "Bearer "@,
                bearer@.len() == 7,
                ok == (forall|j: int| 0 <= j < i ==> h@[j] == "Bearer "@[j]),
            decreases 7 - i,
        {
            if h.get_char(i) != bearer.get_char(i) {
                ok = false;
            }
            i = i + 1;
        }
        ok
    };
    if !prefix_ok {
        proof {
            assert(h@.take(7) != "Bearer "@) by {
                let j = choose|j: int| 0 <= j < 7 && h@[j] != "Bearer "@[j];
                assert(h@.take(7)[j] != "Bearer "@[j]);
            }
        }
        return None;
    }
    proof {
        assert(h@.take(7) =~= "Bearer "@);
    }
    let mut i: usize = 7;
    while i < n
        invariant
            7 <= i <= n,
            n == h@.len(),
            forall|j: int| 7 <= j < i ==> h@[j] != ' ',
        decreases n - i,
    {
        if h.get_char(i) == ' ' {
            return None;
        }
        i = i + 1;
    }
    let t = h.substring_char(7, n);
    proof {
        assert(t@ =~= h@.skip(7));
    }
    Some(t)
}

/// Derives a basic credential from a request's authorization header
/// and token cookie: the header wins ties, the cookie is the
/// fallback, and a request carrying neither is turned away.
pub fn basic_from_request(header: Option<&str>, cookie: Option<&str>, now: u64) -> (r: Result<
    BasicAuthToken,
    AuthClaimError,
>)
    ensures
        header is None && cookie is None ==> r == Err::<BasicAuthToken, AuthClaimError>(
            AuthClaimError::NoAuthCookie,
        ),
        r matches Ok(t) ==> spec_derive_basic(t@.claims, now) == Ok::<AuthLevel, AuthClaimError>(
            t@.auth_level,
        ) && ((header matches Some(h) && spec_bearer(h@) == Some(
            token_of(t@.claims, dev_secret_spec()),
        )) || (cookie matches Some(k) && k@ == token_of(t@.claims, dev_secret_spec()))),
        forall|c: AuthClaimsView|
            #![trigger token_of(c, dev_secret_spec())]
            (header matches Some(h) && spec_bearer(h@) == Some(token_of(c, dev_secret_spec()))
                && spec_derive_basic(c, now) is Ok) ==> (match r {
                Ok(t) => t@.claims == c,
                Err(_) => false,
            }),
{
    if let Some(h) = header {
        if let Some(tok) = bearer_token(h) {
            match BasicAuthToken::from_token_str(tok, now) {
                Ok(t) => {
                    return Ok(t);
                },
                Err(_) => {},
            }
        }
    }
    if let Some(k) = cookie {
        match BasicAuthToken::from_token_str(k, now) {
            Ok(t) => {
                return Ok(t);
            },
            Err(e) => {
                return Err(e);
            },
        }
    }
    if header.is_none() {
        return Err(AuthClaimError::NoAuthCookie);
    }
    Err(AuthClaimError::Malformed)
}

/// Derives a player credential from a request's authorization header
/// and token cookie, header first.
pub fn player_from_request(header: Option<&str>, cookie: Option<&str>, now: u64) -> (r: Result<
    PlayerAuthToken,
    AuthClaimError,
>)
    ensures
        header is None && cookie is None ==> r == Err::<PlayerAuthToken, AuthClaimError>(
            AuthClaimError::NoAuthCookie,
        ),
        r matches Ok(p) ==> p.session_id.wf() && spec_derive_player(p@.claims, now) == Ok::<
            PlayerTokenView,
            AuthClaimError,
        >(p@) && ((header matches Some(h) && spec_bearer(h@) == Some(
            token_of(p@.claims, dev_secret_spec()),
        )) || (cookie matches Some(k) && k@ == token_of(p@.claims, dev_secret_spec()))),
        forall|c: AuthClaimsView|
            #![trigger token_of(c, dev_secret_spec())]
            (header matches Some(h) && spec_bearer(h@) == Some(token_of(c, dev_secret_spec()))
                && spec_derive_player(c, now) is Ok) ==> (match r {
                Ok(p) => spec_derive_player(c, now) == Ok::<PlayerTokenView, AuthClaimError>(p@),
                Err(_) => false,
            }),
{
    if let Some(h) = header {
        if let Some(tok) = bearer_token(h) {
            match PlayerAuthToken::from_token_str(tok, now) {
                Ok(t) => {
                    return Ok(t);
                },
                Err(_) => {},
            }
        }
    }
    if let Some(k) = cookie {
        match PlayerAuthToken::from_token_str(k, now) {
            Ok(t) => {
                return Ok(t);
            },
            Err(e) => {
                return Err(e);
            },
        }
    }
    if header.is_none() {
        return Err(AuthClaimError::NoAuthCookie);
    }
    Err(AuthClaimError::Malformed)
}

/// Derives an administrator credential from a request's
/// authorization header and token cookie, header first.
pub fn admin_from_request(header: Option<&str>, cookie: Option<&str>, now: u64) -> (r: Result<
    AdminAuthToken,
    AuthClaimError,
>)
    ensures
        header is None && cookie is None ==> r == Err::<AdminAuthToken, AuthClaimError>(
            AuthClaimError::NoAuthCookie,
        ),
        r matches Ok(t) ==> spec_derive_admin(t@.claims, now) == Ok::<
            AuthClaimsView,
            AuthClaimError,
        >(t@.claims) && ((header matches Some(h) && spec_bearer(h@) == Some(
            token_of(t@.claims, dev_secret_spec()),
        )) || (cookie matches Some(k) && k@ == token_of(t@.claims, dev_secret_spec()))),
        forall|c: AuthClaimsView|
            #![trigger token_of(c, dev_secret_spec())]
            (header matches Some(h) && spec_bearer(h@) == Some(token_of(c, dev_secret_spec()))
                && spec_derive_admin(c, now) is Ok) ==> (match r {
                Ok(t) => t@.claims == c,
                Err(_) => false,
            }),
{
    if let Some(h) = header {
        if let Some(tok) = bearer_token(h) {
            match AdminAuthToken::from_token_str(tok, now) {
                Ok(t) => {
                    return Ok(t);
                },
                Err(_) => {},
            }
        }
    }
    if let Some(k) = cookie {
        match AdminAuthToken::from_token_str(k, now) {
            Ok(t) => {
                return Ok(t);
            },
            Err(e) => {
                return Err(e);
            },
        }
    }
    if header.is_none() {
        return Err(AuthClaimError::NoAuthCookie);
    }
    Err(AuthClaimError::Malformed)
}

/// How an accepted socket upgrade is classified.
pub enum UpgradeClass {
    /// A player connection, bound to this session.
    Player(SessionID),
    /// An administrator connection, subscribed to every session.
    Admin,
}

/// Classifies a socket-upgrade request from its path, whose sole
/// segment after the leading separator is the raw token: the player
/// tier is tried first, then the administrator tier; a rejection is
/// a generic invalid-token error that names no tier-specific reason.
pub fn classify_ws_path(path: &str, now: u64) -> (r: Result<UpgradeClass, AuthClaimError>)
    ensures
        r is Err ==> r == Err::<UpgradeClass, AuthClaimError>(AuthClaimError::Malformed),
        r matches Ok(UpgradeClass::Player(sid)) ==> sid.wf() && (exists|
            cl: AuthClaimsView,
            v: PlayerTokenView,
        |
            path@.skip(1) == token_of(cl, dev_secret_spec()) && spec_derive_player(cl, now)
                == Ok::<PlayerTokenView, AuthClaimError>(v) && v.session_id == sid@),
        r matches Ok(UpgradeClass::Admin) ==> exists|cl: AuthClaimsView|
            path@.skip(1) == token_of(cl, dev_secret_spec()) && spec_derive_admin(cl, now)
                == Ok::<AuthClaimsView, AuthClaimError>(cl),
        forall|c: AuthClaimsView|
            #![trigger token_of(c, dev_secret_spec())]
            (path@.len() >= 1 && path@.skip(1) == token_of(c, dev_secret_spec())) ==> (match r {
                Ok(UpgradeClass::Player(sid)) => spec_derive_player(c, now) matches Ok(v)
                    && v.session_id == sid@,
                Ok(UpgradeClass::Admin) => spec_derive_player(c, now) is Err && spec_derive_admin(
                    c,
                    now,
                ) is Ok,
                Err(_) => spec_derive_player(c, now) is Err && spec_derive_admin(c, now) is Err,
            }),
{
    let n = path.unicode_len();
    if n < 1 {
        return Err(AuthClaimError::Malformed);
    }
    let tok = path.substring_char(1, n);
    proof {
        assert(tok@ =~= path@.skip(1));
    }
    match PlayerAuthToken::from_token_str(tok, now) {
        Ok(p) => {
            proof {
                assert(path@.skip(1) == token_of(p@.claims, dev_secret_spec())
                    && spec_derive_player(p@.claims, now) == Ok::<
                    PlayerTokenView,
                    AuthClaimError,
                >(p@) && p@.session_id == p.session_id@);
            }
            return Ok(UpgradeClass::Player(p.session_id));
        },
        Err(_) => {},
    }
    match AdminAuthToken::from_token_str(tok, now) {
        Ok(t) => {
            proof {
                assert(path@.skip(1) == token_of(t@.claims, dev_secret_spec())
                    && spec_derive_admin(t@.claims, now) == Ok::<
                    AuthClaimsView,
                    AuthClaimError,
                >(t@.claims));
            }
            Ok(UpgradeClass::Admin)
        },
        Err(_) => Err(AuthClaimError::Malformed),
    }
}

/// A signed token fits a bearer authorization header: it contains
/// no space, so `Bearer ` followed by the token extracts back to
/// exactly the token.  With the header-precedence clauses above,
/// a request carrying a valid credential in its bearer header is
/// accepted from the header, whatever the cookie holds.
pub proof fn lemma_bearer_of_token(c: AuthClaimsView, secret: Seq<u8>)
    ensures
        spec_bearer("Bearer "@ + token_of(c, secret)) == Some(token_of(c, secret)),
{
    reveal_strlit("Bearer ");
    crate::codec::lemma_token_no_space(c, secret);
    let t = token_of(c, secret);
    let h = "Bearer "@ + t;
    assert(h.take(7) =~= "Bearer "@);
    assert(h.skip(7) =~= t);
    assert forall|i: int| 7 <= i < h.len() implies h[i] != ' ' by {
        assert(h[i] == t[i - 7]);
    }
}

} // verus!
