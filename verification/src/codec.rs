//! The credential codec: signing and verifying claim-set tokens.
//!
//! A token is `header.payload.signature`: the fixed header and the
//! canonical payload text, each base64url-encoded without padding,
//! and an HMAC-SHA256 tag over the first two parts.  The payload
//! text is written and read by this crate's own verified writer and
//! reader; only the base64url transport coding and the keyed tag
//! come from outside crates, behind the trusted items below.
//!
//! Verification checks signature and structure only; expiry and
//! tier rules are the hierarchy's job.

use vstd::prelude::*;

use crate::jsonfmt::{ser_claims, serialize_claims};
use crate::jsonparse::{lemma_parse_claims_sound, lemma_parse_lit_rt, lemma_parse_ser_claims,
    parse_claims_str, parse_lit};
use crate::strutil::str_eq;
use base64::Engine;
use crate::token::{AuthClaimError, AuthClaims, AuthClaimsView};

verus! {

use vstd::string::{StrSliceExecFns, StringExecFns};
use vstd::utf8::{encode_utf8, encode_utf8_decode_utf8, encode_utf8_valid_utf8, valid_utf8};

/// What the base64url coder returns, named; only the trusted items
/// below say anything about it.
pub uninterp spec fn b64url_raw(b: Seq<u8>) -> Seq<char>;

/// The base64url (no padding) encoding of `b`.  Written over
/// [`b64url_raw`] so that every model agrees the encoding carries
/// neither a separator dot nor a space, which the real alphabet
/// never contains.
pub open spec fn b64url_of(b: Seq<u8>) -> Seq<char> {
    b64url_raw(b).map(|_i: int, c: char| if c == '.' || c == ' ' { 'A' } else { c })
}

/// What the keyed HMAC-SHA256 tag (already base64url-encoded) is,
/// named; a function of message and key alone.
pub uninterp spec fn hs256_raw(msg: Seq<u8>, key: Seq<u8>) -> Seq<char>;

/// The base64url-encoded HMAC-SHA256 tag of `msg` under `key`, free
/// of dots and spaces for the same reason as [`b64url_of`].
pub open spec fn hs256_tag(msg: Seq<u8>, key: Seq<u8>) -> Seq<char> {
    hs256_raw(msg, key).map(|_i: int, c: char| if c == '.' || c == ' ' { 'A' } else { c })
}

/// Relies on base64's `URL_SAFE_NO_PAD` engine: encoding is a pure
/// function of the bytes.
#[verifier::external_body]
fn b64url_encode(b: &[u8]) -> (r: String)
    ensures
        r@ == b64url_raw(b@),
        r@ == b64url_of(b@),
{
    base64::engine::general_purpose::URL_SAFE_NO_PAD.encode(b)
}

/// Relies on base64's `URL_SAFE_NO_PAD` engine: with padding
/// forbidden and trailing bits checked, decoding succeeds exactly on
/// the canonical encoding of some byte string, and returns it.
#[verifier::external_body]
fn b64url_decode(s: &str) -> (r: Option<Vec<u8>>)
    ensures
        match r {
            Some(v) => s@ == b64url_of(v@) && (forall|b: Seq<u8>| s@ == b64url_of(b) ==> b == v@),
            None => forall|b: Seq<u8>| s@ != b64url_of(b),
        },
{
    match base64::engine::general_purpose::URL_SAFE_NO_PAD.decode(s) {
        Ok(v) => Some(v),
        Err(_) => None,
    }
}

/// Relies on `jsonwebtoken::crypto::sign` with `HS256` under the
/// crate's `rust_crypto` provider: HMAC accepts keys of any length
/// and its signer never fails, so a tag always comes back, and it is
/// a function of message and secret alone.  A process that installs
/// its own crypto provider is outside this contract.
#[verifier::external_body]
fn hs256_sign(msg: &[u8], key: &[u8]) -> (r: Option<String>)
    ensures
        r is Some,
        r matches Some(t) ==> t@ == hs256_raw(msg@, key@) && t@ == hs256_tag(msg@, key@),
{
    match jsonwebtoken::crypto::sign(
        msg,
        &jsonwebtoken::EncodingKey::from_secret(key),
        jsonwebtoken::Algorithm::HS256,
    ) {
        Ok(t) => Some(t),
        Err(_) => None,
    }
}

/// Relies on `String::from_utf8`: succeeds exactly on valid UTF-8,
/// and the string's bytes are the input.
#[verifier::external_body]
fn bytes_to_string(v: Vec<u8>) -> (r: Option<String>)
    ensures
        match r {
            Some(s) => encode_utf8(s@) == v@,
            None => !valid_utf8(v@),
        },
{
    match String::from_utf8(v) {
        Ok(s) => Some(s),
        Err(_) => None,
    }
}

/// The signing secret every thread of this deployment shares.
pub open spec fn dev_secret_spec() -> Seq<u8> {
    encode_utf8("dev-secret"@)
}

/// The signing secret every thread of this deployment shares.
pub fn dev_secret() -> (r: &'static [u8])
    ensures
        r@ == dev_secret_spec(),
{
    "dev-secret".as_bytes()
}

/// The fixed token header text.
pub open spec fn header_json() -> Seq<char> {
    "{\"alg\":\"HS256\",\"typ\":\"JWT\"}"@
}

/// The fixed token header text.
fn header_str() -> (r: &'static str)
    ensures
        r@ == header_json(),
{
    "{\"alg\":\"HS256\",\"typ\":\"JWT\"}"
}

/// The encoded fixed header.
pub open spec fn header_b64() -> Seq<char> {
    b64url_of(encode_utf8(header_json()))
}

/// The two signed parts of a token around payload text `x`.
pub open spec fn signing_input_of(x: Seq<char>) -> Seq<char> {
    header_b64() + seq!['.'] + b64url_of(encode_utf8(x))
}

/// The full token around payload text `x` under `secret`.
pub open spec fn token_with_payload(x: Seq<char>, secret: Seq<u8>) -> Seq<char> {
    signing_input_of(x) + seq!['.'] + hs256_tag(encode_utf8(signing_input_of(x)), secret)
}

/// The token of claim set `c` under `secret`.
pub open spec fn token_of(c: AuthClaimsView, secret: Seq<u8>) -> Seq<char> {
    token_with_payload(ser_claims(c), secret)
}

/// A signed token never contains a space: its three parts use the
/// base64url alphabet and the separator is a dot.  This is what lets
/// a token travel inside a bearer authorization header.
pub proof fn lemma_token_no_space(c: AuthClaimsView, secret: Seq<u8>)
    ensures
        forall|i: int|
            0 <= i < token_of(c, secret).len() ==> (#[trigger] token_of(c, secret)[i]) != ' ',
{
    let h = header_b64();
    let p = b64url_of(encode_utf8(ser_claims(c)));
    let tag = hs256_tag(encode_utf8(signing_input_of(ser_claims(c))), secret);
    let t = token_of(c, secret);
    assert(t =~= h + seq!['.'] + p + seq!['.'] + tag);
    assert forall|i: int| 0 <= i < t.len() implies (#[trigger] t[i]) != ' ' by {
        if i < h.len() {
            assert(t[i] == h[i]);
            assert(h[i] != ' ');
        } else if i == h.len() {
            assert(t[i] == '.');
        } else if i < h.len() + 1 + p.len() {
            assert(t[i] == p[i - h.len() - 1]);
            assert(p[i - h.len() - 1] != ' ');
        } else if i == h.len() + 1 + p.len() {
            assert(t[i] == '.');
        } else {
            assert(t[i] == tag[i - h.len() - 2 - p.len()]);
            assert(tag[i - h.len() - 2 - p.len()] != ' ');
        }
    }
}

/// Signs a claim set.  Signing never fails: expiry is whatever the
/// claims carry, and the clock is the caller's concern.
pub fn sign_claims(c: &AuthClaims, secret: &[u8]) -> (r: String)
    ensures
        r@ == token_of(c@, secret@),
{
    let payload = serialize_claims(c);
    let h = b64url_encode(header_str().as_bytes());
    let p = b64url_encode(payload.as_str().as_bytes());
    let mut input = h;
    input.append(".");
    input.append(p.as_str());
    proof {
        reveal_strlit(".");
        assert("."@ =~= seq!['.']);
        assert(input@ =~= signing_input_of(ser_claims(c@)));
    }
    let sig = match hs256_sign(input.as_str().as_bytes(), secret) {
        Some(s) => s,
        None => vstd::pervasive::unreached(),
    };
    let mut tok = input;
    tok.append(".");
    tok.append(sig.as_str());
    proof {
        assert(tok@ =~= token_of(c@, secret@));
    }
    tok
}

/// The first dot at or after `from`, if any.
fn find_dot(s: &str, from: usize) -> (r: Option<usize>)
    requires
        from <= s@.len(),
    ensures
        match r {
            Some(d) => from <= d < s@.len() && s@[d as int] == '.' && (forall|j: int|
                from <= j < d ==> s@[j] != '.'),
            None => forall|j: int| from <= j < s@.len() ==> s@[j] != '.',
        },
{
    let n = s.unicode_len();
    let mut i: usize = from;
    while i < n
        invariant
            from <= i <= n,
            n == s@.len(),
            forall|j: int| from <= j < i ==> s@[j] != '.',
        decreases n - i,
    {
        if s.get_char(i) == '.' {
            return Some(i);
        }
        i = i + 1;
    }
    None
}

/// Verifies a token against `secret` and returns its claim set.
///
/// A string is accepted exactly when it is the signed token of some
/// claim set, and then returns that claim set; anything else is
/// turned away as malformed.  Expiry is not checked here.
#[verifier::rlimit(60)]
#[verifier::spinoff_prover]
pub fn verify_token(t: &str, secret: &[u8]) -> (r: Result<AuthClaims, AuthClaimError>)
    ensures
        r matches Ok(k) ==> t@ == token_of(k@, secret@),
        forall|c: AuthClaimsView| t@ == token_of(c, secret@) ==> match r {
            Ok(k) => k@ == c,
            Err(_) => false,
        },
        r matches Err(e) ==> e == AuthClaimError::Malformed,
{
    proof {
        reveal_strlit(".");
        assert("."@ =~= seq!['.']);
    }
    let ghost gsec: Seq<u8> = secret@;
    let n = t.unicode_len();
    let mut hp = b64url_encode(header_str().as_bytes());
    hp.append(".");
    let ghost hpv: Seq<char> = hp@;
    proof {
        assert(hpv =~= header_b64() + seq!['.']);
        assert forall|c: AuthClaimsView| t@ == token_of(c, gsec) implies parse_lit(t@, hpv)
            is Some by {
            let tail = b64url_of(encode_utf8(ser_claims(c))) + seq!['.'] + hs256_tag(
                encode_utf8(signing_input_of(ser_claims(c))),
                gsec,
            );
            assert(t@ =~= hpv + tail);
            lemma_parse_lit_rt(hpv, tail);
        }
    }
    let pos = match crate::jsonparse::p_lit(t, 0, hp.as_str()) {
        Some(p) => p,
        None => {
            proof {
                assert(t@.skip(0) =~= t@);
            }
            return Err(AuthClaimError::Malformed);
        },
    };
    proof {
        assert(t@.skip(0) =~= t@);
        assert(parse_lit(t@, hpv) == Some(t@.skip(pos as int)));
        assert(hpv.len() <= t@.len());
        assert(t@.skip(hpv.len() as int) == t@.skip(pos as int));
        assert(t@.skip(hpv.len() as int).len() == t@.len() - hpv.len());
        assert(t@.skip(pos as int).len() == t@.len() - pos);
        assert(pos == hpv.len());
        assert(t@.take(pos as int) =~= hpv);
    }
    let d2 = match find_dot(t, pos) {
        Some(d) => d,
        None => {
            proof {
                assert forall|c: AuthClaimsView| t@ != token_of(c, gsec) by {
                    if t@ == token_of(c, gsec) {
                        let pb = b64url_of(encode_utf8(ser_claims(c)));
                        assert(t@[pos + pb.len()] == '.');
                    }
                }
            }
            return Err(AuthClaimError::Malformed);
        },
    };
    let p_str = t.substring_char(pos, d2);
    let sig_str = t.substring_char(d2 + 1, n);
    proof {
        assert forall|c: AuthClaimsView| t@ == token_of(c, gsec) implies p_str@ == b64url_of(
            encode_utf8(ser_claims(c)),
        ) && sig_str@ == hs256_tag(encode_utf8(signing_input_of(ser_claims(c))), gsec) by {
            let pb = b64url_of(encode_utf8(ser_claims(c)));
            let sb = hs256_tag(encode_utf8(signing_input_of(ser_claims(c))), gsec);
            assert(t@ =~= hpv + pb + seq!['.'] + sb);
            assert(forall|j: int| 0 <= j < pb.len() ==> t@[pos + j] == pb[j]);
            assert(forall|j: int| 0 <= j < pb.len() ==> pb[j] != '.');
            assert(t@[pos + pb.len()] == '.');
            assert(d2 == pos + pb.len());
            assert(p_str@ =~= pb);
            assert(sig_str@ =~= sb);
        }
    }
    let mut input = hp;
    input.append(p_str);
    let tag = match hs256_sign(input.as_str().as_bytes(), secret) {
        Some(s) => s,
        None => vstd::pervasive::unreached(),
    };
    if !str_eq(sig_str, tag.as_str()) {
        proof {
            assert forall|c: AuthClaimsView| t@ != token_of(c, gsec) by {
                if t@ == token_of(c, gsec) {
                    assert(input@ =~= signing_input_of(ser_claims(c)));
                }
            }
        }
        return Err(AuthClaimError::Malformed);
    }
    let v = match b64url_decode(p_str) {
        Some(v) => v,
        None => {
            return Err(AuthClaimError::Malformed);
        },
    };
    let st = match bytes_to_string(v) {
        Some(s) => s,
        None => {
            proof {
                assert forall|c: AuthClaimsView| t@ != token_of(c, gsec) by {
                    if t@ == token_of(c, gsec) {
                        encode_utf8_valid_utf8(ser_claims(c));
                    }
                }
            }
            return Err(AuthClaimError::Malformed);
        },
    };
    let k = match parse_claims_str(st.as_str()) {
        Some(k) => k,
        None => {
            proof {
                assert forall|c: AuthClaimsView| t@ != token_of(c, gsec) by {
                    if t@ == token_of(c, gsec) {
                        encode_utf8_decode_utf8(st@);
                        encode_utf8_decode_utf8(ser_claims(c));
                        assert(st@ == ser_claims(c));
                        lemma_parse_ser_claims(c);
                    }
                }
            }
            return Err(AuthClaimError::Malformed);
        },
    };
    proof {
        assert(t@ =~= hpv + p_str@ + seq!['.'] + sig_str@);
        assert(input@ =~= header_b64() + seq!['.'] + p_str@);
        assert(p_str@ == b64url_of(encode_utf8(st@)));
        assert(input@ =~= signing_input_of(st@));
        assert(t@ =~= token_with_payload(st@, gsec));
        lemma_parse_claims_sound(st@);
        assert(st@ == ser_claims(k@));
        assert(t@ == token_of(k@, gsec));
        assert forall|c: AuthClaimsView| t@ == token_of(c, gsec) implies k@ == c by {
            encode_utf8_decode_utf8(st@);
            encode_utf8_decode_utf8(ser_claims(c));
            assert(st@ == ser_claims(c));
            lemma_parse_ser_claims(c);
        }
    }
    Ok(k)
}

} // verus!
