use session_gate::auth::expiry_for;
use session_gate::codec::{dev_secret, sign_claims, verify_token};
use session_gate::jsonfmt::serialize_claims;
use session_gate::jsonparse::parse_claims_str;
use session_gate::{
    AdminAuthToken, AuthClaimError, AuthClaims, AuthLevel, BasicAuthToken, PlayerAuthToken,
    PlayerState, SessionID,
};

fn player_claims_for_test(exp: u64) -> AuthClaims {
    AuthClaims {
        exp,
        auth_level: "player".to_string(),
        session_id: Some("1234ABCD".to_string()),
        user_name: Some("alice".to_string()),
        role: Some("scout".to_string()),
        state: Some("waiting".to_string()),
        user_id: None,
    }
}

#[test]
fn session_id_accepts_exactly_eight_uppercase_or_digits() {
    assert!(SessionID::new("ABCD1234").is_ok());
    assert!(SessionID::new("ZZZZZZZZ").is_ok());
    assert!(SessionID::new("00000000").is_ok());
    assert_eq!(SessionID::new("ABCD123"), Err("Invalid id-length"));
    assert_eq!(SessionID::new("ABCD12345"), Err("Invalid id-length"));
    assert_eq!(SessionID::new(""), Err("Invalid id-length"));
    assert_eq!(
        SessionID::new("abcd1234"),
        Err("session-id must consist of digits and uppercase ascii letters")
    );
    assert_eq!(
        SessionID::new("ABCD 123"),
        Err("session-id must consist of digits and uppercase ascii letters")
    );
    assert_eq!(
        SessionID::new("ÄBCD1234"),
        Err("session-id must consist of digits and uppercase ascii letters")
    );
}

#[test]
fn session_id_round_trips_and_compares() {
    let a = SessionID::new("A1B2C3D4").unwrap();
    let b = SessionID::new("A1B2C3D4").unwrap();
    let c = SessionID::new("ZZZZZZZZ").unwrap();
    assert_eq!(a.as_str(), "A1B2C3D4");
    assert!(a == b);
    assert!(!(a == c));
    assert!(a.clone() == b);
}

#[test]
fn payload_text_is_canonical() {
    let claims = AuthClaims {
        exp: 5,
        auth_level: "player".to_string(),
        session_id: Some("ABCD1234".to_string()),
        user_name: Some("al\"ice".to_string()),
        role: None,
        state: None,
        user_id: Some(7),
    };
    let text = serialize_claims(&claims);
    assert_eq!(
        text,
        "{\"exp\":5,\"auth_level\":\"player\",\"session_id\":\"ABCD1234\",\
         \"user_name\":\"al\\\"ice\",\"role\":null,\"state\":null,\"user_id\":7}"
    );
    let back = parse_claims_str(&text).unwrap();
    assert_eq!(back.exp, 5);
    assert_eq!(back.user_name.as_deref(), Some("al\"ice"));
    assert_eq!(back.role, None);
    assert_eq!(back.user_id, Some(7));
}

#[test]
fn payload_reader_is_strict() {
    assert!(parse_claims_str("").is_none());
    assert!(parse_claims_str("{}").is_none());
    // leading zero is not canonical
    assert!(parse_claims_str(
        "{\"exp\":05,\"auth_level\":\"p\",\"session_id\":null,\"user_name\":null,\
         \"role\":null,\"state\":null,\"user_id\":null}"
    )
    .is_none());
    // unknown escape
    assert!(parse_claims_str(
        "{\"exp\":5,\"auth_level\":\"p\\n\",\"session_id\":null,\"user_name\":null,\
         \"role\":null,\"state\":null,\"user_id\":null}"
    )
    .is_none());
    // trailing garbage
    assert!(parse_claims_str(
        "{\"exp\":5,\"auth_level\":\"p\",\"session_id\":null,\"user_name\":null,\
         \"role\":null,\"state\":null,\"user_id\":null} "
    )
    .is_none());
    // the canonical form is accepted
    assert!(parse_claims_str(
        "{\"exp\":5,\"auth_level\":\"p\",\"session_id\":null,\"user_name\":null,\
         \"role\":null,\"state\":null,\"user_id\":null}"
    )
    .is_some());
}

#[test]
fn sign_then_verify_returns_the_claims() {
    let claims = AuthClaims {
        exp: 99999,
        auth_level: "player".to_string(),
        session_id: Some("ABCD1234".to_string()),
        user_name: Some("na\\me.\"q\"".to_string()),
        role: Some("rôle".to_string()),
        state: None,
        user_id: Some(42),
    };
    let token = sign_claims(&claims, dev_secret());
    let back = verify_token(&token, dev_secret()).unwrap();
    assert_eq!(back.exp, 99999);
    assert_eq!(back.auth_level, "player");
    assert_eq!(back.session_id.as_deref(), Some("ABCD1234"));
    assert_eq!(back.user_name.as_deref(), Some("na\\me.\"q\""));
    assert_eq!(back.role.as_deref(), Some("rôle"));
    assert_eq!(back.state, None);
    assert_eq!(back.user_id, Some(42));
}

#[test]
fn tampered_or_garbage_tokens_are_rejected() {
    let token = sign_claims(&player_claims_for_test(99999), dev_secret());
    let mut tampered = token.clone();
    let last = tampered.pop().unwrap();
    tampered.push(if last == 'A' { 'B' } else { 'A' });
    assert!(verify_token(&tampered, dev_secret()).is_err());
    assert!(verify_token("abc", dev_secret()).is_err());
    assert!(verify_token("", dev_secret()).is_err());
    // a token signed under another secret does not verify
    assert!(verify_token(&token, b"other-secret").is_err());
}

#[test]
fn player_credential_round_trip() {
    // a credential signed for a player verifies, derives as player,
    // and refuses to derive as admin
    let now: u64 = 1_000_000;
    let sid = SessionID::new("1234ABCD").unwrap();
    let token = PlayerAuthToken::get_jwt(&sid, "alice", "scout", PlayerState::Waiting, now);
    let basic = BasicAuthToken::from_token_str(&token, now).unwrap();
    assert_eq!(basic.auth_level(), AuthLevel::Player);
    assert_eq!(basic.claims().exp, now + 14400);
    let player = PlayerAuthToken::from_token_str(&token, now).unwrap();
    assert_eq!(player.user_name(), "alice");
    assert_eq!(player.role(), "scout");
    assert_eq!(player.session_id.as_str(), "1234ABCD");
    assert!(matches!(
        AdminAuthToken::from_token_str(&token, now),
        Err(AuthClaimError::WrongLevel)
    ));
}

#[test]
fn expired_claims_derive_nothing() {
    let now: u64 = 50_000;
    let sid = SessionID::new("1234ABCD").unwrap();
    let token = PlayerAuthToken::get_jwt(&sid, "alice", "scout", PlayerState::Alive, now);
    // exactly at expiry the token is already dead: expiry must be
    // strictly in the future
    let later = now + 14400;
    assert!(matches!(
        BasicAuthToken::from_token_str(&token, later),
        Err(AuthClaimError::Expired)
    ));
    assert!(matches!(
        PlayerAuthToken::from_token_str(&token, later),
        Err(AuthClaimError::Expired)
    ));
    assert!(matches!(
        AdminAuthToken::from_token_str(&token, later),
        Err(AuthClaimError::Expired)
    ));
    // one second before expiry it still derives
    assert!(BasicAuthToken::from_token_str(&token, later - 1).is_ok());
}

#[test]
fn admin_credential_round_trip() {
    let now: u64 = 7_000;
    let token = AdminAuthToken::get_jwt(now);
    let basic = BasicAuthToken::from_token_str(&token, now).unwrap();
    assert_eq!(basic.auth_level(), AuthLevel::Control);
    assert!(AdminAuthToken::from_token_str(&token, now).is_ok());
    assert!(matches!(
        PlayerAuthToken::from_token_str(&token, now),
        Err(AuthClaimError::WrongLevel)
    ));
}

#[test]
fn player_derivation_reports_missing_fields() {
    let now: u64 = 1_000;
    let mut claims = player_claims_for_test(now + 100);
    claims.user_name = None;
    let token = sign_claims(&claims, dev_secret());
    assert!(matches!(
        PlayerAuthToken::from_token_str(&token, now),
        Err(AuthClaimError::MissingField)
    ));

    let mut claims = player_claims_for_test(now + 100);
    claims.session_id = Some("bad".to_string());
    let token = sign_claims(&claims, dev_secret());
    assert!(matches!(
        PlayerAuthToken::from_token_str(&token, now),
        Err(AuthClaimError::InvalidSessionId)
    ));

    let mut claims = player_claims_for_test(now + 100);
    claims.auth_level = "wizard".to_string();
    let token = sign_claims(&claims, dev_secret());
    assert!(matches!(
        BasicAuthToken::from_token_str(&token, now),
        Err(AuthClaimError::UnknownLevel)
    ));
}

#[test]
fn state_is_optional_for_player_derivation() {
    let now: u64 = 1_000;
    let mut claims = player_claims_for_test(now + 100);
    claims.state = None;
    let token = sign_claims(&claims, dev_secret());
    let player = PlayerAuthToken::from_token_str(&token, now).unwrap();
    assert_eq!(player.state, None);
}

#[test]
fn expiry_saturates_at_the_end_of_time() {
    assert_eq!(expiry_for(1000), 15400);
    assert_eq!(expiry_for(u64::MAX - 10), u64::MAX);
}

#[test]
fn player_state_wire_spellings() {
    assert_eq!(PlayerState::Waiting.as_str(), "waiting");
    assert_eq!(PlayerState::Alive.as_str(), "alive");
    assert_eq!(PlayerState::Dead.as_str(), "dead");
    assert_eq!(PlayerState::Spectator.as_str(), "spectator");
}
