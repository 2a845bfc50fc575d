use session_gate::api::{build_stats, evaluate_join, get_status, resolve_alive_count, JoinError};
use session_gate::auth::expiry_for;
use session_gate::gate::{
    admin_from_request, basic_from_request, bearer_token, classify_ws_path, player_from_request,
    UpgradeClass,
};
use session_gate::net_types::BasicSessionInfo;
use session_gate::notify::{
    read_count, route_notification, Delivery, SocketProbe, WsConnection,
};
use session_gate::records::SessionData;
use session_gate::{
    AdminAuthToken, AuthClaimError, Notification, Notifier, PlayerAuthToken, PlayerState,
    SessionID, WebsocketHandler,
};

fn sid(s: &str) -> SessionID {
    SessionID::new(s).unwrap()
}

fn player_token(session: &str, name: &str, now: u64) -> String {
    PlayerAuthToken::get_jwt(&sid(session), name, "scout", PlayerState::Waiting, now)
}

#[test]
fn bearer_header_shapes() {
    assert_eq!(bearer_token("Bearer abc"), Some("abc"));
    assert_eq!(bearer_token("Bearer "), Some(""));
    assert_eq!(bearer_token("Bearerabc"), None);
    assert_eq!(bearer_token("Basic abc"), None);
    assert_eq!(bearer_token("Bearer a b"), None);
    assert_eq!(bearer_token(""), None);
}

#[test]
fn header_beats_cookie() {
    // an upgrade request with a valid admin bearer header and an
    // invalid cookie must succeed using the header
    let now: u64 = 10_000;
    let admin = AdminAuthToken::get_jwt(now);
    let header = format!("Bearer {}", admin);
    let r = admin_from_request(Some(&header), Some("not-a-token"), now);
    assert!(r.is_ok());
}

#[test]
fn cookie_is_the_fallback() {
    let now: u64 = 10_000;
    let admin = AdminAuthToken::get_jwt(now);
    // header absent: the cookie is used
    assert!(admin_from_request(None, Some(&admin), now).is_ok());
    // header present but not parseable as the tier: fall through
    assert!(admin_from_request(Some("Bearer junk"), Some(&admin), now).is_ok());
    // neither source present
    assert!(matches!(
        admin_from_request(None, None, now),
        Err(AuthClaimError::NoAuthCookie)
    ));
    assert!(matches!(
        basic_from_request(None, None, now),
        Err(AuthClaimError::NoAuthCookie)
    ));
    assert!(matches!(
        player_from_request(None, None, now),
        Err(AuthClaimError::NoAuthCookie)
    ));
}

#[test]
fn player_request_extraction() {
    let now: u64 = 123_456;
    let tok = player_token("ABCD1234", "alice", now);
    let header = format!("Bearer {}", tok);
    let p = player_from_request(Some(&header), None, now).unwrap();
    assert_eq!(p.user_name(), "alice");
    assert_eq!(p.session_id.as_str(), "ABCD1234");
    // an admin token does not extract as a player
    let admin = AdminAuthToken::get_jwt(now);
    let header = format!("Bearer {}", admin);
    assert!(player_from_request(Some(&header), None, now).is_err());
}

#[test]
fn ws_upgrade_classification() {
    let now: u64 = 55_555;
    let ptok = player_token("WXYZ0099", "bob", now);
    let path = format!("/{}", ptok);
    match classify_ws_path(&path, now).unwrap() {
        UpgradeClass::Player(s) => assert_eq!(s.as_str(), "WXYZ0099"),
        UpgradeClass::Admin => panic!("classified as admin"),
    }
    let atok = AdminAuthToken::get_jwt(now);
    let path = format!("/{}", atok);
    assert!(matches!(
        classify_ws_path(&path, now).unwrap(),
        UpgradeClass::Admin
    ));
    // rejection is the generic invalid-token error
    assert!(matches!(
        classify_ws_path("/garbage", now),
        Err(AuthClaimError::Malformed)
    ));
    assert!(matches!(
        classify_ws_path("", now),
        Err(AuthClaimError::Malformed)
    ));
    // an expired credential no longer upgrades
    assert!(classify_ws_path(&format!("/{}", ptok), expiry_for(now) + 1).is_err());
}

fn texts(ds: &[Delivery]) -> Vec<(u64, String)> {
    ds.iter().map(|d| (d.socket, d.text.clone())).collect()
}

#[test]
fn playerlist_broadcast_reaches_exactly_the_session_and_admins() {
    let conns = vec![
        WsConnection::Player { session_id: sid("AAAAAAAA"), socket: 1 },
        WsConnection::Player { session_id: sid("BBBBBBBB"), socket: 2 },
        WsConnection::Admin { socket: 3 },
        WsConnection::Player { session_id: sid("AAAAAAAA"), socket: 4 },
    ];
    let out = route_notification(&conns, &Notification::UpdatePlayerList(sid("AAAAAAAA")));
    assert_eq!(
        texts(&out.deliveries),
        vec![
            (1, "update.playerlist".to_string()),
            (3, "update.playerlist".to_string()),
            (4, "update.playerlist".to_string()),
        ]
    );
    assert_eq!(out.alive_count, None);
}

#[test]
fn session_broadcast_to_another_session_reaches_nobody() {
    // two connections registered under one session; a broadcast to a
    // different session reaches neither
    let conns = vec![
        WsConnection::Player { session_id: sid("ABCDEFGH"), socket: 1 },
        WsConnection::Player { session_id: sid("ABCDEFGH"), socket: 2 },
    ];
    let out = route_notification(
        &conns,
        &Notification::CustomToSession(sid("ZZZZZZZZ"), "hello".to_string()),
    );
    assert!(out.deliveries.is_empty());
    let out = route_notification(
        &conns,
        &Notification::CustomToSession(sid("ABCDEFGH"), "hello".to_string()),
    );
    assert_eq!(
        texts(&out.deliveries),
        vec![(1, "hello".to_string()), (2, "hello".to_string())]
    );
}

#[test]
fn direct_player_messages_are_not_routed() {
    let conns = vec![WsConnection::Admin { socket: 9 }];
    let out = route_notification(
        &conns,
        &Notification::CustomToPlayer(7, "psst".to_string()),
    );
    assert!(out.deliveries.is_empty());
    assert_eq!(out.alive_count, None);
}

#[test]
fn liveness_query_answers_with_the_connection_count() {
    // three registered connections: the query is answered with 3
    // within the same tick
    let (tx, rx) = std::sync::mpsc::channel();
    let notifier = Notifier::new(tx);
    let mut handler = WebsocketHandler::new(rx);
    handler.add_socket(WsConnection::Admin { socket: 1 });
    handler.add_socket(WsConnection::Player { session_id: sid("AAAAAAAA"), socket: 2 });
    handler.add_socket(WsConnection::Player { session_id: sid("BBBBBBBB"), socket: 3 });
    let slot = std::sync::Arc::new(std::sync::atomic::AtomicI64::new(-1));
    notifier.send(Notification::UpdateConnectionsAlive(slot.clone()));
    let writes = handler.handle_notifications(16);
    assert!(writes.is_empty());
    assert_eq!(read_count(&slot), 3);
    assert_eq!(resolve_alive_count(read_count(&slot)), 3);
}

#[test]
fn liveness_fallback_is_zero_not_a_hang() {
    // the worker never answered: the slot still reads negative and
    // the bounded wait resolves to the safe default
    let slot = std::sync::Arc::new(std::sync::atomic::AtomicI64::new(-1));
    assert_eq!(resolve_alive_count(read_count(&slot)), 0);
    assert_eq!(resolve_alive_count(-1), 0);
    assert_eq!(resolve_alive_count(0), 0);
    assert_eq!(resolve_alive_count(7), 7);
    assert_eq!(resolve_alive_count(i64::MAX), u32::MAX);
}

#[test]
fn handler_drains_and_routes() {
    let (tx, rx) = std::sync::mpsc::channel();
    let notifier = Notifier::new(tx);
    let mut handler = WebsocketHandler::new(rx);
    handler.add_socket(WsConnection::Player { session_id: sid("AAAAAAAA"), socket: 1 });
    handler.add_socket(WsConnection::Player { session_id: sid("CCCCCCCC"), socket: 2 });
    notifier.send(Notification::UpdatePlayerList(sid("AAAAAAAA")));
    notifier.send(Notification::CustomToSession(sid("CCCCCCCC"), "go".to_string()));
    let writes = handler.handle_notifications(16);
    assert_eq!(
        texts(&writes),
        vec![(1, "update.playerlist".to_string()), (2, "go".to_string())]
    );
    // the queue is now empty
    assert!(handler.handle_notifications(16).is_empty());
}

#[test]
fn reaper_removes_marked_connections_once() {
    let (_tx, rx) = std::sync::mpsc::channel();
    let mut handler = WebsocketHandler::new(rx);
    handler.add_socket(WsConnection::Player { session_id: sid("AAAAAAAA"), socket: 10 });
    handler.add_socket(WsConnection::Player { session_id: sid("BBBBBBBB"), socket: 11 });
    handler.add_socket(WsConnection::Admin { socket: 12 });
    let probes = vec![
        SocketProbe { usable: true, close_received: false },
        SocketProbe { usable: false, close_received: false },
        SocketProbe { usable: true, close_received: true },
    ];
    handler.poll_messages(&probes);
    assert!(handler.needs_cleanup());
    handler.clean_up();
    assert_eq!(handler.connection_count(), 1);
    assert!(!handler.needs_cleanup());
    // running the reaper again with nothing new marked removes
    // nothing: the pass is idempotent
    handler.clean_up();
    assert_eq!(handler.connection_count(), 1);
    let remaining = handler.terminate();
    assert_eq!(remaining, vec![10]);
}

#[test]
fn probe_pass_with_all_sockets_healthy_marks_nothing() {
    let (_tx, rx) = std::sync::mpsc::channel();
    let mut handler = WebsocketHandler::new(rx);
    handler.add_socket(WsConnection::Admin { socket: 1 });
    let probes = vec![SocketProbe { usable: true, close_received: false }];
    handler.poll_messages(&probes);
    assert!(!handler.needs_cleanup());
    handler.clean_up();
    assert_eq!(handler.connection_count(), 1);
}

#[test]
fn join_decisions() {
    assert_eq!(evaluate_join(true, true, false), Ok(()));
    assert_eq!(evaluate_join(false, true, false), Err(JoinError::SessionMissing));
    assert_eq!(evaluate_join(false, false, true), Err(JoinError::SessionMissing));
    assert_eq!(evaluate_join(true, false, false), Err(JoinError::SessionInactive));
    assert_eq!(evaluate_join(true, true, true), Err(JoinError::DuplicateName));
    assert_eq!(JoinError::SessionMissing.message(), "Session doesn't exist");
    assert_eq!(JoinError::SessionInactive.message(), "Session inactive");
    assert_eq!(
        JoinError::DuplicateName.message(),
        "A user with the same name exists"
    );
}

#[test]
fn stats_assembly_and_status() {
    let s = build_stats(4, 2);
    assert_eq!(s.ws_connected, 4);
    assert_eq!(s.sessions_active, 2);
    assert_eq!(s.unique_users, 0);
    assert_eq!(get_status(None), "unimplemented");
}

#[test]
fn session_summary_from_record() {
    let record = SessionData {
        id: sid("GAME0001"),
        created: 1234,
        active: true,
        settings: None,
    };
    let info = BasicSessionInfo::from_session(&record);
    assert_eq!(info.id, "GAME0001");
    assert_eq!(info.player_count, 0);
    assert!(info.active);
    assert_eq!(info.created, 1234);
}

#[test]
fn connection_matching() {
    let p = WsConnection::Player { session_id: sid("AAAAAAAA"), socket: 1 };
    let a = WsConnection::Admin { socket: 2 };
    assert!(p.associated_w_sid(&sid("AAAAAAAA")));
    assert!(!p.associated_w_sid(&sid("BBBBBBBB")));
    assert!(a.associated_w_sid(&sid("BBBBBBBB")));
    assert_eq!(p.get_socket(), 1);
    assert_eq!(a.get_socket(), 2);
}
