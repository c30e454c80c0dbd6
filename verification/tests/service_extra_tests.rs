use imposter::protocol::{session_from, ProtocolError};
use imposter::{
    default_catalog, DomainError, FixedRng, GamePhase, GameService, InMemoryRoomStore, ServiceError,
    Session,
};

fn service() -> GameService<FixedRng> {
    GameService::with_rng_and_catalog(InMemoryRoomStore::default(), FixedRng::new(1, 0), default_catalog())
}

/// A started game in room "ABCD" with players Host (p1), Alice (p2), Bob (p3).
fn started() -> (GameService<FixedRng>, Session, Session, Session) {
    let mut service = service();
    let (_, host) = service.create_room("ABCD".to_string(), "Host".to_string()).expect("create");
    let (_, alice) = service.join_room("ABCD".to_string(), "Alice".to_string()).expect("alice");
    let (_, bob) = service.join_room("ABCD".to_string(), "Bob".to_string()).expect("bob");
    let host = Session::new(host);
    service
        .set_category("ABCD".to_string(), "Animals".to_string(), host.clone())
        .expect("category");
    service.start_game("ABCD".to_string(), host.clone()).expect("start");
    (service, host, Session::new(alice), Session::new(bob))
}

#[test]
fn session_tokens_are_fresh_uuids() {
    let mut service = service();
    let (_, a) = service.create_room("ROOM".to_string(), "Host".to_string()).expect("create");
    let (_, b) = service.join_room("ROOM".to_string(), "Alice".to_string()).expect("join");
    for token in [&a, &b] {
        assert_eq!(token.chars().count(), 36);
        for (i, c) in token.chars().enumerate() {
            if [8, 13, 18, 23].contains(&i) {
                assert_eq!(c, '-');
            } else {
                assert!(c.is_ascii_digit() || ('a'..='f').contains(&c));
            }
        }
        assert!(session_from(Some(token.clone())).is_ok());
    }
    assert_ne!(a, b);
}

#[test]
fn only_the_issued_token_resolves() {
    let mut service = service();
    let (_, token) = service.create_room("ROOM".to_string(), "Host".to_string()).expect("create");
    assert!(service.my_role("ROOM".to_string(), Session::new(token.clone())).is_err_and(|e| e != ServiceError::InvalidSession));
    let other = token.to_uppercase();
    assert_eq!(
        service.my_role("ROOM".to_string(), Session::new(other)).unwrap_err(),
        ServiceError::InvalidSession
    );
}

#[test]
fn session_needs_non_blank_token() {
    assert_eq!(session_from(Some("tok".to_string())).expect("session").token, "tok");
    let err = session_from(Some("   ".to_string())).expect_err("blank");
    assert_eq!(err.code(), "InvalidSession");
    assert_eq!(err.message(), "invalid session token");
    assert!(session_from(None).is_err());
    let bad = ProtocolError::bad_request("broken".to_string());
    assert_eq!(bad.code(), "BadRequest");
    assert_eq!(bad.message(), "broken");
}

#[test]
fn service_error_codes_and_messages() {
    assert_eq!(ServiceError::Domain(DomainError::RoomFull).code(), "RoomFull");
    assert_eq!(ServiceError::Domain(DomainError::RoomFull).message(), "room full");
    assert_eq!(ServiceError::InvalidInput("x".to_string()).code(), "InvalidInput");
    assert_eq!(ServiceError::InvalidInput("x".to_string()).message(), "x");
    assert_eq!(ServiceError::Forbidden.message(), "caller is not authorized");
    assert_eq!(ServiceError::RoomNotFound.code(), "RoomNotFound");
}

#[test]
fn create_room_errors() {
    let mut service = service();
    service.create_room("ABCD".to_string(), "Host".to_string()).expect("create");
    assert_eq!(
        service.create_room("ABCD".to_string(), "Other".to_string()).unwrap_err(),
        ServiceError::RoomAlreadyExists
    );
    assert_eq!(
        service.create_room("EFGH".to_string(), " ".to_string()).unwrap_err(),
        ServiceError::Domain(DomainError::InvalidNickname)
    );
    assert_eq!(
        service.join_room("ZZZZ".to_string(), "Alice".to_string()).unwrap_err(),
        ServiceError::RoomNotFound
    );
    assert_eq!(service.game_snapshot("ZZZZ".to_string()).unwrap_err(), ServiceError::RoomNotFound);
    assert!(service.subscribe_game_updated("ZZZZ".to_string()).is_err());
    assert!(service.subscribe_chat_messages("ZZZZ".to_string()).is_err());
}

#[test]
fn token_of_player_who_left_is_rejected() {
    let mut service = service();
    service.create_room("ABCD".to_string(), "Host".to_string()).expect("create");
    let (_, alice) = service.join_room("ABCD".to_string(), "Alice".to_string()).expect("join");
    let alice = Session::new(alice);
    service.leave_room("ABCD".to_string(), alice.clone()).expect("leave");
    assert_eq!(
        service.my_role("ABCD".to_string(), alice).unwrap_err(),
        ServiceError::InvalidSession
    );
    let (_, again) = service.join_room("ABCD".to_string(), "alice".to_string()).expect("rejoin");
    let snapshot = service.game_snapshot("ABCD".to_string()).expect("snapshot");
    assert_eq!(snapshot.room.players.len(), 2);
    assert!(snapshot.room.players[1].connected);
    assert_eq!(
        service.my_role("ABCD".to_string(), Session::new(again)).unwrap_err(),
        ServiceError::Domain(DomainError::CategoryNotSet)
    );
}

#[test]
fn member_checks_reject_outsiders() {
    let (mut service, _host, alice, _bob) = started();
    assert_eq!(
        service.next_turn("ABCD".to_string(), alice.clone()).unwrap_err(),
        ServiceError::Forbidden
    );
    let stranger = Session::new("nobody".to_string());
    assert_eq!(
        service.chat_history("ABCD".to_string(), stranger).unwrap_err(),
        ServiceError::InvalidSession
    );
    assert!(service.chat_history("ABCD".to_string(), alice).expect("history").is_empty());
}

#[test]
fn my_role_shows_the_crew_topic() {
    let (service, host, alice, _bob) = started();
    let host_role = service.my_role("ABCD".to_string(), host).expect("host role");
    assert_eq!(host_role.game_role, imposter::GameRole::Crew);
    assert_eq!(host_role.topic_id.as_deref(), Some("animals-red-panda"));
    let alice_role = service.my_role("ABCD".to_string(), alice).expect("alice role");
    assert_eq!(alice_role.game_role, imposter::GameRole::Imposter);
    assert!(alice_role.topic_id.is_none());
}

#[test]
fn chat_text_is_checked_and_trimmed() {
    let (mut service, host, _alice, _bob) = started();
    assert_eq!(
        service.send_chat("ABCD".to_string(), "   ".to_string(), host.clone()).unwrap_err(),
        ServiceError::InvalidInput("chat message cannot be empty".to_string())
    );
    assert_eq!(
        service.send_chat("ABCD".to_string(), "x".repeat(241), host.clone()).unwrap_err(),
        ServiceError::InvalidInput("chat message is too long (max 240 chars)".to_string())
    );
    let sent = service
        .send_chat("ABCD".to_string(), "  hello  ".to_string(), host.clone())
        .expect("send");
    assert_eq!(sent.text, "hello");
    assert_eq!(sent.sender_player_id, "p1");
    assert_eq!(sent.room_code, "ABCD");
    assert!(sent.created_at.secs > 0);
    assert_eq!(sent.id.chars().count(), 36);
    assert_eq!(sent.id.matches('-').count(), 4);
    assert!(sent.created_at.nanos < 2_000_000_000);
    let history = service.chat_history("ABCD".to_string(), host).expect("history");
    assert_eq!(history.len(), 1);
    assert_eq!(history[0].id, sent.id);
}

#[test]
fn chat_history_keeps_newest_120_messages() {
    let (mut service, host, alice, bob) = started();
    let seats = [host.clone(), alice, bob];
    for n in 0..125 {
        service
            .send_chat("ABCD".to_string(), format!("m{n}"), seats[n % 3].clone())
            .expect("send");
    }
    let history = service.chat_history("ABCD".to_string(), host.clone()).expect("history");
    assert_eq!(history.len(), 120);
    assert_eq!(history[0].text, "m5");
    assert_eq!(history[119].text, "m124");
    service.reveal_result("ABCD".to_string(), host.clone()).expect("reveal");
    service.restart_game("ABCD".to_string(), host.clone()).expect("restart");
    assert!(service.chat_history("ABCD".to_string(), host).expect("history").is_empty());
}

#[test]
fn public_rooms_are_listed_with_summary() {
    let mut service = service();
    service
        .create_room_with_visibility("PUB1".to_string(), "Host".to_string(), true)
        .expect("public");
    service
        .create_room_with_visibility("PRIV".to_string(), "Hidden".to_string(), false)
        .expect("private");
    service.join_room("PUB1".to_string(), "Alice".to_string()).expect("join");
    let rooms = service.list_public_rooms();
    assert_eq!(rooms.len(), 1);
    let room = &rooms[0];
    assert_eq!(room.code, "PUB1");
    assert_eq!(room.host_nickname, "Host");
    assert_eq!(room.phase, GamePhase::Lobby);
    assert_eq!(room.connected_players, 2);
    assert_eq!(room.total_players, 2);
    assert!(room.joinable);
    assert!(room.category.is_none());
}

#[test]
fn public_rooms_are_listed_newest_first() {
    let mut service = service();
    for code in ["OLD1", "MID2", "NEW3"] {
        service
            .create_room_with_visibility(code.to_string(), "Host".to_string(), true)
            .expect("public");
    }
    let codes: Vec<String> = service.list_public_rooms().into_iter().map(|r| r.code).collect();
    assert_eq!(codes, vec!["NEW3".to_string(), "MID2".to_string(), "OLD1".to_string()]);
}

#[test]
fn service_topic_lookup_and_categories() {
    let service = service();
    assert_eq!(service.categories().len(), 3);
    assert_eq!(service.topic_by_id("foods-ramen").expect("ramen").title, "Ramen");
    assert!(service.topic_by_id("unknown").is_none());
}

#[test]
fn start_restart_and_end_report_phase() {
    let (mut service, host, _alice, _bob) = started();
    assert_eq!(
        service.restart_game("ABCD".to_string(), host.clone()).unwrap_err(),
        ServiceError::Domain(DomainError::NotCompleted)
    );
    let result = service.reveal_result("ABCD".to_string(), host.clone()).expect("reveal");
    assert_eq!(result.imposter_player_id, "p2");
    let ended = service.end_game("ABCD".to_string(), host.clone()).expect("end");
    assert_eq!(ended.room.phase, GamePhase::Lobby);
    assert!(ended.turn.is_none());
}

#[test]
fn errors_convert_upwards() {
    assert_eq!(ServiceError::from(DomainError::RoomFull), ServiceError::Domain(DomainError::RoomFull));
    let err = ProtocolError::from(ServiceError::Forbidden);
    assert_eq!(err.code(), "Forbidden");
    assert_eq!(err.message(), "caller is not authorized");
}
