use imposter::protocol::ProtocolError;
use imposter::request::{dispatch, operation_of, session_after, Operation, Reply, Request};
use imposter::{default_catalog, DomainError, FixedRng, GamePhase, GameService, InMemoryRoomStore, ServiceError};

fn service() -> GameService<FixedRng> {
    GameService::with_rng_and_catalog(InMemoryRoomStore::default(), FixedRng::new(1, 0), default_catalog())
}

fn entered(reply: Result<Reply, ProtocolError>) -> String {
    match reply {
        Ok(Reply::Entered(_, token)) => token,
        other => panic!("unexpected reply: {:?}", other),
    }
}

#[test]
fn operation_names_map_to_operations() {
    let cases = [
        ("categories", Operation::Categories),
        ("gameSnapshot", Operation::GameSnapshot),
        ("myRole", Operation::MyRole),
        ("listRooms", Operation::ListRooms),
        ("createRoom", Operation::CreateRoom),
        ("joinRoom", Operation::JoinRoom),
        ("setCategory", Operation::SetCategory),
        ("startGame", Operation::StartGame),
        ("nextTurn", Operation::NextTurn),
        ("guessImposter", Operation::GuessImposter),
        ("revealResult", Operation::RevealResult),
        ("leaveRoom", Operation::LeaveRoom),
        ("restartGame", Operation::RestartGame),
        ("endGame", Operation::EndGame),
        ("chatHistory", Operation::ChatHistory),
        ("sendChat", Operation::SendChat),
    ];
    for (name, op) in cases {
        assert_eq!(operation_of(name).expect(name), op);
    }
}

#[test]
fn unknown_operation_is_a_bad_request() {
    let err = operation_of("fly").unwrap_err();
    assert_eq!(err.code(), "BadRequest");
    assert_eq!(err.message(), "unknown operation: fly");
    assert!(operation_of("StartGame").is_err());
}

#[test]
fn session_operations_need_a_token() {
    let mut service = service();
    entered(dispatch(
        &mut service,
        Request::CreateRoom { code: "ABCD".to_string(), nickname: "Host".to_string(), public: false },
        None,
    ));
    for token in [None, Some("   ".to_string())] {
        let err = dispatch(&mut service, Request::StartGame { code: "ABCD".to_string() }, token).unwrap_err();
        assert_eq!(err.code(), "InvalidSession");
        assert_eq!(err.message(), "invalid session token");
    }
}

#[test]
fn dispatch_runs_a_round() {
    let mut service = service();
    let host = entered(dispatch(
        &mut service,
        Request::CreateRoom { code: "ABCD".to_string(), nickname: "Host".to_string(), public: true },
        None,
    ));
    entered(dispatch(
        &mut service,
        Request::JoinRoom { code: "ABCD".to_string(), nickname: "Alice".to_string() },
        None,
    ));
    entered(dispatch(
        &mut service,
        Request::JoinRoom { code: "ABCD".to_string(), nickname: "Bob".to_string() },
        None,
    ));
    match dispatch(&mut service, Request::Categories, None) {
        Ok(Reply::Categories(v)) => assert_eq!(v, vec!["Animals", "Countries", "Foods"]),
        other => panic!("unexpected reply: {:?}", other),
    }
    match dispatch(&mut service, Request::ListRooms, None) {
        Ok(Reply::Rooms(v)) => assert_eq!(v.len(), 1),
        other => panic!("unexpected reply: {:?}", other),
    }
    match dispatch(
        &mut service,
        Request::SetCategory { code: "ABCD".to_string(), category: "Foods".to_string() },
        Some(host.clone()),
    ) {
        Ok(Reply::Room(room)) => assert_eq!(room.category.as_deref(), Some("Foods")),
        other => panic!("unexpected reply: {:?}", other),
    }
    match dispatch(&mut service, Request::StartGame { code: "ABCD".to_string() }, Some(host.clone())) {
        Ok(Reply::Snapshot(s)) => assert_eq!(s.room.phase, GamePhase::InProgress),
        other => panic!("unexpected reply: {:?}", other),
    }
    match dispatch(&mut service, Request::MyRole { room_code: "ABCD".to_string() }, Some(host.clone())) {
        Ok(Reply::Role(role)) => assert_eq!(role.topic_id.as_deref(), Some("foods-pizza")),
        other => panic!("unexpected reply: {:?}", other),
    }
    match dispatch(
        &mut service,
        Request::SendChat { code: "ABCD".to_string(), text: " hi ".to_string() },
        Some(host.clone()),
    ) {
        Ok(Reply::Chat(m)) => assert_eq!(m.text, "hi"),
        other => panic!("unexpected reply: {:?}", other),
    }
    match dispatch(&mut service, Request::ChatHistory { code: "ABCD".to_string() }, Some(host.clone())) {
        Ok(Reply::History(v)) => assert_eq!(v.len(), 1),
        other => panic!("unexpected reply: {:?}", other),
    }
    match dispatch(&mut service, Request::NextTurn { code: "ABCD".to_string() }, Some(host.clone())) {
        Ok(Reply::Turn(t)) => assert_eq!(t.current_player_id, "p3"),
        other => panic!("unexpected reply: {:?}", other),
    }
    match dispatch(
        &mut service,
        Request::GuessImposter { code: "ABCD".to_string(), guessed_player_id: "p2".to_string() },
        Some(host.clone()),
    ) {
        Ok(Reply::Suspicion(s)) => assert_eq!(s.guessed_player_id, "p2"),
        other => panic!("unexpected reply: {:?}", other),
    }
    match dispatch(&mut service, Request::RevealResult { code: "ABCD".to_string() }, Some(host.clone())) {
        Ok(Reply::Outcome(r)) => assert_eq!(r.imposter_player_id, "p2"),
        other => panic!("unexpected reply: {:?}", other),
    }
    match dispatch(&mut service, Request::RestartGame { code: "ABCD".to_string() }, Some(host.clone())) {
        Ok(Reply::Snapshot(s)) => assert_eq!(s.turn.expect("turn").round, 2),
        other => panic!("unexpected reply: {:?}", other),
    }
    match dispatch(&mut service, Request::EndGame { code: "ABCD".to_string() }, Some(host.clone())) {
        Ok(Reply::Snapshot(s)) => assert_eq!(s.room.phase, GamePhase::Lobby),
        other => panic!("unexpected reply: {:?}", other),
    }
    match dispatch(&mut service, Request::GameSnapshot { room_code: "ABCD".to_string() }, None) {
        Ok(Reply::Snapshot(s)) => assert_eq!(s.room.players.len(), 3),
        other => panic!("unexpected reply: {:?}", other),
    }
    match dispatch(&mut service, Request::LeaveRoom { code: "ABCD".to_string() }, Some(host.clone())) {
        Ok(Reply::Room(room)) => assert!(!room.players[0].connected),
        other => panic!("unexpected reply: {:?}", other),
    }
}

#[test]
fn service_errors_become_response_errors() {
    let mut service = service();
    match dispatch(&mut service, Request::GameSnapshot { room_code: "NONE".to_string() }, None) {
        Err(ProtocolError::Service(e)) => assert_eq!(e, ServiceError::RoomNotFound),
        other => panic!("unexpected reply: {:?}", other),
    }
    let host = entered(dispatch(
        &mut service,
        Request::CreateRoom { code: "ABCD".to_string(), nickname: "Host".to_string(), public: false },
        None,
    ));
    match dispatch(&mut service, Request::StartGame { code: "ABCD".to_string() }, Some(host)) {
        Err(ProtocolError::Service(e)) => {
            assert_eq!(e, ServiceError::Domain(DomainError::InsufficientPlayers))
        }
        other => panic!("unexpected reply: {:?}", other),
    }
}

#[test]
fn connection_session_follows_create_join_and_leave() {
    let mut service = service();
    let created = dispatch(
        &mut service,
        Request::CreateRoom { code: "ABCD".to_string(), nickname: "Host".to_string(), public: false },
        None,
    )
    .expect("create");
    let token = match &created {
        Reply::Entered(_, token) => token.clone(),
        other => panic!("unexpected reply: {:?}", other),
    };
    let held = session_after(None, Operation::CreateRoom, &created);
    assert_eq!(held, Some(("ABCD".to_string(), token.clone())));
    let categories = dispatch(&mut service, Request::Categories, None).expect("categories");
    let held = session_after(held, Operation::Categories, &categories);
    assert_eq!(held, Some(("ABCD".to_string(), token.clone())));
    let left = dispatch(&mut service, Request::LeaveRoom { code: "ABCD".to_string() }, Some(token))
        .expect("leave");
    assert_eq!(session_after(held, Operation::LeaveRoom, &left), None);
}
