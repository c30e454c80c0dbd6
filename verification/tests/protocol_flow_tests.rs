use imposter::protocol::ProtocolError;
use imposter::request::{dispatch, operation_of, session_after, Reply, Request};
use imposter::{build_default_service, GameService, GamePhase, ProductionRng};

/// One connection: the room session it holds, as the server keeps it.
struct Connection {
    session: Option<(String, String)>,
}

impl Connection {
    fn new() -> Self {
        Connection { session: None }
    }

    /// Sends one request named `op` and returns the answer.
    fn send(
        &mut self,
        service: &mut GameService<ProductionRng>,
        op: &str,
        request: Request,
        token: Option<String>,
    ) -> Result<Reply, ProtocolError> {
        let operation = operation_of(op).expect("known operation");
        let reply = dispatch(service, request, token);
        if let Ok(r) = &reply {
            self.session = session_after(self.session.take(), operation, r);
        }
        reply
    }

    /// Closes the connection: the player of its session leaves the room.
    fn close(self, service: &mut GameService<ProductionRng>) {
        if let Some((code, token)) = self.session {
            let _ = dispatch(service, Request::LeaveRoom { code }, Some(token));
        }
    }
}

fn token_of(reply: Result<Reply, ProtocolError>) -> String {
    match reply {
        Ok(Reply::Entered(_, token)) => token,
        other => panic!("unexpected reply: {:?}", other),
    }
}

fn error_code(reply: Result<Reply, ProtocolError>) -> String {
    match reply {
        Err(e) => e.code(),
        other => panic!("expected an error, got {:?}", other),
    }
}

fn create(conn: &mut Connection, service: &mut GameService<ProductionRng>, code: &str, nickname: &str) -> String {
    token_of(conn.send(
        service,
        "createRoom",
        Request::CreateRoom { code: code.to_string(), nickname: nickname.to_string(), public: false },
        None,
    ))
}

fn join(conn: &mut Connection, service: &mut GameService<ProductionRng>, code: &str, nickname: &str) -> String {
    token_of(conn.send(
        service,
        "joinRoom",
        Request::JoinRoom { code: code.to_string(), nickname: nickname.to_string() },
        None,
    ))
}

#[test]
fn auth_gating_non_admin_rejected_for_set_category() {
    let mut service = build_default_service();
    let mut ws = Connection::new();
    let _admin_token = create(&mut ws, &mut service, "ABCD", "Host");
    let user_token = join(&mut ws, &mut service, "ABCD", "Alice");
    let denied = ws.send(
        &mut service,
        "setCategory",
        Request::SetCategory { code: "ABCD".to_string(), category: "Animals".to_string() },
        Some(user_token),
    );
    assert!(denied.is_err());
    assert_eq!(error_code(denied), "Forbidden");
}

#[test]
fn guess_imposter_rejected_when_not_in_progress() {
    let mut service = build_default_service();
    let mut ws = Connection::new();
    create(&mut ws, &mut service, "ABCD", "Host");
    let token = join(&mut ws, &mut service, "ABCD", "Alice");
    let guessed = ws.send(
        &mut service,
        "guessImposter",
        Request::GuessImposter { code: "ABCD".to_string(), guessed_player_id: "p1".to_string() },
        Some(token),
    );
    assert!(guessed.is_err());
    assert_eq!(error_code(guessed), "NotInProgress");
}

#[test]
fn tests_my_role_requires_matching_token_identity() {
    let mut service = build_default_service();
    let mut ws = Connection::new();
    create(&mut ws, &mut service, "ABCD", "Host");
    let response = ws.send(
        &mut service,
        "myRole",
        Request::MyRole { room_code: "ABCD".to_string() },
        Some("bad-token".to_string()),
    );
    assert!(response.is_err());
    assert_eq!(error_code(response), "InvalidSession");
}

#[test]
fn broadcast_event_emitted_after_join() {
    let mut service = build_default_service();
    let mut ws_admin = Connection::new();
    let mut ws_observer = Connection::new();
    create(&mut ws_admin, &mut service, "ABCD", "Host");
    join(&mut ws_observer, &mut service, "ABCD", "Alice");
    // The observer's connection now follows the room's updates.
    let mut updates = service.subscribe_game_updated("ABCD".to_string()).expect("subscribe");
    join(&mut ws_admin, &mut service, "ABCD", "Bob");
    let event = updates.try_recv().expect("gameUpdated");
    assert_eq!(event.room.players.len(), 3);
    assert_eq!(event.room.players[2].nickname, "Bob");
}

#[test]
fn e2e_flow_create_join_start_guess_reveal_restart_end() {
    let mut service = build_default_service();
    let mut ws = Connection::new();
    let admin_token = create(&mut ws, &mut service, "ABCD", "Host");
    join(&mut ws, &mut service, "ABCD", "Alice");
    join(&mut ws, &mut service, "ABCD", "Bob");
    ws.send(
        &mut service,
        "setCategory",
        Request::SetCategory { code: "ABCD".to_string(), category: "Countries".to_string() },
        Some(admin_token.clone()),
    )
    .expect("category");
    match ws.send(&mut service, "startGame", Request::StartGame { code: "ABCD".to_string() }, Some(admin_token.clone())) {
        Ok(Reply::Snapshot(s)) => assert_eq!(s.room.phase, GamePhase::InProgress),
        other => panic!("unexpected reply: {:?}", other),
    }
    let next = ws.send(&mut service, "nextTurn", Request::NextTurn { code: "ABCD".to_string() }, Some(admin_token.clone()));
    assert!(next.is_ok());
    let guessed = ws.send(
        &mut service,
        "guessImposter",
        Request::GuessImposter { code: "ABCD".to_string(), guessed_player_id: "p2".to_string() },
        Some(admin_token.clone()),
    );
    assert!(guessed.is_ok());
    let revealed = ws.send(&mut service, "revealResult", Request::RevealResult { code: "ABCD".to_string() }, Some(admin_token.clone()));
    assert!(revealed.is_ok());
    match ws.send(&mut service, "restartGame", Request::RestartGame { code: "ABCD".to_string() }, Some(admin_token.clone())) {
        Ok(Reply::Snapshot(s)) => assert_eq!(s.room.phase, GamePhase::InProgress),
        other => panic!("unexpected reply: {:?}", other),
    }
    match ws.send(&mut service, "endGame", Request::EndGame { code: "ABCD".to_string() }, Some(admin_token)) {
        Ok(Reply::Snapshot(s)) => assert_eq!(s.room.phase, GamePhase::Lobby),
        other => panic!("unexpected reply: {:?}", other),
    }
}

#[test]
fn send_chat_rejected_when_not_in_progress() {
    let mut service = build_default_service();
    let mut ws = Connection::new();
    let token = create(&mut ws, &mut service, "CHAT", "Host");
    let send = ws.send(
        &mut service,
        "sendChat",
        Request::SendChat { code: "CHAT".to_string(), text: "hello".to_string() },
        Some(token),
    );
    assert!(send.is_err());
    assert_eq!(error_code(send), "NotInProgress");
}

#[test]
fn send_chat_rejected_when_not_current_turn() {
    let mut service = build_default_service();
    let mut ws_admin = Connection::new();
    let mut ws_player = Connection::new();
    let admin_token = create(&mut ws_admin, &mut service, "TURNCHAT", "Host");
    let player_token = join(&mut ws_player, &mut service, "TURNCHAT", "Alice");
    join(&mut ws_admin, &mut service, "TURNCHAT", "Bob");
    ws_admin
        .send(
            &mut service,
            "setCategory",
            Request::SetCategory { code: "TURNCHAT".to_string(), category: "Countries".to_string() },
            Some(admin_token.clone()),
        )
        .expect("category");
    ws_admin
        .send(&mut service, "startGame", Request::StartGame { code: "TURNCHAT".to_string() }, Some(admin_token))
        .expect("start");
    let send = ws_player.send(
        &mut service,
        "sendChat",
        Request::SendChat { code: "TURNCHAT".to_string(), text: "off-turn".to_string() },
        Some(player_token),
    );
    assert!(send.is_err());
    assert_eq!(error_code(send), "InvalidInput");
}

#[test]
fn chat_event_emitted_with_sender_and_text() {
    let mut service = build_default_service();
    let mut ws_admin = Connection::new();
    let mut ws_player = Connection::new();
    let admin_token = create(&mut ws_admin, &mut service, "CHAT", "Host");
    let mut chat = service.subscribe_chat_messages("CHAT".to_string()).expect("subscribe");
    let player_token = join(&mut ws_player, &mut service, "CHAT", "Alice");
    join(&mut ws_admin, &mut service, "CHAT", "Bob");
    ws_admin
        .send(
            &mut service,
            "setCategory",
            Request::SetCategory { code: "CHAT".to_string(), category: "Countries".to_string() },
            Some(admin_token.clone()),
        )
        .expect("category");
    ws_admin
        .send(&mut service, "startGame", Request::StartGame { code: "CHAT".to_string() }, Some(admin_token.clone()))
        .expect("start");
    ws_admin
        .send(&mut service, "nextTurn", Request::NextTurn { code: "CHAT".to_string() }, Some(admin_token))
        .expect("next turn");
    ws_player
        .send(
            &mut service,
            "sendChat",
            Request::SendChat { code: "CHAT".to_string(), text: "Alice clue".to_string() },
            Some(player_token),
        )
        .expect("send chat");
    let message = chat.try_recv().expect("chatMessage");
    assert_eq!(message.sender_nickname, "Alice");
    assert_eq!(message.text, "Alice clue");
}

#[test]
fn disconnect_marks_player_as_disconnected() {
    let mut service = build_default_service();
    let mut ws_admin = Connection::new();
    let mut ws_player = Connection::new();
    let admin_token = create(&mut ws_admin, &mut service, "ABCD", "Host");
    join(&mut ws_player, &mut service, "ABCD", "Alice");
    ws_player.close(&mut service);
    let snapshot = ws_admin.send(
        &mut service,
        "gameSnapshot",
        Request::GameSnapshot { room_code: "ABCD".to_string() },
        Some(admin_token),
    );
    let found_disconnected = match snapshot {
        Ok(Reply::Snapshot(s)) => s.room.players.iter().any(|p| p.nickname == "Alice" && !p.connected),
        other => panic!("unexpected reply: {:?}", other),
    };
    assert!(found_disconnected, "player should be marked disconnected after socket close");
}
