use imposter::transitions::next_connected_index;
use imposter::{
    apply, apply_with_picks, default_catalog, private_role_view, Command, DomainError, DomainEvent,
    FixedRng, GamePhase, GameRole, ProductionRng, RngLike, RoomState, Winner,
};

fn create(nickname: &str) -> RoomState {
    let catalog = default_catalog();
    let mut rng = FixedRng::new(0, 0);
    let (room, events) = apply(
        None,
        Command::CreateRoom {
            code: "ROOM".to_string(),
            nickname: nickname.to_string(),
            token_hash: "h".to_string(),
        },
        &catalog,
        &mut rng,
    )
    .expect("create");
    assert_eq!(events, vec![DomainEvent::RoomCreated]);
    room
}

fn join(room: &RoomState, nickname: &str) -> Result<(RoomState, Vec<DomainEvent>), DomainError> {
    let catalog = default_catalog();
    let mut rng = FixedRng::new(0, 0);
    apply(
        Some(room),
        Command::JoinRoom { nickname: nickname.to_string(), token_hash: "t".to_string() },
        &catalog,
        &mut rng,
    )
}

fn run(room: &RoomState, command: Command) -> Result<(RoomState, Vec<DomainEvent>), DomainError> {
    let catalog = default_catalog();
    let mut rng = FixedRng::new(0, 0);
    apply(Some(room), command, &catalog, &mut rng)
}

fn lobby_of_three() -> RoomState {
    let room = create("Host");
    let (room, _) = join(&room, "Alice").expect("alice");
    let (room, _) = join(&room, "Bob").expect("bob");
    let (room, _) = run(&room, Command::SetCategory { category: "Foods".to_string() }).expect("category");
    room
}

fn started(imposter_pick: usize, topic_pick: usize) -> RoomState {
    let room = lobby_of_three();
    let catalog = default_catalog();
    let (room, events) =
        apply_with_picks(Some(&room), Command::StartGame, &catalog, imposter_pick, topic_pick)
            .expect("start");
    assert_eq!(events, vec![DomainEvent::RoundStarted { round_number: 1 }]);
    room
}

#[test]
fn create_room_gives_admin_p1() {
    let room = create("Admin");
    assert_eq!(room.code, "ROOM");
    assert_eq!(room.phase, GamePhase::Lobby);
    assert_eq!(room.players.len(), 1);
    assert_eq!(room.players[0].id, "p1");
    assert!(room.players[0].is_admin);
    assert!(room.players[0].connected);
    assert!(room.category.is_none() && room.round.is_none() && room.result.is_none());
}

#[test]
fn create_room_rejected_when_room_exists() {
    let room = create("Admin");
    let err = run(
        &room,
        Command::CreateRoom { code: "X".to_string(), nickname: "A".to_string(), token_hash: "h".to_string() },
    )
    .unwrap_err();
    assert_eq!(err, DomainError::RoomAlreadyExists);
}

#[test]
fn commands_without_room_report_player_not_found() {
    let catalog = default_catalog();
    let mut rng = FixedRng::new(0, 0);
    let err = apply(None, Command::StartGame, &catalog, &mut rng).unwrap_err();
    assert_eq!(err, DomainError::PlayerNotFound);
}

#[test]
fn nickname_rules_trim_and_count_bytes() {
    let catalog = default_catalog();
    let mut rng = FixedRng::new(0, 0);
    let make = |nick: &str, rng: &mut FixedRng| {
        apply(
            None,
            Command::CreateRoom { code: "C".to_string(), nickname: nick.to_string(), token_hash: "h".to_string() },
            &catalog,
            rng,
        )
    };
    assert_eq!(make("   ", &mut rng).unwrap_err(), DomainError::InvalidNickname);
    assert_eq!(make("", &mut rng).unwrap_err(), DomainError::InvalidNickname);
    assert!(make(&"a".repeat(24), &mut rng).is_ok());
    assert_eq!(make(&"a".repeat(25), &mut rng).unwrap_err(), DomainError::InvalidNickname);
    assert!(make(&format!("  {}  ", "a".repeat(24)), &mut rng).is_ok());
    assert!(make(&"é".repeat(12), &mut rng).is_ok());
    assert_eq!(make(&"é".repeat(13), &mut rng).unwrap_err(), DomainError::InvalidNickname);
    let (room, _) = make("  Spaced  ", &mut rng).expect("spaced");
    assert_eq!(room.players[0].nickname, "  Spaced  ");
}

#[test]
fn join_assigns_ids_in_order_and_rejects_taken_nickname() {
    let room = create("Host");
    let (room, events) = join(&room, "Alice").expect("alice");
    assert_eq!(events, vec![DomainEvent::PlayerJoined { player_id: "p2".to_string() }]);
    assert_eq!(join(&room, "ALICE").unwrap_err(), DomainError::NicknameTaken);
    assert_eq!(join(&room, "host").unwrap_err(), DomainError::NicknameTaken);
}

#[test]
fn join_rejected_outside_lobby() {
    let room = started(0, 0);
    assert_eq!(join(&room, "Late").unwrap_err(), DomainError::NotInLobby);
}

#[test]
fn player_ids_keep_counting_past_nine() {
    let mut room = create("Host");
    for idx in 0..9 {
        let (next, _) = join(&room, &format!("U{idx}")).expect("join");
        room = next;
    }
    let (room, _) = run(&room, Command::LeaveRoom { player_id: "p10".to_string() }).expect("leave");
    let (room, events) = join(&room, "Eleventh").expect("join after leave");
    assert_eq!(events, vec![DomainEvent::PlayerJoined { player_id: "p11".to_string() }]);
    assert_eq!(room.players[10].id, "p11");
}

#[test]
fn leaving_twice_changes_nothing() {
    let room = lobby_of_three();
    let (left, events) = run(&room, Command::LeaveRoom { player_id: "p2".to_string() }).expect("leave");
    assert_eq!(events, vec![DomainEvent::PlayerLeft { player_id: "p2".to_string() }]);
    assert!(!left.players[1].connected);
    let (again, events) = run(&left, Command::LeaveRoom { player_id: "p2".to_string() }).expect("again");
    assert!(events.is_empty());
    assert_eq!(again, left);
    assert_eq!(
        run(&room, Command::LeaveRoom { player_id: "p9".to_string() }).unwrap_err(),
        DomainError::PlayerNotFound
    );
}

#[test]
fn rejoining_restores_the_same_player() {
    let room = lobby_of_three();
    let (left, _) = run(&room, Command::LeaveRoom { player_id: "p2".to_string() }).expect("leave");
    let (back, events) = join(&left, "alice").expect("rejoin");
    assert_eq!(events, vec![DomainEvent::PlayerReconnected { player_id: "p2".to_string() }]);
    assert_eq!(back.players.len(), 3);
    assert!(back.players[1].connected);
    assert_eq!(back.players[1].nickname, "Alice");
}

#[test]
fn admin_rights_pass_to_first_connected_player() {
    let room = lobby_of_three();
    let (left, _) = run(&room, Command::LeaveRoom { player_id: "p1".to_string() }).expect("leave");
    assert!(!left.players[0].is_admin);
    assert!(left.players[1].is_admin);
    assert!(left.is_admin("p2"));
    assert!(!left.is_admin("p1"));
}

#[test]
fn category_must_be_in_catalog_and_set_in_lobby() {
    let room = create("Host");
    assert_eq!(
        run(&room, Command::SetCategory { category: "Wildlands".to_string() }).unwrap_err(),
        DomainError::InvalidCategory
    );
    let (room, events) = run(&room, Command::SetCategory { category: "Animals".to_string() }).expect("set");
    assert_eq!(events, vec![DomainEvent::CategorySet { category: "Animals".to_string() }]);
    assert_eq!(room.category.as_deref(), Some("Animals"));
    let started_room = started(0, 0);
    assert_eq!(
        run(&started_room, Command::SetCategory { category: "Animals".to_string() }).unwrap_err(),
        DomainError::NotInLobby
    );
}

#[test]
fn start_requires_category() {
    let room = create("Host");
    let (room, _) = join(&room, "Alice").expect("alice");
    let (room, _) = join(&room, "Bob").expect("bob");
    assert_eq!(run(&room, Command::StartGame).unwrap_err(), DomainError::CategoryNotSet);
}

#[test]
fn start_uses_the_given_picks() {
    let room = started(2, 3);
    let round = room.round.clone().expect("round");
    assert_eq!(room.phase, GamePhase::InProgress);
    assert_eq!(round.imposter_player_id, "p3");
    assert_eq!(round.topic_id, "foods-taco");
    assert_eq!(round.current_turn_index, 0);
    assert!(round.suspicions.is_empty());
    assert_eq!(run(&room, Command::StartGame).unwrap_err(), DomainError::NotInLobby);
}

#[test]
fn start_counts_only_connected_players() {
    let room = lobby_of_three();
    let (room, _) = run(&room, Command::LeaveRoom { player_id: "p3".to_string() }).expect("leave");
    assert_eq!(run(&room, Command::StartGame).unwrap_err(), DomainError::InsufficientPlayers);
}

#[test]
fn next_turn_skips_disconnected_players() {
    let room = started(0, 0);
    let (room, _) = run(&room, Command::LeaveRoom { player_id: "p2".to_string() }).expect("leave");
    let (room, events) = run(&room, Command::NextTurn).expect("next");
    assert_eq!(events, vec![DomainEvent::TurnAdvanced { current_turn_index: 2 }]);
    let (room, _) = run(&room, Command::NextTurn).expect("next");
    assert_eq!(room.round.expect("round").current_turn_index, 0);
}

#[test]
fn leaving_player_on_turn_passes_the_turn() {
    let room = started(0, 0);
    let (room, _) = run(&room, Command::NextTurn).expect("next");
    let (room, _) = run(&room, Command::LeaveRoom { player_id: "p2".to_string() }).expect("leave");
    assert_eq!(room.round.expect("round").current_turn_index, 2);
}

#[test]
fn next_turn_requires_running_round() {
    let room = lobby_of_three();
    assert_eq!(run(&room, Command::NextTurn).unwrap_err(), DomainError::NotInProgress);
}

#[test]
fn imposter_leaving_ends_round_for_crew() {
    let room = started(1, 0);
    let (room, _) = run(&room, Command::LeaveRoom { player_id: "p2".to_string() }).expect("leave");
    assert_eq!(room.phase, GamePhase::Completed);
    let result = room.result.expect("result");
    assert_eq!(result.winner, Winner::Crew);
    assert_eq!(result.guessed_player_id.as_deref(), Some("p2"));
    assert_eq!(result.imposter_player_id, "p2");
}

#[test]
fn guesses_replace_earlier_guess_of_same_player() {
    let room = started(0, 0);
    let guess = |room: &RoomState, who: &str, whom: &str| {
        run(
            room,
            Command::GuessImposter { player_id: who.to_string(), guessed_player_id: whom.to_string() },
        )
    };
    let (room, _) = guess(&room, "p2", "p3").expect("first");
    let (room, events) = guess(&room, "p2", "p1").expect("second");
    assert_eq!(
        events,
        vec![DomainEvent::SuspicionSubmitted { player_id: "p2".to_string(), guessed_player_id: "p1".to_string() }]
    );
    let suspicions = room.round.clone().expect("round").suspicions;
    assert_eq!(suspicions.len(), 1);
    assert_eq!(suspicions[0].guessed_player_id, "p1");
    assert_eq!(guess(&room, "p2", "p7").unwrap_err(), DomainError::PlayerNotFound);
    assert_eq!(guess(&room, "p7", "p2").unwrap_err(), DomainError::PlayerNotFound);
}

#[test]
fn reveal_breaks_ties_by_smaller_id() {
    let room = started(2, 0);
    let guess = |room: &RoomState, who: &str, whom: &str| {
        run(
            room,
            Command::GuessImposter { player_id: who.to_string(), guessed_player_id: whom.to_string() },
        )
        .expect("guess")
        .0
    };
    let room = guess(&room, "p1", "p3");
    let room = guess(&room, "p3", "p2");
    let (room, events) = run(&room, Command::RevealResult).expect("reveal");
    assert_eq!(events, vec![DomainEvent::GameRevealed { winner: Winner::Imposter }]);
    let result = room.result.clone().expect("result");
    assert_eq!(result.guessed_player_id.as_deref(), Some("p2"));
    assert_eq!(result.imposter_player_id, "p3");
    assert_eq!(run(&room, Command::RevealResult).unwrap_err(), DomainError::NotInProgress);
}

#[test]
fn reveal_without_guesses_lets_imposter_win() {
    let room = started(0, 0);
    let (room, _) = run(&room, Command::RevealResult).expect("reveal");
    let result = room.result.expect("result");
    assert_eq!(result.winner, Winner::Imposter);
    assert!(result.guessed_player_id.is_none());
}

#[test]
fn restart_needs_completed_round_and_counts_rounds() {
    let room = started(0, 0);
    assert_eq!(run(&room, Command::RestartGame).unwrap_err(), DomainError::NotCompleted);
    let (room, _) = run(&room, Command::RevealResult).expect("reveal");
    let (room, events) = run(&room, Command::RestartGame).expect("restart");
    assert_eq!(events, vec![DomainEvent::GameRestarted { round_number: 2 }]);
    assert_eq!(room.round.expect("round").round_number, 2);
}

#[test]
fn end_game_returns_to_lobby() {
    let room = lobby_of_three();
    assert_eq!(run(&room, Command::EndGame).unwrap_err(), DomainError::NotInProgress);
    let room = started(0, 0);
    let (room, events) = run(&room, Command::EndGame).expect("end");
    assert_eq!(events, vec![DomainEvent::GameEnded]);
    assert_eq!(room.phase, GamePhase::Lobby);
    assert!(room.round.is_none() && room.result.is_none());
    assert_eq!(room.players.len(), 3);
}

#[test]
fn role_cards_hide_topic_from_imposter_only() {
    let room = started(1, 0);
    let imposter = private_role_view(&room, "p2").expect("imposter");
    assert_eq!(imposter.game_role, GameRole::Imposter);
    assert_eq!(imposter.category, "Foods");
    assert!(imposter.topic_id.is_none());
    let crew = private_role_view(&room, "p3").expect("crew");
    assert_eq!(crew.game_role, GameRole::Crew);
    assert_eq!(crew.topic_id.as_deref(), Some("foods-pizza"));
    assert_eq!(private_role_view(&room, "p9").unwrap_err(), DomainError::NotMember);
    let lobby = lobby_of_three();
    assert_eq!(private_role_view(&lobby, "p1").unwrap_err(), DomainError::NotInProgress);
    let bare = create("Host");
    assert_eq!(private_role_view(&bare, "p1").unwrap_err(), DomainError::CategoryNotSet);
}

#[test]
fn snapshot_reports_turn_and_suspicions() {
    let room = started(0, 0);
    let (room, _) = run(
        &room,
        Command::GuessImposter { player_id: "p1".to_string(), guessed_player_id: "p2".to_string() },
    )
    .expect("guess");
    let (room, _) = run(&room, Command::NextTurn).expect("next");
    let snapshot = room.snapshot();
    let turn = snapshot.turn.expect("turn");
    assert_eq!(turn.round, 1);
    assert_eq!(turn.current_turn_index, 1);
    assert_eq!(turn.current_player_id, "p2");
    assert_eq!(snapshot.suspicions.len(), 1);
    assert_eq!(snapshot.room.code, "ROOM");
    assert_eq!(snapshot.room.players.len(), 3);
    assert!(snapshot.result.is_none());
    let lobby = lobby_of_three().snapshot();
    assert!(lobby.turn.is_none());
    assert!(lobby.suspicions.is_empty());
}

#[test]
fn error_codes_and_messages() {
    assert_eq!(DomainError::RoomFull.code(), "RoomFull");
    assert_eq!(DomainError::NotAdmin.code(), "NotAdmin");
    assert_eq!(DomainError::NotAdmin.message(), "caller is not room admin");
    assert_eq!(DomainError::InsufficientPlayers.message(), "not enough players to start");
}

#[test]
fn fixed_rng_wraps_choices() {
    let mut rng = FixedRng::new(7, 5);
    assert_eq!(rng.choose_imposter(3), 1);
    assert_eq!(rng.choose_topic(4), 1);
}

#[test]
fn production_rng_stays_in_range() {
    let mut rng = ProductionRng;
    for _ in 0..50 {
        assert!(rng.choose_imposter(3) < 3);
        assert!(rng.choose_topic(4) < 4);
    }
}

#[test]
fn next_seat_search_starts_from_any_position() {
    let room = lobby_of_three();
    assert_eq!(next_connected_index(&room.players, 0), Some(1));
    assert_eq!(next_connected_index(&room.players, 2), Some(0));
    assert_eq!(next_connected_index(&room.players, 7), Some(2));
    assert_eq!(next_connected_index(&room.players, usize::MAX), Some(1));
    assert_eq!(next_connected_index(&Vec::new(), 5), None);
    let (left, _) = run(&room, Command::LeaveRoom { player_id: "p2".to_string() }).expect("leave");
    assert_eq!(next_connected_index(&left.players, 3), Some(2));
}

#[test]
fn fixed_source_decides_the_draw() {
    let room = lobby_of_three();
    let catalog = default_catalog();
    let mut rng = FixedRng::new(2, 1);
    let (room, events) = apply(Some(&room), Command::StartGame, &catalog, &mut rng).expect("start");
    assert_eq!(events, vec![DomainEvent::RoundStarted { round_number: 1 }]);
    let round = room.round.expect("round");
    assert_eq!(round.imposter_player_id, "p3");
    assert_eq!(round.topic_id, "foods-ramen");
    assert_eq!(round.current_turn_index, 0);
}
