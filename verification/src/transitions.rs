//! The room state machine: `apply` carries out a command on a room.

use vstd::prelude::*;

use crate::commands::{events_model, Command, DomainEvent, EventModel};
use crate::model::{
    copy_suspicions, opt_str, players_model, suspicions_model, GamePhase, GameResult, PlayerModel, PlayerState,
    RoomModel, RoomState, RoundState, SuspicionModel, SuspicionState, Winner,
};
use crate::invariants::{law_step_preserves_invariant, lemma_step_preserves_wf, room_inv};
use crate::rng::RngLike;
use crate::topics::TopicCatalog;
use vstd::string::StringExecFns;
use crate::rules::{
    applied, create_rule, restart_rule, start_rule, draw_sizes, end_rule, guess_rule, join_rule, leave_rule, next_turn_rule,
    players_after_leave, record_suspicion, reveal_rule, round_rule, set_category_rule, step,
    within_limits, round_draw, MAX_ROOM_PLAYERS, MIN_PLAYERS_TO_START, player_id_for,
    connected_indices, count_guesses, first_index, first_index_from, has_id, is_connected,
    is_most_suspected, most_suspected, next_connected, ranks_above, same_nickname,
    search_connected, submitted_by, lemma_first_index_from, valid_nickname, MAX_NICKNAME_LEN,
};
use crate::errors::DomainError;
use crate::text::{
    utf8_len_within, push_decimal, char_vec, chars_eq_ignore_ascii_case, chars_lt, lemma_seq_lt_irreflexive, lemma_seq_lt_total,
    lemma_seq_lt_transitive, trim, trim_bounds,
};

verus! {

broadcast use vstd::string::group_string_axioms;

/// Checks a nickname: trimmed, it must be non-empty and at most
/// `MAX_NICKNAME_LEN` bytes long.
pub fn validate_nickname(nickname: &str) -> (r: Result<(), DomainError>)
    ensures
        r is Ok <==> valid_nickname(nickname@),
        r is Err ==> r == Err::<(), DomainError>(DomainError::InvalidNickname),
{
    let v = char_vec(nickname);
    let (lo, hi) = trim_bounds(&v);
    if lo == hi {
        return Err(DomainError::InvalidNickname);
    }
    if !utf8_len_within(&v, lo, hi, MAX_NICKNAME_LEN) {
        return Err(DomainError::InvalidNickname);
    }
    Ok(())
}

/// Positions of the connected players, in order.
pub fn connected_player_indices(players: &Vec<PlayerState>) -> (v: Vec<usize>)
    ensures
        v@.len() == connected_indices(players_model(players@)).len(),
        forall|k: int|
            0 <= k < v@.len() ==> #[trigger] v@[k] as int == connected_indices(
                players_model(players@),
            )[k],
{
    let ghost ps = players_model(players@);
    let mut v: Vec<usize> = Vec::new();
    let n = players.len();
    assert(ps.take(0) =~= Seq::<crate::model::PlayerModel>::empty());
    for i in 0..n
        invariant
            n == players@.len() == ps.len(),
            ps == players_model(players@),
            v@.len() == connected_indices(ps.take(i as int)).len(),
            forall|k: int|
                0 <= k < v@.len() ==> #[trigger] v@[k] as int == connected_indices(
                    ps.take(i as int),
                )[k],
    {
        assert(ps.take(i + 1).drop_last() =~= ps.take(i as int));
        if players[i].connected {
            v.push(i);
        }
    }
    assert(ps.take(n as int) =~= ps);
    v
}

/// The first connected player after `current`, going round the table.
pub fn next_connected_index(players: &Vec<PlayerState>, current: usize) -> (r: Option<usize>)
    ensures
        match r {
            Some(i) => next_connected(players_model(players@), current as int) == Some(i as int),
            None => next_connected(players_model(players@), current as int) is None,
        },
{
    let ghost ps = players_model(players@);
    let n = players.len();
    if n == 0 {
        return None;
    }
    let c = current % n;
    let mut k: usize = 0;
    while k < n
        invariant
            0 <= k <= n,
            0 < n == players@.len() == ps.len(),
            c == current % n,
            ps == players_model(players@),
            next_connected(ps, current as int) == search_connected(ps, current as int, k + 1),
        decreases n - k,
    {
        let step = k + 1;
        let idx = if step < n - c {
            c + step
        } else {
            step - (n - c)
        };
        assert(idx as int == (current + step) % (n as int)) by (nonlinear_arith)
            requires
                c == current % n,
                0 < n,
                1 <= step <= n,
                idx == (if step < n - c {
                    c + step
                } else {
                    step - (n - c)
                }),
        ;
        if players[idx].connected {
            return Some(idx);
        }
        k = k + 1;
    }
    None
}

/// An optional position, as an integer.
pub open spec fn opt_int(o: Option<usize>) -> Option<int> {
    match o {
        Some(i) => Some(i as int),
        None => None,
    }
}

/// Position of the player with id `id`.
pub fn find_player_by_id(players: &Vec<PlayerState>, id: &String) -> (r: Option<usize>)
    ensures
        opt_int(r) == first_index(players_model(players@), has_id(id@)),
{
    let ghost ps = players_model(players@);
    let n = players.len();
    for i in 0..n
        invariant
            n == players@.len() == ps.len(),
            ps == players_model(players@),
            first_index(ps, has_id(id@)) == first_index_from(ps, has_id(id@), i as int),
    {
        if players[i].id == *id {
            return Some(i);
        }
    }
    None
}

/// Position of the first connected player.
pub fn find_connected_player(players: &Vec<PlayerState>) -> (r: Option<usize>)
    ensures
        opt_int(r) == first_index(players_model(players@), is_connected()),
{
    let ghost ps = players_model(players@);
    let n = players.len();
    for i in 0..n
        invariant
            n == players@.len() == ps.len(),
            ps == players_model(players@),
            first_index(ps, is_connected()) == first_index_from(ps, is_connected(), i as int),
    {
        if players[i].connected {
            return Some(i);
        }
    }
    None
}

/// Position of the first player whose nickname equals `nickname` up to
/// ASCII case and whose connection flag is `connected`.
pub fn find_player_by_nickname(players: &Vec<PlayerState>, nickname: &Vec<char>, connected: bool) -> (r:
    Option<usize>)
    ensures
        opt_int(r) == first_index(players_model(players@), same_nickname(nickname@, connected)),
{
    let ghost ps = players_model(players@);
    let ghost p = same_nickname(nickname@, connected);
    let n = players.len();
    for i in 0..n
        invariant
            n == players@.len() == ps.len(),
            ps == players_model(players@),
            p == same_nickname(nickname@, connected),
            first_index(ps, p) == first_index_from(ps, p, i as int),
    {
        let candidate = char_vec(players[i].nickname.as_str());
        if players[i].connected == connected && chars_eq_ignore_ascii_case(&candidate, nickname) {
            return Some(i);
        }
    }
    None
}

/// Position of the suspicion submitted by `player_id`.
pub fn find_suspicion_by(s: &Vec<SuspicionState>, player_id: &String) -> (r: Option<usize>)
    ensures
        opt_int(r) == first_index(suspicions_model(s@), submitted_by(player_id@)),
{
    let ghost sm = suspicions_model(s@);
    let n = s.len();
    for i in 0..n
        invariant
            n == s@.len() == sm.len(),
            sm == suspicions_model(s@),
            first_index(sm, submitted_by(player_id@)) == first_index_from(
                sm,
                submitted_by(player_id@),
                i as int,
            ),
    {
        if s[i].player_id == *player_id {
            return Some(i);
        }
    }
    None
}

/// How many suspicions name `g`.
pub fn count_votes(s: &Vec<SuspicionState>, g: &String) -> (c: usize)
    ensures
        c == count_guesses(suspicions_model(s@), g@),
{
    let ghost sm = suspicions_model(s@);
    let n = s.len();
    let mut c: usize = 0;
    assert(sm.take(0) =~= Seq::<SuspicionModel>::empty());
    for i in 0..n
        invariant
            n == s@.len() == sm.len(),
            sm == suspicions_model(s@),
            c == count_guesses(sm.take(i as int), g@),
            c <= i,
    {
        assert(sm.take(i + 1).drop_last() =~= sm.take(i as int));
        if s[i].guessed_player_id == *g {
            c = c + 1;
        }
    }
    assert(sm.take(n as int) =~= sm);
    c
}

pub proof fn lemma_ranks_above_transitive(
    s: Seq<SuspicionModel>,
    a: Seq<char>,
    b: Seq<char>,
    c: Seq<char>,
)
    requires
        ranks_above(s, a, b),
        ranks_above(s, b, c),
    ensures
        ranks_above(s, a, c),
{
    if count_guesses(s, a) == count_guesses(s, b) && count_guesses(s, b) == count_guesses(s, c) {
        lemma_seq_lt_transitive(a, b, c);
    }
}

/// There is at most one most suspected id.
pub proof fn lemma_most_suspected_unique(s: Seq<SuspicionModel>, g: Seq<char>, h: Seq<char>)
    requires
        is_most_suspected(s, g),
        is_most_suspected(s, h),
    ensures
        g == h,
{
    if g != h {
        let j = choose|i: int| 0 <= i < s.len() && (#[trigger] s[i]).guessed_player_id == h;
        let k = choose|i: int| 0 <= i < s.len() && (#[trigger] s[i]).guessed_player_id == g;
        assert(ranks_above(s, g, s[j].guessed_player_id));
        assert(ranks_above(s, h, s[k].guessed_player_id));
        lemma_seq_lt_total(g, h);
    }
}

/// The most suspected player id: most votes, ties broken by the smaller id.
pub fn most_suspected_player_id(s: &Vec<SuspicionState>) -> (r: Option<String>)
    ensures
        opt_str(r) == most_suspected(suspicions_model(s@)),
{
    let ghost sm = suspicions_model(s@);
    let n = s.len();
    if n == 0 {
        return None;
    }
    let mut best: usize = 0;
    let mut best_count = count_votes(s, &s[0].guessed_player_id);
    let mut best_chars = char_vec(s[0].guessed_player_id.as_str());
    for i in 1..n
        invariant
            n == s@.len() == sm.len(),
            sm == suspicions_model(s@),
            best < n,
            best_count == count_guesses(sm, sm[best as int].guessed_player_id),
            best_chars@ == sm[best as int].guessed_player_id,
            forall|k: int|
                0 <= k < i ==> (#[trigger] sm[k]).guessed_player_id == sm[best as int].guessed_player_id
                    || ranks_above(sm, sm[best as int].guessed_player_id, sm[k].guessed_player_id),
    {
        let c = count_votes(s, &s[i].guessed_player_id);
        let candidate = char_vec(s[i].guessed_player_id.as_str());
        let ghost old_best = sm[best as int].guessed_player_id;
        let ghost g = sm[i as int].guessed_player_id;
        if c > best_count || (c == best_count && chars_lt(&candidate, &best_chars)) {
            proof {
                assert(ranks_above(sm, g, old_best));
                assert forall|k: int| 0 <= k < i + 1 implies (#[trigger] sm[k]).guessed_player_id
                    == g || ranks_above(sm, g, sm[k].guessed_player_id) by {
                    if k < i && sm[k].guessed_player_id != old_best {
                        lemma_ranks_above_transitive(sm, g, old_best, sm[k].guessed_player_id);
                    }
                }
            }
            best = i;
            best_count = c;
            best_chars = candidate;
        } else {
            proof {
                lemma_seq_lt_total(g, old_best);
            }
        }
    }
    proof {
        let b = sm[best as int].guessed_player_id;
        assert(sm[best as int].guessed_player_id == b);
        assert(is_most_suspected(sm, b));
        let ch = choose|g: Seq<char>| is_most_suspected(sm, g);
        lemma_most_suspected_unique(sm, b, ch);
    }
    Some(s[best].guessed_player_id.clone())
}

/// A room and its events, or the error, as models.
pub open spec fn outcome(r: Result<(RoomState, Vec<DomainEvent>), DomainError>) -> Result<
    (RoomModel, Seq<EventModel>),
    DomainError,
> {
    match r {
        Ok((room, events)) => Ok((room@, events_model(events@))),
        Err(e) => Err(e),
    }
}

/// The model of an optional room.
pub open spec fn opt_room(state: Option<&RoomState>) -> Option<RoomModel> {
    match state {
        Some(room) => Some(room@),
        None => None,
    }
}

fn create_room(state: Option<&RoomState>, code: String, nickname: String) -> (r: Result<
    (RoomState, Vec<DomainEvent>),
    DomainError,
>)
    ensures
        outcome(r) == create_rule(opt_room(state), code@, nickname@),
{
    if state.is_some() {
        return Err(DomainError::RoomAlreadyExists);
    }
    if validate_nickname(nickname.as_str()).is_err() {
        return Err(DomainError::InvalidNickname);
    }
    proof {
        reveal_strlit("p");
        assert("p"@ =~= seq!['p']);
    }
    let id = push_decimal(String::from_str("p"), 1);
    let mut players: Vec<PlayerState> = Vec::new();
    players.push(PlayerState { id, nickname, is_admin: true, connected: true });
    let created = RoomState {
        code,
        phase: GamePhase::Lobby,
        category: None,
        players,
        round: None,
        result: None,
    };
    let events = vec![DomainEvent::RoomCreated];
    proof {
        let expected = create_rule(opt_room(state), code@, nickname@)->Ok_0;
        assert(players_model(created.players@) =~= expected.0.players);
        assert(events_model(events@) =~= seq![EventModel::RoomCreated]);
    }
    Ok((created, events))
}

fn join_room(room: &RoomState, nickname: String) -> (r: Result<(RoomState, Vec<DomainEvent>), DomainError>)
    requires
        room.players@.len() < usize::MAX,
    ensures
        outcome(r) == join_rule(room@, nickname@),
{
    if room.phase != GamePhase::Lobby {
        return Err(DomainError::NotInLobby);
    }
    if validate_nickname(nickname.as_str()).is_err() {
        return Err(DomainError::InvalidNickname);
    }
    let connected = connected_player_indices(&room.players);
    if connected.len() >= MAX_ROOM_PLAYERS {
        return Err(DomainError::RoomFull);
    }
    let nick = char_vec(nickname.as_str());
    if find_player_by_nickname(&room.players, &nick, true).is_some() {
        return Err(DomainError::NicknameTaken);
    }
    let mut next = room.copy();
    match find_player_by_nickname(&room.players, &nick, false) {
        Some(i) => {
            proof {
                lemma_first_index_from(players_model(room.players@), same_nickname(nickname@, false), 0);
                assert(next.players@.len() == players_model(next.players@).len());
            }
            let mut p = next.players[i].copy();
            p.connected = true;
            let player_id = p.id.clone();
            next.players.set(i, p);
            let events = vec![DomainEvent::PlayerReconnected { player_id }];
            proof {
                let expected = join_rule(room@, nickname@)->Ok_0;
                assert(players_model(next.players@) =~= expected.0.players);
                assert(events_model(events@) =~= expected.1);
            }
            Ok((next, events))
        },
        None => {
            proof {
                reveal_strlit("p");
                assert("p"@ =~= seq!['p']);
            }
            let player_id = push_decimal(String::from_str("p"), room.players.len() + 1);
            let events = vec![DomainEvent::PlayerJoined { player_id: player_id.clone() }];
            next.players.push(PlayerState { id: player_id, nickname, is_admin: false, connected: true });
            proof {
                let expected = join_rule(room@, nickname@)->Ok_0;
                assert(players_model(next.players@) =~= expected.0.players);
                assert(events_model(events@) =~= expected.1);
            }
            Ok((next, events))
        },
    }
}

fn leave_room(room: &RoomState, player_id: String) -> (r: Result<(RoomState, Vec<DomainEvent>), DomainError>)
    requires
        room@.wf(),
    ensures
        outcome(r) == leave_rule(room@, player_id@),
{
    let ghost ps = players_model(room.players@);
    let idx = match find_player_by_id(&room.players, &player_id) {
        Some(i) => i,
        None => {
            return Err(DomainError::PlayerNotFound);
        },
    };
    proof {
        lemma_first_index_from(ps, has_id(player_id@), 0);
    }
    if !room.players[idx].connected {
        let events: Vec<DomainEvent> = Vec::new();
        assert(events_model(events@) =~= Seq::<EventModel>::empty());
        return Ok((room.copy(), events));
    }
    let mut next = room.copy();
    assert(next.players@.len() == players_model(next.players@).len());
    let was_admin = room.players[idx].is_admin;
    let mut p = room.players[idx].copy();
    p.connected = false;
    p.is_admin = false;
    next.players.set(idx, p);
    let ghost p1 = players_model(next.players@);
    assert(p1 =~= ps.update(idx as int, PlayerModel { connected: false, is_admin: false, ..ps[idx as int] }));
    if was_admin {
        match find_connected_player(&next.players) {
            Some(a) => {
                proof {
                    lemma_first_index_from(p1, is_connected(), 0);
                }
                let mut q = next.players[a].copy();
                q.is_admin = true;
                next.players.set(a, q);
                assert(players_model(next.players@) =~= p1.update(a as int, PlayerModel { is_admin: true, ..p1[a as int] }));
            },
            None => {},
        }
    }
    assert(players_model(next.players@) == players_after_leave(ps, idx as int));
    let imposter_left = match &room.round {
        Some(rd) => room.phase == GamePhase::InProgress && rd.imposter_player_id == room.players[idx].id,
        None => false,
    };
    if imposter_left {
        let imp = match &room.round {
            Some(rd) => rd.imposter_player_id.clone(),
            None => room.code.clone(),
        };
        next.phase = GamePhase::Completed;
        next.result = Some(
            GameResult { winner: Winner::Crew, guessed_player_id: Some(imp.clone()), imposter_player_id: imp },
        );
    }
    if next.phase == GamePhase::InProgress {
        match &room.round {
            Some(rd) => {
                let cur = rd.current_turn_index;
                if !next.players[cur].connected {
                    match next_connected_index(&next.players, cur) {
                        Some(n) => {
                            let mut nr = rd.copy();
                            nr.current_turn_index = n;
                            next.round = Some(nr);
                        },
                        None => {},
                    }
                }
            },
            None => {},
        }
    }
    let events = vec![DomainEvent::PlayerLeft { player_id }];
    proof {
        let expected = leave_rule(room@, player_id@)->Ok_0;
        assert(events_model(events@) =~= expected.1);
        assert(next@ =~= expected.0);
    }
    Ok((next, events))
}

fn set_category(room: &RoomState, catalog: &TopicCatalog, category: String) -> (r: Result<
    (RoomState, Vec<DomainEvent>),
    DomainError,
>)
    ensures
        outcome(r) == set_category_rule(room@, catalog@, category@),
{
    if room.phase != GamePhase::Lobby {
        return Err(DomainError::NotInLobby);
    }
    if !catalog.contains_category(category.as_str()) {
        return Err(DomainError::InvalidCategory);
    }
    let mut next = room.copy();
    next.category = Some(category.clone());
    let events = vec![DomainEvent::CategorySet { category }];
    proof {
        let expected = set_category_rule(room@, catalog@, category@)->Ok_0;
        assert(events_model(events@) =~= expected.1);
        assert(next@ =~= expected.0);
    }
    Ok((next, events))
}

/// Starts the next round on `room`: the imposter is the `pick_imposter`-th
/// connected player and the topic the `pick_topic`-th of the category.
fn prepare_next_round(room: &mut RoomState, catalog: &TopicCatalog, pick_imposter: usize, pick_topic: usize) -> (r: Result<u32, DomainError>)
    requires
        old(room).round is Some ==> old(room).round->0.round_number < u32::MAX,
        round_draw(old(room)@, catalog@) matches Some((n, m)) ==> pick_imposter < n && pick_topic < m,
    ensures
        match r {
            Ok(n) => round_rule(old(room)@, catalog@, pick_imposter as int, pick_topic as int) == Ok::<_, DomainError>((final(room)@, n)),
            Err(e) => round_rule(old(room)@, catalog@, pick_imposter as int, pick_topic as int) == Err::<(RoomModel, u32), _>(e) && final(room)@ == old(room)@,
        },
{
    let connected = connected_player_indices(&room.players);
    proof {
        crate::invariants::lemma_connected_indices_bounds(players_model(room.players@));
    }
    if connected.len() < MIN_PLAYERS_TO_START {
        return Err(DomainError::InsufficientPlayers);
    }
    let topics = match &room.category {
        Some(category) => match catalog.topics_in_category(category.as_str()) {
            Some(t) => t,
            None => {
                return Err(DomainError::InvalidCategory);
            },
        },
        None => {
            return Err(DomainError::CategoryNotSet);
        },
    };
    let imposter_idx = connected[pick_imposter];
    let topic_id = topics[pick_topic].id.to_owned();
    let round_number: u32 = match &room.round {
        Some(rd) => rd.round_number + 1,
        None => 1,
    };
    let imposter_player_id = room.players[imposter_idx].id.clone();
    let first = connected[0];
    room.phase = GamePhase::InProgress;
    room.result = None;
    room.round = Some(
        RoundState {
            round_number,
            current_turn_index: first,
            imposter_player_id,
            topic_id,
            suspicions: Vec::new(),
        },
    );
    proof {
        let expected = round_rule(old(room)@, catalog@, pick_imposter as int, pick_topic as int)->Ok_0;
        assert(room@ =~= expected.0);
    }
    Ok(round_number)
}

fn next_turn(room: &RoomState) -> (r: Result<(RoomState, Vec<DomainEvent>), DomainError>)
    requires
        room@.wf(),
    ensures
        outcome(r) == next_turn_rule(room@),
{
    if room.phase != GamePhase::InProgress {
        return Err(DomainError::NotInProgress);
    }
    let rd = match &room.round {
        Some(rd) => rd,
        None => {
            return Err(DomainError::NotInProgress);
        },
    };
    let n = match next_connected_index(&room.players, rd.current_turn_index) {
        Some(n) => n,
        None => {
            return Err(DomainError::NotInProgress);
        },
    };
    let mut nr = rd.copy();
    nr.current_turn_index = n;
    let mut next = room.copy();
    next.round = Some(nr);
    let events = vec![DomainEvent::TurnAdvanced { current_turn_index: n }];
    proof {
        let expected = next_turn_rule(room@)->Ok_0;
        assert(events_model(events@) =~= expected.1);
        assert(next@ =~= expected.0);
    }
    Ok((next, events))
}

fn guess_imposter(room: &RoomState, player_id: String, guessed_player_id: String) -> (r: Result<
    (RoomState, Vec<DomainEvent>),
    DomainError,
>)
    ensures
        outcome(r) == guess_rule(room@, player_id@, guessed_player_id@),
{
    if room.phase != GamePhase::InProgress {
        return Err(DomainError::NotInProgress);
    }
    if !room.is_member(player_id.as_str()) {
        return Err(DomainError::PlayerNotFound);
    }
    if !room.is_member(guessed_player_id.as_str()) {
        return Err(DomainError::PlayerNotFound);
    }
    let rd = match &room.round {
        Some(rd) => rd,
        None => {
            return Err(DomainError::NotInProgress);
        },
    };
    let ghost sm = suspicions_model(rd.suspicions@);
    let mut suspicions = copy_suspicions(&rd.suspicions);
    assert(suspicions@.len() == suspicions_model(suspicions@).len());
    match find_suspicion_by(&rd.suspicions, &player_id) {
        Some(i) => {
            proof {
                lemma_first_index_from(sm, submitted_by(player_id@), 0);
            }
            let mut x = suspicions[i].copy();
            x.guessed_player_id = guessed_player_id.clone();
            suspicions.set(i, x);
        },
        None => {
            suspicions.push(
                SuspicionState {
                    player_id: player_id.clone(),
                    guessed_player_id: guessed_player_id.clone(),
                },
            );
        },
    }
    assert(suspicions_model(suspicions@) =~= record_suspicion(sm, player_id@, guessed_player_id@));
    let mut nr = rd.copy();
    nr.suspicions = suspicions;
    let mut next = room.copy();
    next.round = Some(nr);
    let events = vec![DomainEvent::SuspicionSubmitted { player_id, guessed_player_id }];
    proof {
        let expected = guess_rule(room@, player_id@, guessed_player_id@)->Ok_0;
        assert(events_model(events@) =~= expected.1);
        assert(next@ =~= expected.0);
    }
    Ok((next, events))
}

fn reveal_result(room: &RoomState) -> (r: Result<(RoomState, Vec<DomainEvent>), DomainError>)
    ensures
        outcome(r) == reveal_rule(room@),
{
    if room.phase != GamePhase::InProgress {
        return Err(DomainError::NotInProgress);
    }
    let rd = match &room.round {
        Some(rd) => rd,
        None => {
            return Err(DomainError::NotInProgress);
        },
    };
    let guessed = most_suspected_player_id(&rd.suspicions);
    let winner = match &guessed {
        Some(g) => if *g == rd.imposter_player_id {
            Winner::Crew
        } else {
            Winner::Imposter
        },
        None => Winner::Imposter,
    };
    let mut next = room.copy();
    next.phase = GamePhase::Completed;
    next.result = Some(
        GameResult { winner, guessed_player_id: guessed, imposter_player_id: rd.imposter_player_id.clone() },
    );
    let events = vec![DomainEvent::GameRevealed { winner }];
    proof {
        let expected = reveal_rule(room@)->Ok_0;
        assert(events_model(events@) =~= expected.1);
        assert(next@ =~= expected.0);
    }
    Ok((next, events))
}

fn end_game(room: &RoomState) -> (r: Result<(RoomState, Vec<DomainEvent>), DomainError>)
    ensures
        outcome(r) == end_rule(room@),
{
    if room.phase == GamePhase::Lobby {
        return Err(DomainError::NotInProgress);
    }
    let mut next = room.copy();
    next.phase = GamePhase::Lobby;
    next.round = None;
    next.result = None;
    let events = vec![DomainEvent::GameEnded];
    proof {
        let expected = end_rule(room@)->Ok_0;
        assert(events_model(events@) =~= expected.1);
        assert(next@ =~= expected.0);
    }
    Ok((next, events))
}

/// Starts or restarts a round, as the command `StartGame` (from the lobby)
/// or `RestartGame` (from a completed round) does.
fn begin_round(room: &RoomState, catalog: &TopicCatalog, restart: bool, pick_imposter: usize, pick_topic: usize) -> (r: Result<
    (RoomState, Vec<DomainEvent>),
    DomainError,
>)
    requires
        room.round is Some ==> room.round->0.round_number < u32::MAX,
        room.phase == (if restart {
            GamePhase::Completed
        } else {
            GamePhase::Lobby
        }) ==> (round_draw(room@, catalog@) matches Some((n, m)) ==> pick_imposter < n && pick_topic
            < m),
    ensures
        restart ==> outcome(r) == restart_rule(room@, catalog@, pick_imposter as int, pick_topic as int),
        !restart ==> outcome(r) == start_rule(room@, catalog@, pick_imposter as int, pick_topic as int),
{
    if restart && room.phase != GamePhase::Completed {
        return Err(DomainError::NotCompleted);
    }
    if !restart && room.phase != GamePhase::Lobby {
        return Err(DomainError::NotInLobby);
    }
    let mut next = room.copy();
    match prepare_next_round(&mut next, catalog, pick_imposter, pick_topic) {
        Ok(round_number) => {
            let events = if restart {
                vec![DomainEvent::GameRestarted { round_number }]
            } else {
                vec![DomainEvent::RoundStarted { round_number }]
            };
            proof {
                if restart {
                    assert(events_model(events@) =~= seq![EventModel::GameRestarted { round_number }]);
                } else {
                    assert(events_model(events@) =~= seq![EventModel::RoundStarted { round_number }]);
                }
            }
            Ok((next, events))
        },
        Err(e) => Err(e),
    }
}

/// How many choices carrying out `command` draws from the random source.
pub fn draw_counts(state: Option<&RoomState>, command: &Command, catalog: &TopicCatalog) -> (r: Option<
    (usize, usize),
>)
    ensures
        match r {
            Some((n, m)) => draw_sizes(opt_room(state), command@, catalog@) == Some(
                (n as nat, m as nat),
            ) && n > 0 && m > 0,
            None => draw_sizes(opt_room(state), command@, catalog@) is None,
        },
{
    let room = match state {
        Some(room) => room,
        None => {
            return None;
        },
    };
    let starts = match command {
        Command::StartGame => room.phase == GamePhase::Lobby,
        Command::RestartGame => room.phase == GamePhase::Completed,
        _ => false,
    };
    if !starts {
        return None;
    }
    let connected = connected_player_indices(&room.players);
    if connected.len() < MIN_PLAYERS_TO_START {
        return None;
    }
    match &room.category {
        Some(category) => match catalog.topics_in_category(category.as_str()) {
            Some(topics) => Some((connected.len(), topics.len())),
            None => None,
        },
        None => None,
    }
}

/// Applies a command with the random choices of a round start given:
/// the imposter is the `pick_imposter`-th connected player and the topic
/// the `pick_topic`-th of the category. `state` is `None` only for
/// `Command::CreateRoom`.
pub fn apply_with_picks(
    state: Option<&RoomState>,
    command: Command,
    catalog: &TopicCatalog,
    pick_imposter: usize,
    pick_topic: usize,
) -> (r: Result<(RoomState, Vec<DomainEvent>), DomainError>)
    requires
        within_limits(opt_room(state), command@),
        draw_sizes(opt_room(state), command@, catalog@) matches Some((n, m)) ==> pick_imposter < n
            && pick_topic < m,
    ensures
        outcome(r) == step(opt_room(state), command@, catalog@, pick_imposter as int, pick_topic as int),
        r is Ok ==> r->Ok_0.0@.wf(),
        (state matches Some(room) ==> room_inv(room@)) && r is Ok ==> room_inv(r->Ok_0.0@),
{
    proof {
        if step(opt_room(state), command@, catalog@, pick_imposter as int, pick_topic as int) is Ok {
            lemma_step_preserves_wf(opt_room(state), command@, catalog@, pick_imposter as int, pick_topic as int);
        }
        if (state matches Some(room) ==> room_inv(room@)) {
            let s = step(opt_room(state), command@, catalog@, pick_imposter as int, pick_topic as int);
            if s is Ok {
                law_step_preserves_invariant(opt_room(state), command@, catalog@, pick_imposter as int, pick_topic as int);
            }
        }
    }
    match command {
        Command::CreateRoom { code, nickname, token_hash: _ } => create_room(state, code, nickname),
        Command::JoinRoom { nickname, token_hash: _ } => match state {
            Some(room) => join_room(room, nickname),
            None => Err(DomainError::PlayerNotFound),
        },
        Command::LeaveRoom { player_id } => match state {
            Some(room) => leave_room(room, player_id),
            None => Err(DomainError::PlayerNotFound),
        },
        Command::SetCategory { category } => match state {
            Some(room) => set_category(room, catalog, category),
            None => Err(DomainError::PlayerNotFound),
        },
        Command::StartGame => match state {
            Some(room) => begin_round(room, catalog, false, pick_imposter, pick_topic),
            None => Err(DomainError::PlayerNotFound),
        },
        Command::NextTurn => match state {
            Some(room) => next_turn(room),
            None => Err(DomainError::PlayerNotFound),
        },
        Command::GuessImposter { player_id, guessed_player_id } => match state {
            Some(room) => guess_imposter(room, player_id, guessed_player_id),
            None => Err(DomainError::PlayerNotFound),
        },
        Command::RevealResult => match state {
            Some(room) => reveal_result(room),
            None => Err(DomainError::PlayerNotFound),
        },
        Command::RestartGame => match state {
            Some(room) => begin_round(room, catalog, true, pick_imposter, pick_topic),
            None => Err(DomainError::PlayerNotFound),
        },
        Command::EndGame => match state {
            Some(room) => end_game(room),
            None => Err(DomainError::PlayerNotFound),
        },
    }
}

/// Applies a command and returns the new state and the emitted events,
/// drawing the imposter and topic of a new round from `rng`.
///
/// `state` is `None` only for `Command::CreateRoom`.
pub fn apply<R: RngLike>(
    state: Option<&RoomState>,
    command: Command,
    catalog: &TopicCatalog,
    rng: &mut R,
) -> (r: Result<(RoomState, Vec<DomainEvent>), DomainError>)
    requires
        within_limits(opt_room(state), command@),
    ensures
        applied(opt_room(state), command@, catalog@, outcome(r)),
        draw_sizes(opt_room(state), command@, catalog@) matches Some((n, m)) ==> (old(rng).imposter_pick(
            n as usize,
        ) matches Some(k) ==> (old(rng).topic_pick(m as usize) matches Some(j) ==> outcome(r) == step(
            opt_room(state),
            command@,
            catalog@,
            k as int,
            j as int,
        ))),
        match draw_sizes(opt_room(state), command@, catalog@) {
            Some((n, m)) => exists|mid: R, a: usize, b: usize|
                #![trigger old(rng).imposter_drawn(n as usize, a, &mid), mid.topic_drawn(m as usize, b, &*final(rng))]
                old(rng).imposter_drawn(n as usize, a, &mid) && mid.topic_drawn(m as usize, b, &*final(rng))
                    && outcome(r) == step(opt_room(state), command@, catalog@, a as int, b as int),
            None => *final(rng) == *old(rng),
        },
        r is Ok ==> r->Ok_0.0@.wf(),
        (state matches Some(room) ==> room_inv(room@)) && r is Ok ==> room_inv(r->Ok_0.0@),
{
    let (pick_imposter, pick_topic) = match draw_counts(state, &command, catalog) {
        Some((n, m)) => {
            let a = rng.choose_imposter(n);
            let ghost mid = *rng;
            let b = rng.choose_topic(m);
            proof {
                assert(old(rng).imposter_drawn(n, a, &mid));
                assert(mid.topic_drawn(m, b, &*rng));
            }
            (a, b)
        },
        None => (0, 0),
    };
    let ghost cmd = command@;
    let r = apply_with_picks(state, command, catalog, pick_imposter, pick_topic);
    proof {
        if let Some((n, m)) = draw_sizes(opt_room(state), cmd, catalog@) {
            assert(0 <= pick_imposter < n && 0 <= pick_topic < m && outcome(r) == step(
                opt_room(state),
                cmd,
                catalog@,
                pick_imposter as int,
                pick_topic as int,
            ));
        }
    }
    r
}

} // verus!
