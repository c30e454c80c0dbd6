//! The invariant that every command keeps, and the lemmas that show it.

use vstd::prelude::*;

use crate::commands::CommandModel;
use crate::model::{GamePhase, PlayerModel, RoomModel, SuspicionModel};
use crate::rules::{
    connected_indices, draw_sizes, first_index, first_index_from, is_connected,
    lemma_first_index_from, next_connected, player_id_for, players_after_leave, round_draw,
    round_rule, same_nickname, search_connected, step, valid_nickname, MAX_ROOM_PLAYERS,
};
use crate::text::{eq_ignore_ascii_case, decimal, lemma_decimal_injective};
use crate::topics::CatalogModel;

verus! {

/// Number of connected players.
pub open spec fn connected_count(players: Seq<PlayerModel>) -> nat {
    connected_indices(players).len()
}

/// Player `i` holds the id given to the `i + 1`-th player to join.
pub open spec fn ids_in_join_order(players: Seq<PlayerModel>) -> bool {
    forall|i: int| 0 <= i < players.len() ==> (#[trigger] players[i]).id == player_id_for((i + 1) as nat)
}

/// At most one player is admin, and an admin is connected.
pub open spec fn admin_ok(players: Seq<PlayerModel>) -> bool {
    &&& forall|i: int| 0 <= i < players.len() && (#[trigger] players[i]).is_admin ==> players[i].connected
    &&& forall|i: int, j: int|
        0 <= i < players.len() && 0 <= j < players.len() && (#[trigger] players[i]).is_admin
            && (#[trigger] players[j]).is_admin ==> i == j
}

/// The phase agrees with the round and the result: the lobby has neither,
/// a running round has a round and no result, a completed one has both.
pub open spec fn phase_ok(room: RoomModel) -> bool {
    match room.phase {
        GamePhase::Lobby => room.round is None && room.result is None,
        GamePhase::InProgress => room.round is Some && room.result is None,
        GamePhase::Completed => room.round is Some && room.result is Some,
    }
}

/// The imposter of the round, if any, is one of the room's players.
pub open spec fn imposter_ok(room: RoomModel) -> bool {
    room.round is Some ==> exists|i: int|
        0 <= i < room.players.len() && (#[trigger] room.players[i]).id
            == room.round->0.imposter_player_id
}

/// No two players have nicknames equal up to ASCII case.
pub open spec fn nicknames_distinct(players: Seq<PlayerModel>) -> bool {
    forall|i: int, j: int|
        0 <= i < j < players.len() ==> !eq_ignore_ascii_case(
            (#[trigger] players[i]).nickname,
            (#[trigger] players[j]).nickname,
        )
}

/// While a round runs, the player holding the turn and the imposter are
/// both connected.
pub open spec fn running_ok(room: RoomModel) -> bool {
    room.phase == GamePhase::InProgress ==> (room.round matches Some(rd)
        && room.players[rd.current_turn_index as int].connected && exists|i: int|
        0 <= i < room.players.len() && (#[trigger] room.players[i]).connected && room.players[i].id
            == rd.imposter_player_id)
}

/// No player has two suspicions on the board of the round.
pub open spec fn suspicion_authors_distinct(room: RoomModel) -> bool {
    room.round matches Some(rd) ==> forall|a: int, b: int|
        0 <= a < b < rd.suspicions.len() ==> (#[trigger] rd.suspicions[a]).player_id
            != (#[trigger] rd.suspicions[b]).player_id
}

/// What holds of every room the commands build.
pub open spec fn room_inv(room: RoomModel) -> bool {
    &&& core_inv(room)
    &&& room.players.len() <= usize::MAX
    &&& nicknames_distinct(room.players)
    &&& forall|i: int| 0 <= i < room.players.len() ==> valid_nickname((#[trigger] room.players[i]).nickname)
    &&& connected_count(room.players) <= MAX_ROOM_PLAYERS
    &&& imposter_ok(room)
    &&& running_ok(room)
}

/// The part of the room invariant on the shape of the game's data: the
/// turn of a round is on a seat, the phase agrees with the round and the
/// result, at most one player is admin and is connected, players are
/// numbered in join order, and no player has two suspicions on the board.
pub open spec fn core_inv(room: RoomModel) -> bool {
    &&& room.wf()
    &&& phase_ok(room)
    &&& admin_ok(room.players)
    &&& ids_in_join_order(room.players)
    &&& suspicion_authors_distinct(room)
}

pub proof fn lemma_connected_indices_bounds(players: Seq<PlayerModel>)
    ensures
        connected_indices(players).len() <= players.len(),
        forall|k: int|
            0 <= k < connected_indices(players).len() ==> 0 <= #[trigger] connected_indices(
                players,
            )[k] < players.len() && players[connected_indices(players)[k]].connected,
    decreases players.len(),
{
    if players.len() > 0 {
        lemma_connected_indices_bounds(players.drop_last());
    }
}

/// Changing one player changes the connected count by its own change.
pub proof fn lemma_connected_count_update(players: Seq<PlayerModel>, i: int, p: PlayerModel)
    requires
        0 <= i < players.len(),
    ensures
        connected_count(players.update(i, p)) + (if players[i].connected {
            1int
        } else {
            0int
        }) == connected_count(players) + (if p.connected {
            1int
        } else {
            0int
        }),
    decreases players.len(),
{
    let q = players.update(i, p);
    if i == players.len() - 1 {
        assert(q.drop_last() =~= players.drop_last());
    } else {
        lemma_connected_count_update(players.drop_last(), i, p);
        assert(q.drop_last() =~= players.drop_last().update(i, p));
    }
}

/// A found connected player is connected and in range.
pub proof fn lemma_search_connected(players: Seq<PlayerModel>, cur: int, step: int)
    requires
        0 <= cur,
    ensures
        search_connected(players, cur, step) matches Some(i) ==> 0 <= i < players.len()
            && players[i].connected,
    decreases players.len() + 1 - step,
{
    if 1 <= step <= players.len() {
        let n = players.len() as int;
        assert(0 <= (cur + step) % n < n) by (nonlinear_arith)
            requires
                n > 0,
                cur + step >= 0,
        ;
        lemma_search_connected(players, cur, step + 1);
    }
}

/// The cyclic search finds a connected player at or before step `d` when
/// the player `d` places after `cur` is connected.
proof fn lemma_search_reaches(players: Seq<PlayerModel>, cur: int, step: int, d: int)
    requires
        0 <= cur,
        1 <= step <= d <= players.len(),
        players[(cur + d) % (players.len() as int)].connected,
    ensures
        search_connected(players, cur, step) is Some,
    decreases d - step,
{
    if !players[(cur + step) % (players.len() as int)].connected {
        lemma_search_reaches(players, cur, step + 1, d);
    }
}

/// Going round the table from any seat finds a connected player when
/// there is one.
pub proof fn lemma_next_connected_found(players: Seq<PlayerModel>, cur: int, j: int)
    requires
        0 <= cur,
        0 <= j < players.len(),
        players[j].connected,
    ensures
        next_connected(players, cur) is Some,
{
    let n = players.len() as int;
    let c = cur % n;
    let d = if j > c {
        j - c
    } else {
        j - c + n
    };
    assert(0 <= c < n) by (nonlinear_arith)
        requires
            n > 0,
            c == cur % n,
    ;
    assert((cur + d) % n == j) by (nonlinear_arith)
        requires
            n > 0,
            0 <= cur,
            c == cur % n,
            0 <= c < n,
            0 <= j < n,
            d == (if j > c {
                j - c
            } else {
                j - c + n
            }),
    ;
    lemma_search_reaches(players, cur, 1, d);
}

pub proof fn lemma_create_inv(state: Option<RoomModel>, cmd: CommandModel, cat: CatalogModel, pi: int, pt: int)
    requires
        cmd is CreateRoom,
        step(state, cmd, cat, pi, pt) is Ok,
    ensures
        room_inv(step(state, cmd, cat, pi, pt)->Ok_0.0),
{
    let room = step(state, cmd, cat, pi, pt)->Ok_0.0;
    assert(room.players.drop_last() =~= Seq::<PlayerModel>::empty());
    assert(connected_indices(room.players.drop_last()) == Seq::<int>::empty());
    assert(connected_count(room.players) == 1);
}

pub proof fn lemma_join_inv(room: RoomModel, nickname: Seq<char>, new_room: RoomModel)
    requires
        room_inv(room),
        room.players.len() < usize::MAX,
        crate::rules::join_rule(room, nickname) matches Ok((r, _)) && r == new_room,
    ensures
        room_inv(new_room),
{
    let ps = room.players;
    lemma_first_index_from(ps, same_nickname(nickname, false), 0);
    match first_index(ps, same_nickname(nickname, false)) {
        Some(i) => {
            let p = PlayerModel { connected: true, ..ps[i] };
            lemma_connected_count_update(ps, i, p);
            assert(new_room.players == ps.update(i, p));
            assert forall|a: int, b: int| 0 <= a < b < new_room.players.len() implies !eq_ignore_ascii_case(
                (#[trigger] new_room.players[a]).nickname,
                (#[trigger] new_room.players[b]).nickname,
            ) by {
                assert(new_room.players[a].nickname == ps[a].nickname);
                assert(new_room.players[b].nickname == ps[b].nickname);
            }
            assert forall|k: int| 0 <= k < new_room.players.len() implies (#[trigger] new_room.players[k]).id == player_id_for((k + 1) as nat) && valid_nickname(new_room.players[k].nickname) by {
                assert(new_room.players[k].id == ps[k].id);
                assert(new_room.players[k].nickname == ps[k].nickname);
            }
            assert(imposter_ok(new_room)) by {
                if room.round is Some {
                    let w = choose|w: int| 0 <= w < ps.len() && (#[trigger] ps[w]).id == room.round->0.imposter_player_id;
                    assert(new_room.players[w].id == ps[w].id);
                }
            }
        },
        None => {
            let np = new_room.players;
            assert(np.drop_last() =~= ps);
            lemma_first_index_from(ps, same_nickname(nickname, true), 0);
            assert forall|i: int, j: int| 0 <= i < j < np.len() implies !eq_ignore_ascii_case(
                (#[trigger] np[i]).nickname,
                (#[trigger] np[j]).nickname,
            ) by {
                if j == ps.len() {
                    assert(np[i] == ps[i]);
                    assert(np[j].nickname == nickname);
                    if eq_ignore_ascii_case(ps[i].nickname, nickname) {
                        assert(same_nickname(nickname, ps[i].connected)(ps[i]));
                    }
                } else {
                    assert(np[i] == ps[i]);
                    assert(np[j] == ps[j]);
                }
            }
            assert(imposter_ok(new_room)) by {
                if room.round is Some {
                    let w = choose|w: int| 0 <= w < ps.len() && (#[trigger] ps[w]).id == room.round->0.imposter_player_id;
                    assert(np[w].id == ps[w].id);
                }
            }
            assert forall|k: int| 0 <= k < np.len() implies (#[trigger] np[k]).id == player_id_for((k + 1) as nat) && valid_nickname(np[k].nickname) by {
                if k < ps.len() {
                    assert(np[k] == ps[k]);
                }
            }
        },
    }
}

pub proof fn lemma_players_after_leave(players: Seq<PlayerModel>, idx: int)
    requires
        0 <= idx < players.len(),
        players[idx].connected,
        admin_ok(players),
        ids_in_join_order(players),
    ensures
        players_after_leave(players, idx).len() == players.len(),
        !players_after_leave(players, idx)[idx].connected,
        forall|k: int|
            0 <= k < players.len() && k != idx ==> (#[trigger] players_after_leave(players, idx)[k]).connected
                == players[k].connected,
        forall|k: int| 0 <= k < players.len() ==> (#[trigger] players_after_leave(players, idx)[k]).id == players[k].id
            && players_after_leave(players, idx)[k].nickname == players[k].nickname,
        admin_ok(players_after_leave(players, idx)),
        ids_in_join_order(players_after_leave(players, idx)),
        connected_count(players) <= MAX_ROOM_PLAYERS ==> connected_count(players_after_leave(players, idx))
            <= MAX_ROOM_PLAYERS,
{
    let p1 = players.update(idx, PlayerModel { connected: false, is_admin: false, ..players[idx] });
    lemma_connected_count_update(players, idx, PlayerModel { connected: false, is_admin: false, ..players[idx] });
    let after = players_after_leave(players, idx);
    if players[idx].is_admin {
        lemma_first_index_from(p1, is_connected(), 0);
        match first_index(p1, is_connected()) {
            Some(a) => {
                let q = PlayerModel { is_admin: true, ..p1[a] };
                lemma_connected_count_update(p1, a, q);
                assert(after == p1.update(a, q));
                assert forall|i: int| 0 <= i < after.len() && (#[trigger] after[i]).is_admin implies i == a by {
                    if i != a {
                        assert(after[i] == p1[i]);
                        if i != idx {
                            assert(players[i].is_admin);
                        }
                    }
                }
            },
            None => {},
        }
    }
    assert forall|k: int| 0 <= k < after.len() implies (#[trigger] after[k]).id == player_id_for((k + 1) as nat) by {
        assert(after[k].id == players[k].id);
    }
}

pub proof fn lemma_leave_inv(room: RoomModel, player_id: Seq<char>, new_room: RoomModel)
    requires
        room_inv(room),
        crate::rules::leave_rule(room, player_id) matches Ok((r, _)) && r == new_room,
    ensures
        room_inv(new_room),
{
    let ps = room.players;
    lemma_first_index_from(ps, crate::rules::has_id(player_id), 0);
    let idx = first_index(ps, crate::rules::has_id(player_id))->0;
    if ps[idx].connected {
        lemma_players_after_leave(ps, idx);
        let after = players_after_leave(ps, idx);
        assert(new_room.players == after);
        assert forall|a: int, b: int| 0 <= a < b < after.len() implies !eq_ignore_ascii_case(
            (#[trigger] after[a]).nickname,
            (#[trigger] after[b]).nickname,
        ) by {
            assert(after[a].nickname == ps[a].nickname);
            assert(after[b].nickname == ps[b].nickname);
        }
        assert forall|k: int| 0 <= k < after.len() implies valid_nickname((#[trigger] after[k]).nickname) by {
            assert(after[k].nickname == ps[k].nickname);
        }
        if room.round is Some {
            let rd = room.round->0;
            lemma_search_connected(after, rd.current_turn_index as int, 1);
            let w = choose|w: int| 0 <= w < ps.len() && (#[trigger] ps[w]).id == rd.imposter_player_id;
            assert(after[w].id == ps[w].id);
            if new_room.phase == GamePhase::InProgress {
                let v = choose|v: int|
                    0 <= v < ps.len() && (#[trigger] ps[v]).connected && ps[v].id == rd.imposter_player_id;
                assert(v != idx);
                assert(after[v].connected);
                assert(after[v].id == ps[v].id);
                lemma_next_connected_found(after, rd.current_turn_index as int, v);
            }
        }
    }
}

pub proof fn lemma_round_inv(room: RoomModel, cat: CatalogModel, pi: int, pt: int)
    requires
        room_inv(room),
        round_rule(room, cat, pi, pt) is Ok,
        round_draw(room, cat) matches Some((n, m)) ==> 0 <= pi < n && 0 <= pt < m,
    ensures
        room_inv(round_rule(room, cat, pi, pt)->Ok_0.0),
{
    let new_room = round_rule(room, cat, pi, pt)->Ok_0.0;
    lemma_connected_indices_bounds(room.players);
    let c = connected_indices(room.players);
    assert(new_room.players == room.players);
    assert(new_room.players[c[pi]].id == new_room.round->0.imposter_player_id);
    assert(new_room.players[c[pi]].connected);
    assert(new_room.round->0.current_turn_index as int == c[0]);
    assert(new_room.players[c[0]].connected);
}

pub proof fn lemma_next_turn_inv(room: RoomModel)
    requires
        room_inv(room),
        crate::rules::next_turn_rule(room) is Ok,
    ensures
        room_inv(crate::rules::next_turn_rule(room)->Ok_0.0),
{
    let rd = room.round->0;
    lemma_search_connected(room.players, rd.current_turn_index as int, 1);
    let new_room = crate::rules::next_turn_rule(room)->Ok_0.0;
    let w = choose|w: int|
        0 <= w < room.players.len() && (#[trigger] room.players[w]).connected && room.players[w].id
            == rd.imposter_player_id;
    assert(new_room.players[w].connected);
}

/// A suspicion keeps the room invariant: the board holds at most one
/// suspicion of each player.
pub proof fn lemma_guess_inv(room: RoomModel, player_id: Seq<char>, guessed: Seq<char>)
    requires
        room_inv(room),
        crate::rules::guess_rule(room, player_id, guessed) is Ok,
    ensures
        room_inv(crate::rules::guess_rule(room, player_id, guessed)->Ok_0.0),
{
    let new_room = crate::rules::guess_rule(room, player_id, guessed)->Ok_0.0;
    let rd = room.round->0;
    let s = rd.suspicions;
    let u = new_room.round->0.suspicions;
    let sb = crate::rules::submitted_by(player_id);
    lemma_first_index_from(s, sb, 0);
    match first_index(s, sb) {
        Some(i) => {
            assert forall|a: int, b: int| 0 <= a < b < u.len() implies (#[trigger] u[a]).player_id
                != (#[trigger] u[b]).player_id by {
                assert(u[a].player_id == s[a].player_id);
                assert(u[b].player_id == s[b].player_id);
            }
        },
        None => {
            assert forall|a: int, b: int| 0 <= a < b < u.len() implies (#[trigger] u[a]).player_id
                != (#[trigger] u[b]).player_id by {
                assert(u[a] == s[a]);
                if b < s.len() {
                    assert(u[b] == s[b]);
                } else {
                    assert(!sb(s[a]));
                }
            }
        },
    }
    let w = choose|w: int|
        0 <= w < room.players.len() && (#[trigger] room.players[w]).connected && room.players[w].id
            == rd.imposter_player_id;
    assert(new_room.players[w].connected);
}

/// Every command keeps the room invariant: what holds of a room before a
/// command also holds of the room it builds.
pub proof fn law_step_preserves_invariant(
    state: Option<RoomModel>,
    cmd: CommandModel,
    cat: CatalogModel,
    pi: int,
    pt: int,
)
    requires
        state matches Some(room) ==> room_inv(room),
        crate::rules::within_limits(state, cmd),
        draw_sizes(state, cmd, cat) matches Some((n, m)) ==> 0 <= pi < n && 0 <= pt < m,
        step(state, cmd, cat, pi, pt) is Ok,
    ensures
        room_inv(step(state, cmd, cat, pi, pt)->Ok_0.0),
{
    let new_room = step(state, cmd, cat, pi, pt)->Ok_0.0;
    match cmd {
        CommandModel::CreateRoom { .. } => lemma_create_inv(state, cmd, cat, pi, pt),
        CommandModel::JoinRoom { nickname, .. } => lemma_join_inv(state->0, nickname, new_room),
        CommandModel::LeaveRoom { player_id } => lemma_leave_inv(state->0, player_id, new_room),
        CommandModel::StartGame => lemma_round_inv(state->0, cat, pi, pt),
        CommandModel::RestartGame => lemma_round_inv(state->0, cat, pi, pt),
        CommandModel::NextTurn => lemma_next_turn_inv(state->0),
        CommandModel::GuessImposter { player_id, guessed_player_id } => lemma_guess_inv(
            state->0,
            player_id,
            guessed_player_id,
        ),
        _ => {},
    }
}

/// Recording a suspicion keeps the authors on the board distinct.
proof fn lemma_record_suspicion_distinct(s: Seq<SuspicionModel>, player_id: Seq<char>, guessed: Seq<char>)
    requires
        forall|a: int, b: int| 0 <= a < b < s.len() ==> (#[trigger] s[a]).player_id != (#[trigger] s[b]).player_id,
    ensures
        ({
            let u = crate::rules::record_suspicion(s, player_id, guessed);
            forall|a: int, b: int| 0 <= a < b < u.len() ==> (#[trigger] u[a]).player_id != (#[trigger] u[b]).player_id
        }),
{
    let u = crate::rules::record_suspicion(s, player_id, guessed);
    let sb = crate::rules::submitted_by(player_id);
    lemma_first_index_from(s, sb, 0);
    assert forall|a: int, b: int| 0 <= a < b < u.len() implies (#[trigger] u[a]).player_id
        != (#[trigger] u[b]).player_id by {
        match first_index(s, sb) {
            Some(i) => {
                assert(u[a].player_id == s[a].player_id);
                assert(u[b].player_id == s[b].player_id);
            },
            None => {
                assert(u[a] == s[a]);
                if b < s.len() {
                    assert(u[b] == s[b]);
                } else {
                    assert(!sb(s[a]));
                }
            },
        }
    }
}

/// Every command keeps the core invariant, and keeps the room's code and
/// its players: none is removed, reordered or renamed, and new players
/// only join at the end.
pub proof fn law_step_preserves_core_invariant(
    state: Option<RoomModel>,
    cmd: CommandModel,
    cat: CatalogModel,
    pi: int,
    pt: int,
)
    requires
        state matches Some(room) ==> core_inv(room),
        crate::rules::within_limits(state, cmd),
        draw_sizes(state, cmd, cat) matches Some((n, m)) ==> 0 <= pi < n && 0 <= pt < m,
        step(state, cmd, cat, pi, pt) is Ok,
    ensures
        core_inv(step(state, cmd, cat, pi, pt)->Ok_0.0),
        state matches Some(room) ==> ({
            let after = step(state, cmd, cat, pi, pt)->Ok_0.0;
            &&& after.code == room.code
            &&& after.players.len() >= room.players.len()
            &&& forall|k: int|
                0 <= k < room.players.len() ==> (#[trigger] after.players[k]).id == room.players[k].id
                    && after.players[k].nickname == room.players[k].nickname
        }),
{
    lemma_step_preserves_wf(state, cmd, cat, pi, pt);
    let new_room = step(state, cmd, cat, pi, pt)->Ok_0.0;
    match cmd {
        CommandModel::CreateRoom { .. } => lemma_create_inv(state, cmd, cat, pi, pt),
        CommandModel::JoinRoom { nickname, .. } => {
            let room = state->0;
            let ps = room.players;
            lemma_first_index_from(ps, same_nickname(nickname, false), 0);
            let np = new_room.players;
            match first_index(ps, same_nickname(nickname, false)) {
                Some(i) => {
                    assert forall|k: int| 0 <= k < np.len() implies (#[trigger] np[k]).id == player_id_for(
                        (k + 1) as nat,
                    ) by {
                        assert(np[k].id == ps[k].id);
                    }
                    assert forall|k: int| 0 <= k < np.len() && (#[trigger] np[k]).is_admin implies np[k].connected by {
                        assert(np[k].is_admin == ps[k].is_admin);
                    }
                    assert forall|a: int, b: int|
                        0 <= a < np.len() && 0 <= b < np.len() && (#[trigger] np[a]).is_admin
                            && (#[trigger] np[b]).is_admin implies a == b by {
                        assert(np[a].is_admin == ps[a].is_admin);
                        assert(np[b].is_admin == ps[b].is_admin);
                    }
                },
                None => {
                    assert forall|k: int| 0 <= k < np.len() implies (#[trigger] np[k]).id == player_id_for(
                        (k + 1) as nat,
                    ) by {
                        if k < ps.len() {
                            assert(np[k] == ps[k]);
                        }
                    }
                    assert forall|k: int| 0 <= k < ps.len() implies #[trigger] np[k] == ps[k] by {}
                },
            }
        },
        CommandModel::LeaveRoom { player_id } => {
            let room = state->0;
            let ps = room.players;
            lemma_first_index_from(ps, crate::rules::has_id(player_id), 0);
            let idx = first_index(ps, crate::rules::has_id(player_id))->0;
            if ps[idx].connected {
                lemma_players_after_leave(ps, idx);
            }
        },
        CommandModel::GuessImposter { player_id, guessed_player_id } => {
            lemma_record_suspicion_distinct(state->0.round->0.suspicions, player_id, guessed_player_id);
        },
        _ => {},
    }
}

/// Every command keeps a room well formed: the turn of its round, if any,
/// stays on a seat of the room.
pub proof fn lemma_step_preserves_wf(
    state: Option<RoomModel>,
    cmd: CommandModel,
    cat: CatalogModel,
    pi: int,
    pt: int,
)
    requires
        state matches Some(room) ==> room.wf(),
        draw_sizes(state, cmd, cat) matches Some((n, m)) ==> 0 <= pi < n && 0 <= pt < m,
        step(state, cmd, cat, pi, pt) is Ok,
    ensures
        step(state, cmd, cat, pi, pt)->Ok_0.0.wf(),
{
    match cmd {
        CommandModel::LeaveRoom { player_id } => {
            let room = state->0;
            let ps = room.players;
            lemma_first_index_from(ps, crate::rules::has_id(player_id), 0);
            let idx = first_index(ps, crate::rules::has_id(player_id))->0;
            if ps[idx].connected {
                let after = players_after_leave(ps, idx);
                let p1 = ps.update(idx, PlayerModel { connected: false, is_admin: false, ..ps[idx] });
                if ps[idx].is_admin {
                    lemma_first_index_from(p1, is_connected(), 0);
                }
                assert(after.len() == ps.len());
                if let Some(rd) = room.round {
                    lemma_search_connected(after, rd.current_turn_index as int, 1);
                }
            }
        },
        CommandModel::JoinRoom { nickname, .. } => {
            lemma_first_index_from(state->0.players, same_nickname(nickname, false), 0);
        },
        CommandModel::StartGame => lemma_connected_indices_bounds(state->0.players),
        CommandModel::RestartGame => lemma_connected_indices_bounds(state->0.players),
        CommandModel::NextTurn => {
            let room = state->0;
            lemma_search_connected(room.players, room.round->0.current_turn_index as int, 1);
        },
        _ => {},
    }
}

/// Player ids are distinct: players are numbered in join order.
pub proof fn law_player_ids_distinct(room: RoomModel, i: int, j: int)
    requires
        room_inv(room),
        0 <= i < room.players.len(),
        0 <= j < room.players.len(),
        room.players[i].id == room.players[j].id,
    ensures
        i == j,
{
    let a = player_id_for((i + 1) as nat);
    let b = player_id_for((j + 1) as nat);
    assert(a.drop_first() =~= decimal((i + 1) as nat));
    assert(b.drop_first() =~= decimal((j + 1) as nat));
    lemma_decimal_injective((i + 1) as nat, (j + 1) as nat);
}

/// A round has exactly one imposter: its imposter id names exactly one player.
pub proof fn law_exactly_one_imposter(room: RoomModel)
    requires
        room_inv(room),
        room.round is Some,
    ensures
        exists|i: int|
            0 <= i < room.players.len() && (#[trigger] room.players[i]).id
                == room.round->0.imposter_player_id,
        forall|i: int, j: int|
            0 <= i < room.players.len() && 0 <= j < room.players.len() && (#[trigger] room.players[i]).id
                == room.round->0.imposter_player_id && (#[trigger] room.players[j]).id
                == room.round->0.imposter_player_id ==> i == j,
{
    assert forall|i: int, j: int|
        0 <= i < room.players.len() && 0 <= j < room.players.len() && (#[trigger] room.players[i]).id
            == room.round->0.imposter_player_id && (#[trigger] room.players[j]).id
            == room.round->0.imposter_player_id implies i == j by {
        law_player_ids_distinct(room, i, j);
    }
}

} // verus!
