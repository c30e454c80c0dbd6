//! Properties of the game rules that span commands.

use vstd::prelude::*;

use crate::commands::EventModel;
use crate::invariants::{
    law_step_preserves_invariant, core_inv, law_step_preserves_core_invariant, connected_count, law_player_ids_distinct, lemma_connected_count_update, lemma_connected_indices_bounds,
    lemma_players_after_leave, lemma_search_connected, room_inv,
};
use crate::model::{GamePhase, GameRole, RoomModel, Winner};
use crate::role::role_rule;
use crate::rules::{
    connected_indices, first_index, first_index_from, guess_rule, has_id, join_rule, leave_rule,
    lemma_first_index_from, most_suspected, next_connected, next_turn_rule, players_after_leave,
    reveal_rule, round_draw, round_rule, same_nickname, submitted_by, MAX_ROOM_PLAYERS,
};
use crate::topics::CatalogModel;
use crate::commands::CommandModel;
use crate::rules::{draw_sizes, step};
use crate::store::{chat_append, token_insert, token_lookup, token_remove, TokenModel, has_hash, MAX_CHAT_HISTORY};
use crate::text::eq_ignore_ascii_case;
use crate::types::ChatModel;
use crate::platform::sha256_hex;
use crate::service::{admin_rule, created, listing_order, resolve_rule};
use crate::model::{PlayerModel, RoomView, RoomViewModel};
use crate::errors::ServiceError;
use crate::rules::{player_id_for, valid_nickname};
use crate::store::{has_code, room_index, EntryModel};
use crate::errors::ServiceErrorModel;

verus! {

/// Equality up to ASCII case is symmetric.
pub proof fn lemma_eq_ignore_ascii_case_symmetric(a: Seq<char>, b: Seq<char>)
    requires
        eq_ignore_ascii_case(a, b),
    ensures
        eq_ignore_ascii_case(b, a),
{
    assert forall|i: int| 0 <= i < b.len() implies #[trigger] crate::text::ascii_lower_code(b[i])
        == crate::text::ascii_lower_code(a[i]) by {
        assert(crate::text::ascii_lower_code(a[i]) == crate::text::ascii_lower_code(b[i]));
    }
}

/// Two sequences on which a predicate agrees position by position have the
/// same first match.
pub proof fn lemma_first_index_agree<T, U>(
    s: Seq<T>,
    t: Seq<U>,
    p: spec_fn(T) -> bool,
    q: spec_fn(U) -> bool,
    i: int,
)
    requires
        s.len() == t.len(),
        0 <= i,
        forall|k: int| 0 <= k < s.len() ==> p(#[trigger] s[k]) == q(t[k]),
    ensures
        first_index_from(s, p, i) == first_index_from(t, q, i),
    decreases s.len() - i,
{
    if i < s.len() {
        lemma_first_index_agree(s, t, p, q, i + 1);
    }
}

/// Leaving is idempotent: once a player has left, leaving again changes
/// nothing and emits no event.
pub proof fn law_leave_twice_is_noop(room: RoomModel, player_id: Seq<char>)
    requires
        room_inv(room),
        leave_rule(room, player_id) is Ok,
    ensures
        leave_rule(leave_rule(room, player_id)->Ok_0.0, player_id) == Ok::<_, crate::errors::DomainError>(
            (leave_rule(room, player_id)->Ok_0.0, Seq::<EventModel>::empty()),
        ),
{
    let ps = room.players;
    let after_room = leave_rule(room, player_id)->Ok_0.0;
    lemma_first_index_from(ps, has_id(player_id), 0);
    let idx = first_index(ps, has_id(player_id))->0;
    if ps[idx].connected {
        lemma_players_after_leave(ps, idx);
        let after = players_after_leave(ps, idx);
        assert(after_room.players == after);
        lemma_first_index_agree(ps, after, has_id(player_id), has_id(player_id), 0);
        assert(!after[idx].connected);
    }
}

/// A player who leaves the lobby can come back under the same nickname and
/// gets the same player id back.
pub proof fn law_rejoin_restores_identity(room: RoomModel, i: int)
    requires
        room_inv(room),
        room.phase == GamePhase::Lobby,
        0 <= i < room.players.len(),
        room.players[i].connected,
    ensures
        ({
            let left = leave_rule(room, room.players[i].id)->Ok_0.0;
            let back = join_rule(left, room.players[i].nickname);
            &&& back is Ok
            &&& back->Ok_0.1 == seq![EventModel::PlayerReconnected { player_id: room.players[i].id }]
            &&& back->Ok_0.0.players[i].connected
            &&& back->Ok_0.0.players.len() == room.players.len()
        }),
{
    let ps = room.players;
    let id = ps[i].id;
    let nick = ps[i].nickname;
    lemma_first_index_from(ps, has_id(id), 0);
    let idx = first_index(ps, has_id(id))->0;
    law_player_ids_distinct(room, idx, i);
    lemma_players_after_leave(ps, i);
    let after = players_after_leave(ps, i);
    let left = leave_rule(room, id)->Ok_0.0;
    assert(left.players == after);
    assert(left.phase == GamePhase::Lobby);
    // the connected count went down by one, so the room is not full
    let p1 = ps.update(i, crate::model::PlayerModel { connected: false, is_admin: false, ..ps[i] });
    lemma_connected_count_update(ps, i, crate::model::PlayerModel { connected: false, is_admin: false, ..ps[i] });
    if ps[i].is_admin {
        lemma_first_index_from(p1, crate::rules::is_connected(), 0);
        match first_index(p1, crate::rules::is_connected()) {
            Some(a) => {
                lemma_connected_count_update(p1, a, crate::model::PlayerModel { is_admin: true, ..p1[a] });
            },
            None => {},
        }
    }
    assert(connected_count(after) < MAX_ROOM_PLAYERS);
    // only player i shares the nickname, and it is now disconnected
    assert forall|k: int| 0 <= k < after.len() && k != i implies !eq_ignore_ascii_case(
        (#[trigger] after[k]).nickname,
        nick,
    ) by {
        assert(after[k].nickname == ps[k].nickname);
        if eq_ignore_ascii_case(ps[k].nickname, nick) {
            if k < i {
            } else {
                lemma_eq_ignore_ascii_case_symmetric(ps[k].nickname, nick);
            }
        }
    }
    assert(eq_ignore_ascii_case(after[i].nickname, nick));
    assert(!after[i].connected);
    lemma_first_index_from(after, same_nickname(nick, true), 0);
    lemma_first_index_from(after, same_nickname(nick, false), 0);
    assert(same_nickname(nick, false)(after[i]));
    let j = first_index(after, same_nickname(nick, false))->0;
    assert(j == i);
}

/// When every player is connected, the turn passes to the next seat,
/// wrapping round after the last.
pub proof fn law_next_turn_cycles(room: RoomModel)
    requires
        room_inv(room),
        room.phase == GamePhase::InProgress,
        room.players.len() <= usize::MAX,
        forall|k: int| 0 <= k < room.players.len() ==> (#[trigger] room.players[k]).connected,
    ensures
        next_turn_rule(room) is Ok,
        next_turn_rule(room)->Ok_0.0.round->0.current_turn_index as int == (
        room.round->0.current_turn_index + 1) % (room.players.len() as int),
{
    let n = room.players.len() as int;
    let cur = room.round->0.current_turn_index as int;
    assert(0 <= (cur + 1) % n < n) by (nonlinear_arith)
        requires
            n > 0,
            cur >= 0,
    ;
    assert(room.players[(cur + 1) % n].connected);
}

/// The turn always passes to a connected player.
pub proof fn law_next_turn_lands_on_connected(room: RoomModel)
    requires
        room_inv(room),
        room.players.len() <= usize::MAX,
        next_turn_rule(room) is Ok,
    ensures
        ({
            let r = next_turn_rule(room)->Ok_0.0;
            r.players[r.round->0.current_turn_index as int].connected
        }),
{
    lemma_search_connected(room.players, room.round->0.current_turn_index as int, 1);
}

/// The imposter's role card never shows the topic; every other member's
/// card does.
pub proof fn law_only_crew_sees_topic(room: RoomModel, player_id: Seq<char>)
    requires
        role_rule(room, player_id) is Ok,
    ensures
        role_rule(room, player_id)->Ok_0.game_role == GameRole::Imposter <==> role_rule(
            room,
            player_id,
        )->Ok_0.topic_id is None,
        role_rule(room, player_id)->Ok_0.game_role == GameRole::Imposter <==> room.round->0.imposter_player_id
            == player_id,
{
}

/// A session token resolves to the player it was last recorded for.
pub proof fn law_token_lookup_after_insert(t: TokenModel, h: Seq<char>, player_id: Seq<char>)
    ensures
        token_lookup(token_insert(t, h, player_id), h) == Some(player_id),
{
    lemma_first_index_from(t, has_hash(h), 0);
    match first_index(t, has_hash(h)) {
        Some(i) => {
            let u = t.update(i, (h, player_id));
            lemma_first_index_agree(t, u, has_hash(h), has_hash(h), 0);
        },
        None => {
            let u = t.push((h, player_id));
            lemma_first_index_from(u, has_hash(h), 0);
            assert(has_hash(h)(u[t.len() as int]));
        },
    }
}

/// Recording a token leaves every other token as it was.
pub proof fn law_token_insert_keeps_others(t: TokenModel, h: Seq<char>, player_id: Seq<char>, other: Seq<char>)
    requires
        other != h,
    ensures
        token_lookup(token_insert(t, h, player_id), other) == token_lookup(t, other),
{
    lemma_first_index_from(t, has_hash(h), 0);
    match first_index(t, has_hash(h)) {
        Some(i) => {
            let u = t.update(i, (h, player_id));
            lemma_first_index_agree(t, u, has_hash(other), has_hash(other), 0);
            lemma_first_index_from(t, has_hash(other), 0);
        },
        None => {
            let u = t.push((h, player_id));
            lemma_first_index_from(t, has_hash(other), 0);
            lemma_first_index_from(u, has_hash(other), 0);
            match first_index(t, has_hash(other)) {
                Some(k) => {
                    assert(u[k] == t[k]);
                },
                None => {},
            }
        },
    }
}

/// A token that was forgotten no longer resolves.
pub proof fn law_token_lookup_after_remove(t: TokenModel, h: Seq<char>)
    ensures
        token_lookup(token_remove(t, h), h) is None,
    decreases t.len(),
{
    lemma_token_remove_has_no(t, h);
    lemma_first_index_from(token_remove(t, h), has_hash(h), 0);
}

proof fn lemma_token_remove_has_no(t: TokenModel, h: Seq<char>)
    ensures
        forall|k: int| 0 <= k < token_remove(t, h).len() ==> (#[trigger] token_remove(t, h)[k]).0 != h,
    decreases t.len(),
{
    if t.len() > 0 {
        lemma_token_remove_has_no(t.drop_last(), h);
        let rest = token_remove(t.drop_last(), h);
        if t.last().0 != h {
            assert forall|k: int| 0 <= k < rest.push(t.last()).len() implies (#[trigger] rest.push(t.last())[k]).0 != h by {
                if k < rest.len() {
                    assert(rest.push(t.last())[k] == rest[k]);
                }
            }
        }
    }
}

/// The chat history never holds more than `MAX_CHAT_HISTORY` messages, and
/// the newest message is always kept last.
pub proof fn law_chat_history_bounded(chat: Seq<ChatModel>, m: ChatModel)
    requires
        chat.len() <= MAX_CHAT_HISTORY,
    ensures
        chat_append(chat, m).len() <= MAX_CHAT_HISTORY,
        chat_append(chat, m).last() == m,
{
}

/// Changing a room other than by its code keeps every room where it was.
pub proof fn lemma_room_index_update(rooms: Seq<EntryModel>, i: int, e: EntryModel, code: Seq<char>)
    requires
        0 <= i < rooms.len(),
        e.code == rooms[i].code,
    ensures
        room_index(rooms.update(i, e), code) == room_index(rooms, code),
{
    lemma_first_index_agree(rooms, rooms.update(i, e), has_code(code), has_code(code), 0);
}

/// The token handed out on joining a room resolves to the joined player.
pub proof fn law_join_token_resolves(
    rooms: Seq<EntryModel>,
    code: Seq<char>,
    i: int,
    e: EntryModel,
    token: Seq<char>,
    player_id: Seq<char>,
)
    requires
        room_index(rooms, code) == Some(i),
        e.code == rooms[i].code,
        e.tokens == token_insert(rooms[i].tokens, sha256_hex(token), player_id),
    ensures
        resolve_rule(rooms.update(i, e), code, token) == Ok::<_, ServiceErrorModel>((i, player_id)),
{
    lemma_first_index_from(rooms, has_code(code), 0);
    lemma_room_index_update(rooms, i, e, code);
    law_token_lookup_after_insert(rooms[i].tokens, sha256_hex(token), player_id);
}

/// Once a player has left, their session token is no longer accepted.
pub proof fn law_left_token_rejected(rooms: Seq<EntryModel>, code: Seq<char>, i: int, e: EntryModel, token: Seq<char>)
    requires
        room_index(rooms, code) == Some(i),
        e.code == rooms[i].code,
        e.tokens == token_remove(rooms[i].tokens, sha256_hex(token)),
    ensures
        resolve_rule(rooms.update(i, e), code, token) == Err::<(int, Seq<char>), _>(ServiceErrorModel::InvalidSession),
{
    lemma_first_index_from(rooms, has_code(code), 0);
    lemma_room_index_update(rooms, i, e, code);
    law_token_lookup_after_remove(rooms[i].tokens, sha256_hex(token));
}

/// Submitting a suspicion keeps the round running: the phase, the result,
/// the players and the round's number, turn, imposter and topic stay as
/// they were, and the board holds the submitter's latest guess.
pub proof fn law_guess_keeps_round_running(room: RoomModel, player_id: Seq<char>, guessed: Seq<char>)
    requires
        guess_rule(room, player_id, guessed) is Ok,
    ensures
        ({
            let after = guess_rule(room, player_id, guessed)->Ok_0.0;
            let rd = room.round->0;
            let nd = after.round->0;
            &&& after.phase == GamePhase::InProgress
            &&& after.result == room.result
            &&& after.players == room.players
            &&& after.round is Some
            &&& nd.round_number == rd.round_number
            &&& nd.current_turn_index == rd.current_turn_index
            &&& nd.imposter_player_id == rd.imposter_player_id
            &&& nd.topic_id == rd.topic_id
            &&& first_index(nd.suspicions, submitted_by(player_id)) matches Some(k)
                && nd.suspicions[k].guessed_player_id == guessed
        }),
{
    let s = room.round->0.suspicions;
    let sb = submitted_by(player_id);
    let u = (guess_rule(room, player_id, guessed)->Ok_0.0).round->0.suspicions;
    lemma_first_index_from(s, sb, 0);
    match first_index(s, sb) {
        Some(i) => {
            assert forall|k: int| 0 <= k < s.len() implies sb(#[trigger] s[k]) == sb(u[k]) by {}
            lemma_first_index_agree(s, u, sb, sb, 0);
        },
        None => {
            lemma_first_index_from(u, sb, 0);
            assert(sb(u[s.len() as int]));
            if let Some(k) = first_index(u, sb) {
                if k < s.len() {
                    assert(u[k] == s[k]);
                }
            }
        },
    }
}

/// Revealing ends the round: the result names the imposter and the most
/// suspected player, and the crew wins exactly when those are the same.
pub proof fn law_reveal_decides_winner(room: RoomModel)
    requires
        reveal_rule(room) is Ok,
    ensures
        ({
            let after = reveal_rule(room)->Ok_0.0;
            let rd = room.round->0;
            let res = after.result->0;
            &&& after.phase == GamePhase::Completed
            &&& after.result is Some
            &&& after.round == room.round
            &&& res.imposter_player_id == rd.imposter_player_id
            &&& res.guessed_player_id == most_suspected(rd.suspicions)
            &&& (res.winner == Winner::Crew <==> most_suspected(rd.suspicions) == Some(rd.imposter_player_id))
        }),
{
}

/// Positions before the first connected player hold disconnected players;
/// with no connected position, no player is connected.
proof fn lemma_connected_indices_first(players: Seq<crate::model::PlayerModel>)
    ensures
        connected_indices(players).len() > 0 ==> forall|k: int|
            0 <= k < connected_indices(players)[0] ==> !(#[trigger] players[k]).connected,
        connected_indices(players).len() == 0 ==> forall|k: int|
            0 <= k < players.len() ==> !(#[trigger] players[k]).connected,
    decreases players.len(),
{
    if players.len() > 0 {
        let front = players.drop_last();
        lemma_connected_indices_first(front);
        lemma_connected_indices_bounds(front);
        assert forall|k: int| 0 <= k < front.len() implies #[trigger] players[k] == front[k] by {}
    }
}

/// A round start (first round or restart): the round gets the next number,
/// 1 for the first; the imposter is a connected player; the first turn is
/// the first connected player's; no suspicion or result stands yet.
pub proof fn law_round_start(room: RoomModel, cat: CatalogModel, pi: int, pt: int)
    requires
        room.players.len() <= usize::MAX,
        round_draw(room, cat) matches Some((n, m)) && 0 <= pi < n && 0 <= pt < m,
        room.round is Some ==> room.round->0.round_number < u32::MAX,
    ensures
        round_rule(room, cat, pi, pt) is Ok,
        ({
            let (after, number) = round_rule(room, cat, pi, pt)->Ok_0;
            let nd = after.round->0;
            &&& after.phase == GamePhase::InProgress
            &&& after.result is None
            &&& after.players == room.players
            &&& after.round is Some
            &&& nd.round_number == number
            &&& number == match room.round {
                Some(rd) => rd.round_number + 1,
                None => 1,
            }
            &&& nd.suspicions.len() == 0
            &&& exists|k: int|
                0 <= k < room.players.len() && (#[trigger] room.players[k]).connected
                    && room.players[k].id == nd.imposter_player_id
            &&& 0 <= nd.current_turn_index < room.players.len()
            &&& room.players[nd.current_turn_index as int].connected
            &&& forall|k: int| 0 <= k < nd.current_turn_index ==> !(#[trigger] room.players[k]).connected
        }),
{
    let c = connected_indices(room.players);
    lemma_connected_indices_bounds(room.players);
    lemma_connected_indices_first(room.players);
    let after = round_rule(room, cat, pi, pt)->Ok_0.0;
    let nd = after.round->0;
    assert(room.players[c[pi]].connected);
    assert(room.players[c[pi]].id == nd.imposter_player_id);
    assert(nd.current_turn_index as int == c[0]);
}

/// While a round runs, the player holding the turn is connected, and so is
/// the imposter.
pub proof fn law_turn_holder_connected(room: RoomModel)
    requires
        room_inv(room),
        room.phase == GamePhase::InProgress,
    ensures
        room.round is Some,
        room.players[room.round->0.current_turn_index as int].connected,
        exists|i: int|
            0 <= i < room.players.len() && (#[trigger] room.players[i]).connected && room.players[i].id
                == room.round->0.imposter_player_id,
{
}

/// The suspicion board holds at most one suspicion of each player.
pub proof fn law_suspicion_authors_distinct(room: RoomModel)
    requires
        room_inv(room),
        room.round is Some,
    ensures
        forall|a: int, b: int|
            0 <= a < b < room.round->0.suspicions.len() ==> (#[trigger] room.round->0.suspicions[a]).player_id
                != (#[trigger] room.round->0.suspicions[b]).player_id,
{
}

/// No command changes a room's code or removes, reorders or renames a
/// player: every player keeps their seat, id and nickname, and new players
/// only join at the end.
pub proof fn law_players_kept(room: RoomModel, cmd: CommandModel, cat: CatalogModel, pi: int, pt: int)
    requires
        core_inv(room),
        crate::rules::within_limits(Some(room), cmd),
        draw_sizes(Some(room), cmd, cat) matches Some((n, m)) ==> 0 <= pi < n && 0 <= pt < m,
        step(Some(room), cmd, cat, pi, pt) is Ok,
    ensures
        ({
            let after = step(Some(room), cmd, cat, pi, pt)->Ok_0.0;
            &&& after.code == room.code
            &&& after.players.len() >= room.players.len()
            &&& forall|k: int|
                0 <= k < room.players.len() ==> (#[trigger] after.players[k]).id == room.players[k].id
                    && after.players[k].nickname == room.players[k].nickname
        }),
{
    law_step_preserves_core_invariant(Some(room), cmd, cat, pi, pt);
}

/// Whether the picks `pi` and `pt` are in range for what `cmd` draws.
pub open spec fn picks_in_range(state: Option<RoomModel>, cmd: CommandModel, cat: CatalogModel, pi: int, pt: int) -> bool {
    match draw_sizes(state, cmd, cat) {
        Some((n, m)) => 0 <= pi < n && 0 <= pt < m,
        None => true,
    }
}

/// The room a sequence of commands builds from nothing, each command with
/// its imposter and topic picks, when every command succeeds within the
/// machine limits and with its picks in range; `None` otherwise.
pub open spec fn built(cmds: Seq<(CommandModel, int, int)>, cat: CatalogModel) -> Option<RoomModel>
    decreases cmds.len(),
{
    if cmds.len() == 0 {
        None
    } else {
        let prev = if cmds.len() == 1 {
            None
        } else {
            built(cmds.drop_last(), cat)
        };
        let cmd = cmds.last().0;
        let pi = cmds.last().1;
        let pt = cmds.last().2;
        if cmds.len() > 1 && prev is None {
            None
        } else if !crate::rules::within_limits(prev, cmd) || !picks_in_range(prev, cmd, cat, pi, pt) {
            None
        } else {
            match step(prev, cmd, cat, pi, pt) {
                Ok((room, _)) => Some(room),
                Err(_) => None,
            }
        }
    }
}

/// Every room that a chain of successful commands builds from nothing keeps
/// the room invariant: the turn of its round is on a seat (so its snapshot
/// is defined) and, while a round runs, the turn holder is connected.
pub proof fn law_built_rooms_keep_invariant(cmds: Seq<(CommandModel, int, int)>, cat: CatalogModel)
    requires
        built(cmds, cat) is Some,
    ensures
        room_inv(built(cmds, cat)->0),
        built(cmds, cat)->0.wf(),
        built(cmds, cat)->0.phase == GamePhase::InProgress ==> (built(cmds, cat)->0.round matches Some(rd)
            && built(cmds, cat)->0.players[rd.current_turn_index as int].connected),
    decreases cmds.len(),
{
    let prev = if cmds.len() == 1 {
        None
    } else {
        built(cmds.drop_last(), cat)
    };
    if cmds.len() > 1 {
        law_built_rooms_keep_invariant(cmds.drop_last(), cat);
    }
    law_step_preserves_invariant(prev, cmds.last().0, cat, cmds.last().1, cmds.last().2);
}

/// Creating a room with a free code and a valid nickname succeeds: the
/// creator is the connected admin `p1` of a lobby with no category, the
/// returned token passes the room's admin check, and the room is listed
/// exactly when it is public. Creating a room with the same code again is
/// refused with `RoomAlreadyExists` and leaves the rooms as they were.
pub proof fn law_create_room(
    before: Seq<EntryModel>,
    after: Seq<EntryModel>,
    code: Seq<char>,
    nickname: Seq<char>,
    is_public: bool,
    r: Result<(RoomView, String), ServiceError>,
    again: Seq<EntryModel>,
    nickname2: Seq<char>,
    is_public2: bool,
    r2: Result<(RoomView, String), ServiceError>,
)
    requires
        room_index(before, code) is None,
        valid_nickname(nickname),
        created(before, after, code, nickname, is_public, r),
        valid_nickname(nickname2),
        created(after, again, code, nickname2, is_public2, r2),
    ensures
        r matches Ok((v, token)) && v@ == (RoomViewModel {
            code,
            category: None,
            phase: GamePhase::Lobby,
            players: seq![PlayerModel { id: player_id_for(1), nickname, is_admin: true, connected: true }],
        }) && admin_rule(after, code, token@) == Ok::<(int, Seq<char>), ServiceErrorModel>(
            (before.len() as int, player_id_for(1)),
        ),
        forall|order: Seq<int>|
            listing_order(after, order) ==> (order.contains(before.len() as int) <==> is_public),
        r2 matches Err(e) && e@ == ServiceErrorModel::RoomAlreadyExists && again == after,
{
    lemma_first_index_from(before, has_code(code), 0);
    let n = before.len() as int;
    assert forall|k: int| 0 <= k < n implies #[trigger] after[k] == before[k] by {
        assert(after.take(n)[k] == after[k]);
    }
    lemma_first_index_from(after, has_code(code), 0);
    assert(room_index(after, code) == Some(n));
    let token = r->Ok_0.1;
    let t: TokenModel = seq![(sha256_hex(token@), player_id_for(1))];
    lemma_first_index_from(t, has_hash(sha256_hex(token@)), 0);
    assert(token_lookup(after[n].tokens, sha256_hex(token@)) == Some(player_id_for(1)));
    assert(after[n].state.players[0].id == player_id_for(1));
    assert(after[n].state.is_admin(player_id_for(1)));
    assert forall|order: Seq<int>| listing_order(after, order) implies (order.contains(n) <==> is_public) by {
        if order.contains(n) {
            let k = choose|k: int| 0 <= k < order.len() && order[k] == n;
            assert(after[order[k]].is_public);
        }
    }
}

} // verus!
