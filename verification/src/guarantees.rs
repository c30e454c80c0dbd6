//! What the game's operations give, stated directly over the inputs: vote
//! counts, nickname lengths, connected players, the suspicion board and the
//! snapshot of a room.

use vstd::prelude::*;

use crate::model::{GamePhase, PlayerModel, RoomModel, SuspicionModel, Winner};
use crate::rules::{
    count_guesses, is_most_suspected, lemma_first_index_from, most_suspected,
    ranks_above, reveal_rule, submitted_by,
};
use crate::text::{lemma_seq_lt_total, seq_lt};
use crate::transitions::lemma_ranks_above_transitive;

verus! {

/// Holds of a suspicion that names `g`.
pub open spec fn names(g: Seq<char>) -> spec_fn(SuspicionModel) -> bool {
    |x: SuspicionModel| x.guessed_player_id == g
}

/// The number of suspicions on `board` that name `g`.
pub open spec fn votes(board: Seq<SuspicionModel>, g: Seq<char>) -> nat {
    board.filter(names(g)).len()
}

/// The votes for `g` are what the board's tally counts.
proof fn lemma_votes(board: Seq<SuspicionModel>, g: Seq<char>)
    ensures
        votes(board, g) == count_guesses(board, g),
    decreases board.len(),
{
    reveal(Seq::filter);
    if board.len() > 0 {
        lemma_votes(board.drop_last(), g);
    }
}

/// Among the names on the first `k` suspicions, one ranks above all the
/// others.
proof fn lemma_best_in_prefix(s: Seq<SuspicionModel>, k: int) -> (g: Seq<char>)
    requires
        1 <= k <= s.len(),
    ensures
        exists|i: int| 0 <= i < k && (#[trigger] s[i]).guessed_player_id == g,
        forall|i: int|
            0 <= i < k ==> (#[trigger] s[i]).guessed_player_id == g || ranks_above(s, g, s[i].guessed_player_id),
    decreases k,
{
    if k == 1 {
        s[0].guessed_player_id
    } else {
        let b = lemma_best_in_prefix(s, k - 1);
        let h = s[k - 1].guessed_player_id;
        if h == b || ranks_above(s, b, h) {
            b
        } else {
            lemma_seq_lt_total(b, h);
            assert(ranks_above(s, h, b));
            assert forall|i: int|
                0 <= i < k implies (#[trigger] s[i]).guessed_player_id == h || ranks_above(
                s,
                h,
                s[i].guessed_player_id,
            ) by {
                if i < k - 1 && s[i].guessed_player_id != h && s[i].guessed_player_id != b {
                    lemma_ranks_above_transitive(s, h, b, s[i].guessed_player_id);
                }
            }
            h
        }
    }
}

/// A non-empty board has a most suspected name.
proof fn lemma_most_suspected_exists(s: Seq<SuspicionModel>)
    requires
        s.len() > 0,
    ensures
        is_most_suspected(s, most_suspected(s)->0),
{
    let g = lemma_best_in_prefix(s, s.len() as int);
    assert(is_most_suspected(s, g));
}

/// Revealing names the player with the most votes on the suspicion board,
/// the smaller id among names with as many votes, and nobody when nobody
/// was suspected; the crew wins exactly when that player is the imposter.
pub proof fn law_reveal_names_most_voted(room: RoomModel)
    requires
        reveal_rule(room) is Ok,
    ensures
        ({
            let board = room.round->0.suspicions;
            let res = reveal_rule(room)->Ok_0.0.result->0;
            &&& board.len() == 0 ==> res.guessed_player_id is None
            &&& board.len() > 0 ==> (res.guessed_player_id matches Some(g) && (exists|i: int|
                0 <= i < board.len() && (#[trigger] board[i]).guessed_player_id == g) && (forall|i: int|
                0 <= i < board.len() ==> votes(board, g) >= votes(board, (#[trigger] board[i]).guessed_player_id)
                    && (votes(board, g) == votes(board, board[i].guessed_player_id) && board[i].guessed_player_id
                    != g ==> seq_lt(g, board[i].guessed_player_id))))
            &&& (res.winner == Winner::Crew <==> res.guessed_player_id == Some(room.round->0.imposter_player_id))
        }),
{
    let board = room.round->0.suspicions;
    if board.len() > 0 {
        lemma_most_suspected_exists(board);
        let g = most_suspected(board)->0;
        assert forall|i: int| 0 <= i < board.len() implies votes(board, g) >= votes(
            board,
            (#[trigger] board[i]).guessed_player_id,
        ) && (votes(board, g) == votes(board, board[i].guessed_player_id) && board[i].guessed_player_id != g
            ==> seq_lt(g, board[i].guessed_player_id)) by {
            lemma_votes(board, g);
            lemma_votes(board, board[i].guessed_player_id);
        }
    }
}

/// `x` and `y` are the same character up to ASCII case: equal, or the
/// upper- and lower-case forms of one ASCII letter.
pub open spec fn same_letter(x: char, y: char) -> bool {
    let (cx, cy) = (x as u32, y as u32);
    ||| cx == cy
    ||| (65 <= cx <= 90 && cy == cx + 32)
    ||| (65 <= cy <= 90 && cx == cy + 32)
}

/// Two nicknames are the same nickname exactly when they have the same
/// length and agree character by character up to ASCII case; nicknames of
/// different lengths are never the same.
pub proof fn law_same_nickname_letter_by_letter(a: Seq<char>, b: Seq<char>)
    ensures
        crate::text::eq_ignore_ascii_case(a, b) <==> (a.len() == b.len() && forall|i: int|
            0 <= i < a.len() ==> same_letter(#[trigger] a[i], b[i])),
        a.len() != b.len() ==> !crate::text::eq_ignore_ascii_case(a, b),
{
    if crate::text::eq_ignore_ascii_case(a, b) {
        assert forall|i: int| 0 <= i < a.len() implies same_letter(#[trigger] a[i], b[i]) by {
            assert(crate::text::ascii_lower_code(a[i]) == crate::text::ascii_lower_code(b[i]));
        }
    }
    if a.len() == b.len() && forall|i: int| 0 <= i < a.len() ==> same_letter(#[trigger] a[i], b[i]) {
        assert forall|i: int| 0 <= i < a.len() implies #[trigger] crate::text::ascii_lower_code(a[i])
            == crate::text::ascii_lower_code(b[i]) by {
            assert(same_letter(a[i], b[i]));
        }
    }
}

/// Joining a lobby that is not full with a valid nickname whose length
/// differs from every player's nickname adds a new player at the end, with
/// the next id, connected and not admin.
pub proof fn law_join_with_new_length_adds_player(room: RoomModel, nickname: Seq<char>)
    requires
        room.phase == GamePhase::Lobby,
        crate::rules::valid_nickname(nickname),
        crate::invariants::connected_count(room.players) < crate::rules::MAX_ROOM_PLAYERS,
        forall|k: int| 0 <= k < room.players.len() ==> (#[trigger] room.players[k]).nickname.len() != nickname.len(),
    ensures
        ({
            let id = crate::rules::player_id_for(room.players.len() + 1);
            crate::rules::join_rule(room, nickname) == Ok::<_, crate::errors::DomainError>(
                (
                    RoomModel {
                        players: room.players.push(
                            PlayerModel { id, nickname, is_admin: false, connected: true },
                        ),
                        ..room
                    },
                    seq![crate::commands::EventModel::PlayerJoined { player_id: id }],
                ),
            )
        }),
{
    let ps = room.players;
    lemma_first_index_from(ps, crate::rules::same_nickname(nickname, true), 0);
    lemma_first_index_from(ps, crate::rules::same_nickname(nickname, false), 0);
}

/// The number of connected players.
pub open spec fn connected_players(players: Seq<PlayerModel>) -> nat {
    players.filter(|p: PlayerModel| p.connected).len()
}

/// The connected count the rules use is the number of connected players.
proof fn lemma_connected_players(players: Seq<PlayerModel>)
    ensures
        crate::invariants::connected_count(players) == connected_players(players),
    decreases players.len(),
{
    reveal(Seq::filter);
    if players.len() > 0 {
        lemma_connected_players(players.drop_last());
    }
}

/// A room's listing entry counts its connected players and all its players,
/// and shows the room joinable exactly in the lobby while fewer than
/// `MAX_ROOM_PLAYERS` players are connected; a player who left is not
/// counted as connected.
pub proof fn law_summary_counts_connected(e: crate::store::EntryModel)
    ensures
        ({
            let v = crate::service::summary_of(e);
            let ps = e.state.players;
            &&& v.connected_players == connected_players(ps)
            &&& v.total_players == ps.len()
            &&& v.joinable <==> (e.state.phase == GamePhase::Lobby && connected_players(ps)
                < crate::rules::MAX_ROOM_PLAYERS)
            &&& (exists|k: int| 0 <= k < ps.len() && !(#[trigger] ps[k]).connected) ==> v.connected_players
                < v.total_players
        }),
{
    let ps = e.state.players;
    lemma_connected_players(ps);
    if exists|k: int| 0 <= k < ps.len() && !(#[trigger] ps[k]).connected {
        let k = choose|k: int| 0 <= k < ps.len() && !(#[trigger] ps[k]).connected;
        lemma_filter_short(ps, k);
    }
}

/// Leaving out a disconnected player, fewer players are connected than
/// there are players.
proof fn lemma_filter_short(ps: Seq<PlayerModel>, k: int)
    requires
        0 <= k < ps.len(),
        !ps[k].connected,
    ensures
        connected_players(ps) < ps.len(),
    decreases ps.len(),
{
    reveal(Seq::filter);
    let f = |p: PlayerModel| p.connected;
    ps.drop_last().lemma_filter_len(f);
    if k < ps.len() - 1 {
        assert(ps.drop_last()[k] == ps[k]);
        lemma_filter_short(ps.drop_last(), k);
    }
}

/// Submitting a suspicion keeps every suspicion of the other players on the
/// board; the board grows by one exactly when the submitter had none on it,
/// and then the new suspicion is last.
pub proof fn law_guess_keeps_other_suspicions(room: RoomModel, player_id: Seq<char>, guessed: Seq<char>)
    requires
        crate::rules::guess_rule(room, player_id, guessed) is Ok,
    ensures
        ({
            let before = room.round->0.suspicions;
            let after = crate::rules::guess_rule(room, player_id, guessed)->Ok_0.0.round->0.suspicions;
            &&& forall|i: int|
                0 <= i < before.len() && (#[trigger] before[i]).player_id != player_id ==> after.contains(before[i])
            &&& (forall|i: int| 0 <= i < before.len() ==> (#[trigger] before[i]).player_id != player_id) ==> (after.len()
                == before.len() + 1 && after.last() == SuspicionModel { player_id, guessed_player_id: guessed })
            &&& (exists|i: int| 0 <= i < before.len() && (#[trigger] before[i]).player_id == player_id) ==> after.len()
                == before.len()
        }),
{
    let before = room.round->0.suspicions;
    let after = crate::rules::guess_rule(room, player_id, guessed)->Ok_0.0.round->0.suspicions;
    let sb = submitted_by(player_id);
    lemma_first_index_from(before, sb, 0);
    assert forall|i: int| 0 <= i < before.len() && (#[trigger] before[i]).player_id != player_id implies after.contains(
        before[i],
    ) by {
        assert(after[i] == before[i]);
    }
    if exists|i: int| 0 <= i < before.len() && (#[trigger] before[i]).player_id == player_id {
        let i = choose|i: int| 0 <= i < before.len() && (#[trigger] before[i]).player_id == player_id;
        assert(sb(before[i]));
    }
}

/// A room's snapshot shows the room as it is: its code, category, phase and
/// players, the turn of its round (the round number, the turn index and the
/// id of the player on that seat), the suspicion board of its round, and its
/// result.
pub proof fn law_snapshot_shows_room(room: RoomModel)
    ensures
        ({
            let s = room.snapshot();
            &&& s.result == room.result
            &&& s.room.code == room.code && s.room.category == room.category && s.room.phase == room.phase
                && s.room.players == room.players
            &&& (room.round matches Some(rd) ==> (s.turn matches Some(t) && t.round == rd.round_number
                && t.current_turn_index == rd.current_turn_index && t.current_player_id
                == room.players[rd.current_turn_index as int].id && s.suspicions == rd.suspicions))
            &&& room.round is None ==> s.turn is None && s.suspicions.len() == 0
            &&& room.phase == GamePhase::Completed && room.result is Some ==> s.result is Some
        }),
{
}

} // verus!
