//! The rules of the game as mathematical functions: what each command does
//! to a room, over the models of `model.rs`.

use vstd::prelude::*;

use crate::commands::{CommandModel, EventModel};
use crate::errors::DomainError;
use crate::model::{GamePhase, PlayerModel, ResultModel, RoomModel, RoundModel, SuspicionModel, Winner};
use crate::text::{decimal, eq_ignore_ascii_case, seq_lt, trim};
use crate::topics::{category_topics, has_category, CatalogModel};
use vstd::utf8::encode_utf8;

verus! {

/// Most connected players a room admits.
pub const MAX_ROOM_PLAYERS: usize = 10;

/// Fewest connected players a round needs.
pub const MIN_PLAYERS_TO_START: usize = 3;

/// Longest nickname, in UTF-8 bytes after trimming.
pub const MAX_NICKNAME_LEN: usize = 24;

/// The first position at or after `i` whose element satisfies `p`.
pub open spec fn first_index_from<T>(s: Seq<T>, p: spec_fn(T) -> bool, i: int) -> Option<int>
    decreases s.len() - i,
{
    if i < 0 || i >= s.len() {
        None
    } else if p(s[i]) {
        Some(i)
    } else {
        first_index_from(s, p, i + 1)
    }
}

/// Holds of the player with id `id`.
pub open spec fn has_id(id: Seq<char>) -> spec_fn(PlayerModel) -> bool {
    |p: PlayerModel| p.id == id
}

/// Holds of a connected player.
pub open spec fn is_connected() -> spec_fn(PlayerModel) -> bool {
    |p: PlayerModel| p.connected
}

/// Holds of a player whose nickname equals `nickname` up to ASCII case and
/// whose connection flag is `connected`.
pub open spec fn same_nickname(nickname: Seq<char>, connected: bool) -> spec_fn(PlayerModel) -> bool {
    |p: PlayerModel| eq_ignore_ascii_case(p.nickname, nickname) && p.connected == connected
}

/// Holds of the suspicion submitted by `player_id`.
pub open spec fn submitted_by(player_id: Seq<char>) -> spec_fn(SuspicionModel) -> bool {
    |x: SuspicionModel| x.player_id == player_id
}

/// What a found position is: the first at or after `i` that satisfies `p`.
pub proof fn lemma_first_index_from<T>(s: Seq<T>, p: spec_fn(T) -> bool, i: int)
    requires
        0 <= i,
    ensures
        match first_index_from(s, p, i) {
            Some(k) => i <= k < s.len() && p(s[k]) && forall|j: int| i <= j < k ==> !p(#[trigger] s[j]),
            None => forall|j: int| i <= j < s.len() ==> !p(#[trigger] s[j]),
        },
    decreases s.len() - i,
{
    if i < s.len() && !p(s[i]) {
        lemma_first_index_from(s, p, i + 1);
    }
}

/// The first position whose element satisfies `p`.
pub open spec fn first_index<T>(s: Seq<T>, p: spec_fn(T) -> bool) -> Option<int> {
    first_index_from(s, p, 0)
}

/// Positions of the connected players, in order.
pub open spec fn connected_indices(players: Seq<PlayerModel>) -> Seq<int>
    decreases players.len(),
{
    if players.len() == 0 {
        Seq::empty()
    } else {
        let rest = connected_indices(players.drop_last());
        if players.last().connected {
            rest.push(players.len() - 1)
        } else {
            rest
        }
    }
}

/// A nickname is valid when, trimmed, it is non-empty and at most
/// `MAX_NICKNAME_LEN` bytes long in UTF-8.
pub open spec fn valid_nickname(nickname: Seq<char>) -> bool {
    &&& trim(nickname).len() > 0
    &&& encode_utf8(trim(nickname)).len() <= MAX_NICKNAME_LEN
}

/// The id given to the `n`-th player to join a room: `p` and `n` in decimal.
pub open spec fn player_id_for(n: nat) -> Seq<char> {
    seq!['p'] + decimal(n)
}

/// Cyclic search for a connected player, `step` to `len` places after `cur`.
pub open spec fn search_connected(players: Seq<PlayerModel>, cur: int, step: int) -> Option<int>
    decreases players.len() + 1 - step,
{
    if step < 1 || step > players.len() {
        None
    } else {
        let idx = (cur + step) % (players.len() as int);
        if players[idx].connected {
            Some(idx)
        } else {
            search_connected(players, cur, step + 1)
        }
    }
}

/// The first connected player after position `cur`, going round the table.
pub open spec fn next_connected(players: Seq<PlayerModel>, cur: int) -> Option<int> {
    search_connected(players, cur, 1)
}

/// How many suspicions name `g`.
pub open spec fn count_guesses(s: Seq<SuspicionModel>, g: Seq<char>) -> nat
    decreases s.len(),
{
    if s.len() == 0 {
        0
    } else {
        count_guesses(s.drop_last(), g) + if s.last().guessed_player_id == g {
            1nat
        } else {
            0nat
        }
    }
}

/// `g` ranks above `h`: more votes, or as many votes and a smaller id.
pub open spec fn ranks_above(s: Seq<SuspicionModel>, g: Seq<char>, h: Seq<char>) -> bool {
    ||| count_guesses(s, g) > count_guesses(s, h)
    ||| (count_guesses(s, g) == count_guesses(s, h) && seq_lt(g, h))
}

/// `g` is named by some suspicion and ranks above every other name.
pub open spec fn is_most_suspected(s: Seq<SuspicionModel>, g: Seq<char>) -> bool {
    &&& exists|i: int| 0 <= i < s.len() && (#[trigger] s[i]).guessed_player_id == g
    &&& forall|i: int|
        0 <= i < s.len() ==> (#[trigger] s[i]).guessed_player_id == g || ranks_above(
            s,
            g,
            s[i].guessed_player_id,
        )
}

/// The most suspected player id, if anyone was suspected.
pub open spec fn most_suspected(s: Seq<SuspicionModel>) -> Option<Seq<char>> {
    if s.len() == 0 {
        None
    } else {
        Some(choose|g: Seq<char>| is_most_suspected(s, g))
    }
}

/// Starts the next round, with the `pi`-th connected player as imposter and
/// the `pt`-th topic of the category; gives the new room and round number.
pub open spec fn round_rule(room: RoomModel, cat: CatalogModel, pi: int, pt: int) -> Result<
    (RoomModel, u32),
    DomainError,
> {
    let connected = connected_indices(room.players);
    if connected.len() < MIN_PLAYERS_TO_START {
        Err(DomainError::InsufficientPlayers)
    } else if room.category is None {
        Err(DomainError::CategoryNotSet)
    } else if category_topics(cat, room.category->0) is None {
        Err(DomainError::InvalidCategory)
    } else {
        let topics = category_topics(cat, room.category->0)->0;
        let round_number: u32 = match room.round {
            Some(rd) => (rd.round_number + 1) as u32,
            None => 1,
        };
        Ok(
            (
                RoomModel {
                    phase: GamePhase::InProgress,
                    result: None,
                    round: Some(
                        RoundModel {
                            round_number,
                            current_turn_index: connected[0] as usize,
                            imposter_player_id: room.players[connected[pi]].id,
                            topic_id: topics[pt].id,
                            suspicions: Seq::empty(),
                        },
                    ),
                    ..room
                },
                round_number,
            ),
        )
    }
}

/// How many choices starting a round draws from the random source, when
/// it gets as far as drawing: the number of connected players and the
/// number of topics of the room's category.
pub open spec fn round_draw(room: RoomModel, cat: CatalogModel) -> Option<(nat, nat)> {
    let connected = connected_indices(room.players);
    if connected.len() >= MIN_PLAYERS_TO_START && room.category is Some && category_topics(
        cat,
        room.category->0,
    ) is Some {
        Some((connected.len(), category_topics(cat, room.category->0)->0.len()))
    } else {
        None
    }
}

/// How many choices a command draws from the random source, if it draws.
pub open spec fn draw_sizes(state: Option<RoomModel>, cmd: CommandModel, cat: CatalogModel) -> Option<
    (nat, nat),
> {
    match state {
        Some(room) => {
            let starts = match cmd {
                CommandModel::StartGame => room.phase == GamePhase::Lobby,
                CommandModel::RestartGame => room.phase == GamePhase::Completed,
                _ => false,
            };
            if starts {
                round_draw(room, cat)
            } else {
                None
            }
        },
        None => None,
    }
}

pub open spec fn create_rule(state: Option<RoomModel>, code: Seq<char>, nickname: Seq<char>) -> Result<
    (RoomModel, Seq<EventModel>),
    DomainError,
> {
    if state is Some {
        Err(DomainError::RoomAlreadyExists)
    } else if !valid_nickname(nickname) {
        Err(DomainError::InvalidNickname)
    } else {
        Ok(
            (
                RoomModel {
                    code,
                    phase: GamePhase::Lobby,
                    category: None,
                    players: seq![
                        PlayerModel {
                            id: player_id_for(1),
                            nickname,
                            is_admin: true,
                            connected: true,
                        },
                    ],
                    round: None,
                    result: None,
                },
                seq![EventModel::RoomCreated],
            ),
        )
    }
}

pub open spec fn join_rule(room: RoomModel, nickname: Seq<char>) -> Result<
    (RoomModel, Seq<EventModel>),
    DomainError,
> {
    let same_connected = same_nickname(nickname, true);
    let same_left = same_nickname(nickname, false);
    if room.phase != GamePhase::Lobby {
        Err(DomainError::NotInLobby)
    } else if !valid_nickname(nickname) {
        Err(DomainError::InvalidNickname)
    } else if connected_indices(room.players).len() >= MAX_ROOM_PLAYERS {
        Err(DomainError::RoomFull)
    } else if first_index(room.players, same_connected) is Some {
        Err(DomainError::NicknameTaken)
    } else if first_index(room.players, same_left) is Some {
        let i = first_index(room.players, same_left)->0;
        Ok(
            (
                RoomModel {
                    players: room.players.update(i, PlayerModel { connected: true, ..room.players[i] }),
                    ..room
                },
                seq![EventModel::PlayerReconnected { player_id: room.players[i].id }],
            ),
        )
    } else {
        let id = player_id_for(room.players.len() + 1);
        Ok(
            (
                RoomModel {
                    players: room.players.push(
                        PlayerModel { id, nickname, is_admin: false, connected: true },
                    ),
                    ..room
                },
                seq![EventModel::PlayerJoined { player_id: id }],
            ),
        )
    }
}

/// The players after `idx` leaves: it is disconnected and loses admin
/// rights, which pass to the first connected player if it held them.
pub open spec fn players_after_leave(players: Seq<PlayerModel>, idx: int) -> Seq<PlayerModel> {
    let p1 = players.update(idx, PlayerModel { connected: false, is_admin: false, ..players[idx] });
    if players[idx].is_admin {
        match first_index(p1, is_connected()) {
            Some(a) => p1.update(a, PlayerModel { is_admin: true, ..p1[a] }),
            None => p1,
        }
    } else {
        p1
    }
}

pub open spec fn leave_rule(room: RoomModel, player_id: Seq<char>) -> Result<
    (RoomModel, Seq<EventModel>),
    DomainError,
> {
    match first_index(room.players, has_id(player_id)) {
        None => Err(DomainError::PlayerNotFound),
        Some(idx) => if !room.players[idx].connected {
            Ok((room, Seq::empty()))
        } else {
            let players = players_after_leave(room.players, idx);
            let imposter_left = room.phase == GamePhase::InProgress && room.round is Some
                && room.round->0.imposter_player_id == room.players[idx].id;
            let phase = if imposter_left {
                GamePhase::Completed
            } else {
                room.phase
            };
            let result = if imposter_left {
                Some(
                    ResultModel {
                        winner: Winner::Crew,
                        guessed_player_id: Some(room.round->0.imposter_player_id),
                        imposter_player_id: room.round->0.imposter_player_id,
                    },
                )
            } else {
                room.result
            };
            let round = match room.round {
                Some(rd) => if phase == GamePhase::InProgress
                    && !players[rd.current_turn_index as int].connected
                    && next_connected(players, rd.current_turn_index as int) is Some {
                    Some(
                        RoundModel {
                            current_turn_index: next_connected(
                                players,
                                rd.current_turn_index as int,
                            )->0 as usize,
                            ..rd
                        },
                    )
                } else {
                    Some(rd)
                },
                None => None,
            };
            Ok(
                (
                    RoomModel { players, phase, result, round, ..room },
                    seq![EventModel::PlayerLeft { player_id }],
                ),
            )
        },
    }
}

pub open spec fn set_category_rule(room: RoomModel, cat: CatalogModel, category: Seq<char>) -> Result<
    (RoomModel, Seq<EventModel>),
    DomainError,
> {
    if room.phase != GamePhase::Lobby {
        Err(DomainError::NotInLobby)
    } else if !has_category(cat, category) {
        Err(DomainError::InvalidCategory)
    } else {
        Ok(
            (
                RoomModel { category: Some(category), ..room },
                seq![EventModel::CategorySet { category }],
            ),
        )
    }
}

pub open spec fn start_rule(room: RoomModel, cat: CatalogModel, pi: int, pt: int) -> Result<
    (RoomModel, Seq<EventModel>),
    DomainError,
> {
    if room.phase != GamePhase::Lobby {
        Err(DomainError::NotInLobby)
    } else {
        match round_rule(room, cat, pi, pt) {
            Ok((r, n)) => Ok((r, seq![EventModel::RoundStarted { round_number: n }])),
            Err(e) => Err(e),
        }
    }
}

pub open spec fn restart_rule(room: RoomModel, cat: CatalogModel, pi: int, pt: int) -> Result<
    (RoomModel, Seq<EventModel>),
    DomainError,
> {
    if room.phase != GamePhase::Completed {
        Err(DomainError::NotCompleted)
    } else {
        match round_rule(room, cat, pi, pt) {
            Ok((r, n)) => Ok((r, seq![EventModel::GameRestarted { round_number: n }])),
            Err(e) => Err(e),
        }
    }
}

pub open spec fn next_turn_rule(room: RoomModel) -> Result<(RoomModel, Seq<EventModel>), DomainError> {
    if room.phase != GamePhase::InProgress || room.round is None {
        Err(DomainError::NotInProgress)
    } else {
        let rd = room.round->0;
        match next_connected(room.players, rd.current_turn_index as int) {
            None => Err(DomainError::NotInProgress),
            Some(n) => Ok(
                (
                    RoomModel {
                        round: Some(RoundModel { current_turn_index: n as usize, ..rd }),
                        ..room
                    },
                    seq![EventModel::TurnAdvanced { current_turn_index: n as usize }],
                ),
            ),
        }
    }
}

/// The suspicion board after `player_id` names `guessed`: an earlier
/// suspicion of that player is replaced in place, else one is appended.
pub open spec fn record_suspicion(
    s: Seq<SuspicionModel>,
    player_id: Seq<char>,
    guessed: Seq<char>,
) -> Seq<SuspicionModel> {
    match first_index(s, submitted_by(player_id)) {
        Some(i) => s.update(i, SuspicionModel { guessed_player_id: guessed, ..s[i] }),
        None => s.push(SuspicionModel { player_id, guessed_player_id: guessed }),
    }
}

pub open spec fn guess_rule(room: RoomModel, player_id: Seq<char>, guessed: Seq<char>) -> Result<
    (RoomModel, Seq<EventModel>),
    DomainError,
> {
    if room.phase != GamePhase::InProgress {
        Err(DomainError::NotInProgress)
    } else if !room.is_member(player_id) || !room.is_member(guessed) {
        Err(DomainError::PlayerNotFound)
    } else if room.round is None {
        Err(DomainError::NotInProgress)
    } else {
        let rd = room.round->0;
        Ok(
            (
                RoomModel {
                    round: Some(
                        RoundModel {
                            suspicions: record_suspicion(rd.suspicions, player_id, guessed),
                            ..rd
                        },
                    ),
                    ..room
                },
                seq![EventModel::SuspicionSubmitted { player_id, guessed_player_id: guessed }],
            ),
        )
    }
}

pub open spec fn reveal_rule(room: RoomModel) -> Result<(RoomModel, Seq<EventModel>), DomainError> {
    if room.phase != GamePhase::InProgress || room.round is None {
        Err(DomainError::NotInProgress)
    } else {
        let rd = room.round->0;
        let guessed = most_suspected(rd.suspicions);
        let winner = if guessed == Some(rd.imposter_player_id) {
            Winner::Crew
        } else {
            Winner::Imposter
        };
        Ok(
            (
                RoomModel {
                    phase: GamePhase::Completed,
                    result: Some(
                        ResultModel {
                            winner,
                            guessed_player_id: guessed,
                            imposter_player_id: rd.imposter_player_id,
                        },
                    ),
                    ..room
                },
                seq![EventModel::GameRevealed { winner }],
            ),
        )
    }
}

pub open spec fn end_rule(room: RoomModel) -> Result<(RoomModel, Seq<EventModel>), DomainError> {
    if room.phase == GamePhase::Lobby {
        Err(DomainError::NotInProgress)
    } else {
        Ok(
            (
                RoomModel { phase: GamePhase::Lobby, round: None, result: None, ..room },
                seq![EventModel::GameEnded],
            ),
        )
    }
}

/// What a command does to a room: the new room and its events, or the error.
/// `pi` and `pt` are the random choices of a round start (see `draw_sizes`).
pub open spec fn step(
    state: Option<RoomModel>,
    cmd: CommandModel,
    cat: CatalogModel,
    pi: int,
    pt: int,
) -> Result<(RoomModel, Seq<EventModel>), DomainError> {
    match cmd {
        CommandModel::CreateRoom { code, nickname, .. } => create_rule(state, code, nickname),
        CommandModel::JoinRoom { nickname, .. } => match state {
            None => Err(DomainError::PlayerNotFound),
            Some(room) => join_rule(room, nickname),
        },
        CommandModel::LeaveRoom { player_id } => match state {
            None => Err(DomainError::PlayerNotFound),
            Some(room) => leave_rule(room, player_id),
        },
        CommandModel::SetCategory { category } => match state {
            None => Err(DomainError::PlayerNotFound),
            Some(room) => set_category_rule(room, cat, category),
        },
        CommandModel::StartGame => match state {
            None => Err(DomainError::PlayerNotFound),
            Some(room) => start_rule(room, cat, pi, pt),
        },
        CommandModel::NextTurn => match state {
            None => Err(DomainError::PlayerNotFound),
            Some(room) => next_turn_rule(room),
        },
        CommandModel::GuessImposter { player_id, guessed_player_id } => match state {
            None => Err(DomainError::PlayerNotFound),
            Some(room) => guess_rule(room, player_id, guessed_player_id),
        },
        CommandModel::RevealResult => match state {
            None => Err(DomainError::PlayerNotFound),
            Some(room) => reveal_rule(room),
        },
        CommandModel::RestartGame => match state {
            None => Err(DomainError::PlayerNotFound),
            Some(room) => restart_rule(room, cat, pi, pt),
        },
        CommandModel::EndGame => match state {
            None => Err(DomainError::PlayerNotFound),
            Some(room) => end_rule(room),
        },
    }
}

/// `res` is what carrying out `cmd` can give: the result of `step` for the
/// random choices the command draws, each within range.
pub open spec fn applied(
    state: Option<RoomModel>,
    cmd: CommandModel,
    cat: CatalogModel,
    res: Result<(RoomModel, Seq<EventModel>), DomainError>,
) -> bool {
    match draw_sizes(state, cmd, cat) {
        Some((n, m)) => exists|pi: int, pt: int|
            0 <= pi < n && 0 <= pt < m && res == step(state, cmd, cat, pi, pt),
        None => res == step(state, cmd, cat, 0, 0),
    }
}

/// The machine limits under which a command is carried out: a room's
/// player count leaves room for one more, and a round number for its successor.
pub open spec fn within_limits(state: Option<RoomModel>, cmd: CommandModel) -> bool {
    match state {
        Some(room) => {
            &&& room.wf()
            &&& (cmd is JoinRoom ==> room.players.len() < usize::MAX)
            &&& ((cmd is StartGame || cmd is RestartGame) && room.round is Some
                ==> room.round->0.round_number < u32::MAX)
        },
        None => true,
    }
}

} // verus!
