//! Room, player and round state, with the mathematical model of each type.

use vstd::prelude::*;

use crate::text::str_eq;

verus! {

/// Current room phase.
#[derive(Debug, Clone, Copy, PartialEq, Eq, Structural)]
pub enum GamePhase {
    Lobby,
    InProgress,
    Completed,
}

/// Per-player hidden role.
#[derive(Debug, Clone, Copy, PartialEq, Eq, Structural)]
pub enum GameRole {
    Crew,
    Imposter,
}

/// Winner role for completed round.
#[derive(Debug, Clone, Copy, PartialEq, Eq, Structural)]
pub enum Winner {
    Crew,
    Imposter,
}

/// Stable room state.
#[derive(Debug, Clone, PartialEq, Eq)]
pub struct RoomState {
    pub code: String,
    pub phase: GamePhase,
    pub category: Option<String>,
    pub players: Vec<PlayerState>,
    pub round: Option<RoundState>,
    pub result: Option<GameResult>,
}

/// Public player state.
#[derive(Debug, Clone, PartialEq, Eq)]
pub struct PlayerState {
    pub id: String,
    pub nickname: String,
    pub is_admin: bool,
    pub connected: bool,
}

/// Active round metadata.
#[derive(Debug, Clone, PartialEq, Eq)]
pub struct RoundState {
    pub round_number: u32,
    pub current_turn_index: usize,
    pub imposter_player_id: String,
    pub topic_id: String,
    pub suspicions: Vec<SuspicionState>,
}

/// Per-player suspicion state submitted during a live round.
#[derive(Debug, Clone, PartialEq, Eq)]
pub struct SuspicionState {
    pub player_id: String,
    pub guessed_player_id: String,
}

/// Completed game result.
#[derive(Debug, Clone, PartialEq, Eq)]
pub struct GameResult {
    pub winner: Winner,
    pub guessed_player_id: Option<String>,
    pub imposter_player_id: String,
}

/// Private role data for one caller.
#[derive(Debug, Clone, PartialEq, Eq)]
pub struct PrivateRoleView {
    pub game_role: GameRole,
    pub category: String,
    pub topic_id: Option<String>,
}

/// Transport-facing room view.
#[derive(Debug, Clone, PartialEq, Eq)]
pub struct RoomView {
    pub code: String,
    pub category: Option<String>,
    pub phase: GamePhase,
    pub players: Vec<PlayerState>,
}

/// Transport-facing turn data.
#[derive(Debug, Clone, PartialEq, Eq)]
pub struct TurnState {
    pub round: u32,
    pub current_turn_index: usize,
    pub current_player_id: String,
}

/// Transport-facing snapshot.
#[derive(Debug, Clone, PartialEq, Eq)]
pub struct GameSnapshot {
    pub room: RoomView,
    pub turn: Option<TurnState>,
    pub suspicions: Vec<SuspicionState>,
    pub result: Option<GameResult>,
}

// ---------------------------------------------------------------------------
// Mathematical model
// ---------------------------------------------------------------------------

#[verifier::ext_equal]
pub struct PlayerModel {
    pub id: Seq<char>,
    pub nickname: Seq<char>,
    pub is_admin: bool,
    pub connected: bool,
}

#[verifier::ext_equal]
pub struct SuspicionModel {
    pub player_id: Seq<char>,
    pub guessed_player_id: Seq<char>,
}

#[verifier::ext_equal]
pub struct RoundModel {
    pub round_number: u32,
    pub current_turn_index: usize,
    pub imposter_player_id: Seq<char>,
    pub topic_id: Seq<char>,
    pub suspicions: Seq<SuspicionModel>,
}

#[verifier::ext_equal]
pub struct ResultModel {
    pub winner: Winner,
    pub guessed_player_id: Option<Seq<char>>,
    pub imposter_player_id: Seq<char>,
}

#[verifier::ext_equal]
pub struct RoomModel {
    pub code: Seq<char>,
    pub phase: GamePhase,
    pub category: Option<Seq<char>>,
    pub players: Seq<PlayerModel>,
    pub round: Option<RoundModel>,
    pub result: Option<ResultModel>,
}

#[verifier::ext_equal]
pub struct PrivateRoleModel {
    pub game_role: GameRole,
    pub category: Seq<char>,
    pub topic_id: Option<Seq<char>>,
}

#[verifier::ext_equal]
pub struct RoomViewModel {
    pub code: Seq<char>,
    pub category: Option<Seq<char>>,
    pub phase: GamePhase,
    pub players: Seq<PlayerModel>,
}

#[verifier::ext_equal]
pub struct TurnModel {
    pub round: u32,
    pub current_turn_index: usize,
    pub current_player_id: Seq<char>,
}

#[verifier::ext_equal]
pub struct SnapshotModel {
    pub room: RoomViewModel,
    pub turn: Option<TurnModel>,
    pub suspicions: Seq<SuspicionModel>,
    pub result: Option<ResultModel>,
}

pub open spec fn opt_str(o: Option<String>) -> Option<Seq<char>> {
    match o {
        Some(s) => Some(s@),
        None => None,
    }
}

pub open spec fn players_model(v: Seq<PlayerState>) -> Seq<PlayerModel> {
    v.map_values(|p: PlayerState| p@)
}

pub open spec fn suspicions_model(v: Seq<SuspicionState>) -> Seq<SuspicionModel> {
    v.map_values(|s: SuspicionState| s@)
}

impl View for PlayerState {
    type V = PlayerModel;

    open spec fn view(&self) -> PlayerModel {
        PlayerModel {
            id: self.id@,
            nickname: self.nickname@,
            is_admin: self.is_admin,
            connected: self.connected,
        }
    }
}

impl View for SuspicionState {
    type V = SuspicionModel;

    open spec fn view(&self) -> SuspicionModel {
        SuspicionModel { player_id: self.player_id@, guessed_player_id: self.guessed_player_id@ }
    }
}

impl View for RoundState {
    type V = RoundModel;

    open spec fn view(&self) -> RoundModel {
        RoundModel {
            round_number: self.round_number,
            current_turn_index: self.current_turn_index,
            imposter_player_id: self.imposter_player_id@,
            topic_id: self.topic_id@,
            suspicions: suspicions_model(self.suspicions@),
        }
    }
}

impl View for GameResult {
    type V = ResultModel;

    open spec fn view(&self) -> ResultModel {
        ResultModel {
            winner: self.winner,
            guessed_player_id: opt_str(self.guessed_player_id),
            imposter_player_id: self.imposter_player_id@,
        }
    }
}

pub open spec fn opt_round(o: Option<RoundState>) -> Option<RoundModel> {
    match o {
        Some(r) => Some(r@),
        None => None,
    }
}

pub open spec fn opt_result(o: Option<GameResult>) -> Option<ResultModel> {
    match o {
        Some(r) => Some(r@),
        None => None,
    }
}

impl View for RoomState {
    type V = RoomModel;

    open spec fn view(&self) -> RoomModel {
        RoomModel {
            code: self.code@,
            phase: self.phase,
            category: opt_str(self.category),
            players: players_model(self.players@),
            round: opt_round(self.round),
            result: opt_result(self.result),
        }
    }
}

impl View for PrivateRoleView {
    type V = PrivateRoleModel;

    open spec fn view(&self) -> PrivateRoleModel {
        PrivateRoleModel {
            game_role: self.game_role,
            category: self.category@,
            topic_id: opt_str(self.topic_id),
        }
    }
}

impl View for RoomView {
    type V = RoomViewModel;

    open spec fn view(&self) -> RoomViewModel {
        RoomViewModel {
            code: self.code@,
            category: opt_str(self.category),
            phase: self.phase,
            players: players_model(self.players@),
        }
    }
}

impl View for TurnState {
    type V = TurnModel;

    open spec fn view(&self) -> TurnModel {
        TurnModel {
            round: self.round,
            current_turn_index: self.current_turn_index,
            current_player_id: self.current_player_id@,
        }
    }
}

pub open spec fn opt_turn(o: Option<TurnState>) -> Option<TurnModel> {
    match o {
        Some(t) => Some(t@),
        None => None,
    }
}

impl View for GameSnapshot {
    type V = SnapshotModel;

    open spec fn view(&self) -> SnapshotModel {
        SnapshotModel {
            room: self.room@,
            turn: opt_turn(self.turn),
            suspicions: suspicions_model(self.suspicions@),
            result: opt_result(self.result),
        }
    }
}

impl RoomModel {
    /// The structural condition under which the room's operations are
    /// defined: the turn index of a round points at a player.
    pub open spec fn wf(self) -> bool {
        self.round matches Some(rd) ==> rd.current_turn_index < self.players.len()
    }

    /// The transport view of the room.
    pub open spec fn room_view(self) -> RoomViewModel {
        RoomViewModel {
            code: self.code,
            category: self.category,
            phase: self.phase,
            players: self.players,
        }
    }

    /// The transport snapshot of the room.
    pub open spec fn snapshot(self) -> SnapshotModel {
        SnapshotModel {
            room: self.room_view(),
            turn: match self.round {
                Some(rd) => Some(
                    TurnModel {
                        round: rd.round_number,
                        current_turn_index: rd.current_turn_index,
                        current_player_id: self.players[rd.current_turn_index as int].id,
                    },
                ),
                None => None,
            },
            suspicions: match self.round {
                Some(rd) => rd.suspicions,
                None => Seq::empty(),
            },
            result: self.result,
        }
    }

    /// Whether `id` names a connected admin of the room.
    pub open spec fn is_admin(self, id: Seq<char>) -> bool {
        exists|i: int|
            0 <= i < self.players.len() && (#[trigger] self.players[i]).id == id
                && self.players[i].is_admin && self.players[i].connected
    }

    /// Whether `id` names a connected player of the room.
    pub open spec fn is_member(self, id: Seq<char>) -> bool {
        exists|i: int|
            0 <= i < self.players.len() && (#[trigger] self.players[i]).id == id
                && self.players[i].connected
    }
}

// ---------------------------------------------------------------------------
// Copies with known views
// ---------------------------------------------------------------------------

pub fn copy_opt_string(o: &Option<String>) -> (r: Option<String>)
    ensures
        opt_str(r) == opt_str(*o),
{
    match o {
        Some(s) => Some(s.clone()),
        None => None,
    }
}

impl PlayerState {
    pub fn copy(&self) -> (r: PlayerState)
        ensures
            r@ == self@,
    {
        PlayerState {
            id: self.id.clone(),
            nickname: self.nickname.clone(),
            is_admin: self.is_admin,
            connected: self.connected,
        }
    }
}

impl SuspicionState {
    pub fn copy(&self) -> (r: SuspicionState)
        ensures
            r@ == self@,
    {
        SuspicionState {
            player_id: self.player_id.clone(),
            guessed_player_id: self.guessed_player_id.clone(),
        }
    }
}

impl GameResult {
    pub fn copy(&self) -> (r: GameResult)
        ensures
            r@ == self@,
    {
        GameResult {
            winner: self.winner,
            guessed_player_id: copy_opt_string(&self.guessed_player_id),
            imposter_player_id: self.imposter_player_id.clone(),
        }
    }
}

pub fn copy_players(v: &Vec<PlayerState>) -> (r: Vec<PlayerState>)
    ensures
        players_model(r@) == players_model(v@),
{
    let mut r: Vec<PlayerState> = Vec::new();
    let n = v.len();
    for i in 0..n
        invariant
            n == v@.len(),
            r@.len() == i,
            forall|k: int| 0 <= k < i ==> (#[trigger] r@[k])@ == v@[k]@,
    {
        r.push(v[i].copy());
    }
    assert(players_model(r@) =~= players_model(v@));
    r
}

pub fn copy_suspicions(v: &Vec<SuspicionState>) -> (r: Vec<SuspicionState>)
    ensures
        suspicions_model(r@) == suspicions_model(v@),
{
    let mut r: Vec<SuspicionState> = Vec::new();
    let n = v.len();
    for i in 0..n
        invariant
            n == v@.len(),
            r@.len() == i,
            forall|k: int| 0 <= k < i ==> (#[trigger] r@[k])@ == v@[k]@,
    {
        r.push(v[i].copy());
    }
    assert(suspicions_model(r@) =~= suspicions_model(v@));
    r
}

impl RoundState {
    pub fn copy(&self) -> (r: RoundState)
        ensures
            r@ == self@,
    {
        RoundState {
            round_number: self.round_number,
            current_turn_index: self.current_turn_index,
            imposter_player_id: self.imposter_player_id.clone(),
            topic_id: self.topic_id.clone(),
            suspicions: copy_suspicions(&self.suspicions),
        }
    }
}

impl RoomState {
    pub fn copy(&self) -> (r: RoomState)
        ensures
            r@ == self@,
    {
        RoomState {
            code: self.code.clone(),
            phase: self.phase,
            category: copy_opt_string(&self.category),
            players: copy_players(&self.players),
            round: match &self.round {
                Some(rd) => Some(rd.copy()),
                None => None,
            },
            result: match &self.result {
                Some(res) => Some(res.copy()),
                None => None,
            },
        }
    }
}

impl RoomView {
    /// The transport view of `room`.
    pub fn from_room(room: &RoomState) -> (v: RoomView)
        ensures
            v@ == room@.room_view(),
    {
        RoomView {
            code: room.code.clone(),
            category: copy_opt_string(&room.category),
            phase: room.phase,
            players: copy_players(&room.players),
        }
    }
}

impl RoomState {
    /// Returns the transport snapshot used by the WS protocol.
    pub fn snapshot(&self) -> (s: GameSnapshot)
        requires
            self@.wf(),
        ensures
            s@ == self@.snapshot(),
    {
        let turn = match &self.round {
            Some(round) => Some(
                TurnState {
                    round: round.round_number,
                    current_turn_index: round.current_turn_index,
                    current_player_id: self.players[round.current_turn_index].id.clone(),
                },
            ),
            None => None,
        };
        let suspicions = match &self.round {
            Some(round) => copy_suspicions(&round.suspicions),
            None => Vec::new(),
        };
        let result = match &self.result {
            Some(res) => Some(res.copy()),
            None => None,
        };
        let s = GameSnapshot { room: RoomView::from_room(self), turn, suspicions, result };
        assert(s@.suspicions =~= self@.snapshot().suspicions);
        s
    }

    /// Returns true when the given player id is a connected room admin.
    pub fn is_admin(&self, player_id: &str) -> (r: bool)
        ensures
            r == self@.is_admin(player_id@),
    {
        let n = self.players.len();
        for i in 0..n
            invariant
                n == self.players@.len(),
                forall|k: int|
                    0 <= k < i ==> !((#[trigger] self@.players[k]).id == player_id@
                        && self@.players[k].is_admin && self@.players[k].connected),
        {
            let p = &self.players[i];
            if p.is_admin && p.connected && str_eq(p.id.as_str(), player_id) {
                assert(self@.players[i as int] == p@);
                return true;
            }
        }
        false
    }

    /// Returns true when the given player id is a connected room member.
    pub fn is_member(&self, player_id: &str) -> (r: bool)
        ensures
            r == self@.is_member(player_id@),
    {
        let n = self.players.len();
        for i in 0..n
            invariant
                n == self.players@.len(),
                forall|k: int|
                    0 <= k < i ==> !((#[trigger] self@.players[k]).id == player_id@
                        && self@.players[k].connected),
        {
            let p = &self.players[i];
            if p.connected && str_eq(p.id.as_str(), player_id) {
                assert(self@.players[i as int] == p@);
                return true;
            }
        }
        false
    }
}

} // verus!
