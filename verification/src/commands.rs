//! Commands accepted by the room state machine and the events it emits.

use vstd::prelude::*;

use crate::model::Winner;

verus! {

/// Domain command enum used with [`crate::apply`].
#[derive(Debug, Clone, PartialEq, Eq)]
pub enum Command {
    CreateRoom { code: String, nickname: String, token_hash: String },
    JoinRoom { nickname: String, token_hash: String },
    LeaveRoom { player_id: String },
    SetCategory { category: String },
    StartGame,
    NextTurn,
    GuessImposter { player_id: String, guessed_player_id: String },
    RevealResult,
    RestartGame,
    EndGame,
}

/// Domain events for higher layers.
#[derive(Debug, Clone, PartialEq, Eq)]
pub enum DomainEvent {
    RoomCreated,
    PlayerJoined { player_id: String },
    PlayerLeft { player_id: String },
    PlayerReconnected { player_id: String },
    CategorySet { category: String },
    RoundStarted { round_number: u32 },
    TurnAdvanced { current_turn_index: usize },
    SuspicionSubmitted { player_id: String, guessed_player_id: String },
    GameRevealed { winner: Winner },
    GameRestarted { round_number: u32 },
    GameEnded,
}

pub enum CommandModel {
    CreateRoom { code: Seq<char>, nickname: Seq<char>, token_hash: Seq<char> },
    JoinRoom { nickname: Seq<char>, token_hash: Seq<char> },
    LeaveRoom { player_id: Seq<char> },
    SetCategory { category: Seq<char> },
    StartGame,
    NextTurn,
    GuessImposter { player_id: Seq<char>, guessed_player_id: Seq<char> },
    RevealResult,
    RestartGame,
    EndGame,
}

pub enum EventModel {
    RoomCreated,
    PlayerJoined { player_id: Seq<char> },
    PlayerLeft { player_id: Seq<char> },
    PlayerReconnected { player_id: Seq<char> },
    CategorySet { category: Seq<char> },
    RoundStarted { round_number: u32 },
    TurnAdvanced { current_turn_index: usize },
    SuspicionSubmitted { player_id: Seq<char>, guessed_player_id: Seq<char> },
    GameRevealed { winner: Winner },
    GameRestarted { round_number: u32 },
    GameEnded,
}

impl View for Command {
    type V = CommandModel;

    open spec fn view(&self) -> CommandModel {
        match self {
            Command::CreateRoom { code, nickname, token_hash } => CommandModel::CreateRoom {
                code: code@,
                nickname: nickname@,
                token_hash: token_hash@,
            },
            Command::JoinRoom { nickname, token_hash } => CommandModel::JoinRoom {
                nickname: nickname@,
                token_hash: token_hash@,
            },
            Command::LeaveRoom { player_id } => CommandModel::LeaveRoom { player_id: player_id@ },
            Command::SetCategory { category } => CommandModel::SetCategory { category: category@ },
            Command::StartGame => CommandModel::StartGame,
            Command::NextTurn => CommandModel::NextTurn,
            Command::GuessImposter { player_id, guessed_player_id } => CommandModel::GuessImposter {
                player_id: player_id@,
                guessed_player_id: guessed_player_id@,
            },
            Command::RevealResult => CommandModel::RevealResult,
            Command::RestartGame => CommandModel::RestartGame,
            Command::EndGame => CommandModel::EndGame,
        }
    }
}

impl View for DomainEvent {
    type V = EventModel;

    open spec fn view(&self) -> EventModel {
        match self {
            DomainEvent::RoomCreated => EventModel::RoomCreated,
            DomainEvent::PlayerJoined { player_id } => EventModel::PlayerJoined {
                player_id: player_id@,
            },
            DomainEvent::PlayerLeft { player_id } => EventModel::PlayerLeft { player_id: player_id@ },
            DomainEvent::PlayerReconnected { player_id } => EventModel::PlayerReconnected {
                player_id: player_id@,
            },
            DomainEvent::CategorySet { category } => EventModel::CategorySet { category: category@ },
            DomainEvent::RoundStarted { round_number } => EventModel::RoundStarted {
                round_number: *round_number,
            },
            DomainEvent::TurnAdvanced { current_turn_index } => EventModel::TurnAdvanced {
                current_turn_index: *current_turn_index,
            },
            DomainEvent::SuspicionSubmitted { player_id, guessed_player_id } =>
                EventModel::SuspicionSubmitted {
                player_id: player_id@,
                guessed_player_id: guessed_player_id@,
            },
            DomainEvent::GameRevealed { winner } => EventModel::GameRevealed { winner: *winner },
            DomainEvent::GameRestarted { round_number } => EventModel::GameRestarted {
                round_number: *round_number,
            },
            DomainEvent::GameEnded => EventModel::GameEnded,
        }
    }
}

pub open spec fn events_model(v: Seq<DomainEvent>) -> Seq<EventModel> {
    v.map_values(|e: DomainEvent| e@)
}

} // verus!
