//! Rules, state machine and service logic of the Imposter party game.

pub mod commands;
pub mod errors;
pub mod guarantees;
pub mod invariants;
pub mod laws;
pub mod model;
pub mod platform;
pub mod protocol;
pub mod request;
pub mod rng;
pub mod role;
pub mod rules;
pub mod service;
pub mod store;
pub mod text;
pub mod topics;
pub mod types;
pub mod transitions;

pub use commands::{Command, DomainEvent};
pub use errors::DomainError;
pub use model::{
    GamePhase, GameResult, GameRole, GameSnapshot, PlayerState, PrivateRoleView, RoomState,
    RoomView, RoundState, SuspicionState, TurnState, Winner,
};
pub use rng::{FixedRng, ProductionRng, RngLike};
pub use role::private_role_view;
pub use topics::{default_catalog, Topic, TopicCatalog};
pub use transitions::{apply, apply_with_picks};
pub use errors::ServiceError;
pub use service::{build_default_service, GameService};
pub use store::{InMemoryRoomStore, RoomEntry};
pub use types::{ChatMessage, PublicRoomSummary, Session, Timestamp};
