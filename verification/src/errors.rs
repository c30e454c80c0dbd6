//! Stable error kinds of the game rules and of the service layer.

use vstd::prelude::*;

verus! {

/// Stable domain errors used across transports.
#[derive(Debug, Clone, Copy, PartialEq, Eq, Structural)]
pub enum DomainError {
    RoomAlreadyExists,
    RoomFull,
    InvalidNickname,
    NicknameTaken,
    NotInLobby,
    InsufficientPlayers,
    NotInProgress,
    NotCompleted,
    CategoryNotSet,
    InvalidCategory,
    PlayerNotFound,
    NotMember,
    NotAdmin,
}

/// The stable code of a domain error: the variant's own name.
pub open spec fn domain_error_code(e: DomainError) -> Seq<char> {
    match e {
        DomainError::RoomAlreadyExists => "RoomAlreadyExists"@,
        DomainError::RoomFull => "RoomFull"@,
        DomainError::InvalidNickname => "InvalidNickname"@,
        DomainError::NicknameTaken => "NicknameTaken"@,
        DomainError::NotInLobby => "NotInLobby"@,
        DomainError::InsufficientPlayers => "InsufficientPlayers"@,
        DomainError::NotInProgress => "NotInProgress"@,
        DomainError::NotCompleted => "NotCompleted"@,
        DomainError::CategoryNotSet => "CategoryNotSet"@,
        DomainError::InvalidCategory => "InvalidCategory"@,
        DomainError::PlayerNotFound => "PlayerNotFound"@,
        DomainError::NotMember => "NotMember"@,
        DomainError::NotAdmin => "NotAdmin"@,
    }
}

/// The human-readable message of a domain error.
pub open spec fn domain_error_message(e: DomainError) -> Seq<char> {
    match e {
        DomainError::RoomAlreadyExists => "room already exists"@,
        DomainError::RoomFull => "room full"@,
        DomainError::InvalidNickname => "invalid nickname"@,
        DomainError::NicknameTaken => "nickname already exists"@,
        DomainError::NotInLobby => "operation allowed only in lobby"@,
        DomainError::InsufficientPlayers => "not enough players to start"@,
        DomainError::NotInProgress => "operation allowed only in progress"@,
        DomainError::NotCompleted => "operation allowed only in completed state"@,
        DomainError::CategoryNotSet => "category must be set before starting"@,
        DomainError::InvalidCategory => "invalid category"@,
        DomainError::PlayerNotFound => "player not found"@,
        DomainError::NotMember => "caller is not a room member"@,
        DomainError::NotAdmin => "caller is not room admin"@,
    }
}

impl DomainError {
    /// Stable code for transport-level error mapping.
    pub fn code(&self) -> (r: &'static str)
        ensures
            r@ == domain_error_code(*self),
    {
        match self {
            DomainError::RoomAlreadyExists => "RoomAlreadyExists",
            DomainError::RoomFull => "RoomFull",
            DomainError::InvalidNickname => "InvalidNickname",
            DomainError::NicknameTaken => "NicknameTaken",
            DomainError::NotInLobby => "NotInLobby",
            DomainError::InsufficientPlayers => "InsufficientPlayers",
            DomainError::NotInProgress => "NotInProgress",
            DomainError::NotCompleted => "NotCompleted",
            DomainError::CategoryNotSet => "CategoryNotSet",
            DomainError::InvalidCategory => "InvalidCategory",
            DomainError::PlayerNotFound => "PlayerNotFound",
            DomainError::NotMember => "NotMember",
            DomainError::NotAdmin => "NotAdmin",
        }
    }

    /// Human-readable message shown to clients.
    pub fn message(&self) -> (r: &'static str)
        ensures
            r@ == domain_error_message(*self),
    {
        match self {
            DomainError::RoomAlreadyExists => "room already exists",
            DomainError::RoomFull => "room full",
            DomainError::InvalidNickname => "invalid nickname",
            DomainError::NicknameTaken => "nickname already exists",
            DomainError::NotInLobby => "operation allowed only in lobby",
            DomainError::InsufficientPlayers => "not enough players to start",
            DomainError::NotInProgress => "operation allowed only in progress",
            DomainError::NotCompleted => "operation allowed only in completed state",
            DomainError::CategoryNotSet => "category must be set before starting",
            DomainError::InvalidCategory => "invalid category",
            DomainError::PlayerNotFound => "player not found",
            DomainError::NotMember => "caller is not a room member",
            DomainError::NotAdmin => "caller is not room admin",
        }
    }
}

/// Stable service-level errors consumed by transports.
#[derive(Debug, Clone, PartialEq, Eq)]
pub enum ServiceError {
    RoomNotFound,
    RoomAlreadyExists,
    InvalidSession,
    InvalidInput(String),
    Forbidden,
    Domain(DomainError),
}

pub enum ServiceErrorModel {
    RoomNotFound,
    RoomAlreadyExists,
    InvalidSession,
    InvalidInput(Seq<char>),
    Forbidden,
    Domain(DomainError),
}

impl View for ServiceError {
    type V = ServiceErrorModel;

    open spec fn view(&self) -> ServiceErrorModel {
        match self {
            ServiceError::RoomNotFound => ServiceErrorModel::RoomNotFound,
            ServiceError::RoomAlreadyExists => ServiceErrorModel::RoomAlreadyExists,
            ServiceError::InvalidSession => ServiceErrorModel::InvalidSession,
            ServiceError::InvalidInput(m) => ServiceErrorModel::InvalidInput(m@),
            ServiceError::Forbidden => ServiceErrorModel::Forbidden,
            ServiceError::Domain(e) => ServiceErrorModel::Domain(*e),
        }
    }
}

/// The stable code of a service error: the variant's name, or for a domain
/// error, the domain error's code.
pub open spec fn service_error_code(e: ServiceErrorModel) -> Seq<char> {
    match e {
        ServiceErrorModel::RoomNotFound => "RoomNotFound"@,
        ServiceErrorModel::RoomAlreadyExists => "RoomAlreadyExists"@,
        ServiceErrorModel::InvalidSession => "InvalidSession"@,
        ServiceErrorModel::InvalidInput(_) => "InvalidInput"@,
        ServiceErrorModel::Forbidden => "Forbidden"@,
        ServiceErrorModel::Domain(d) => domain_error_code(d),
    }
}

/// The human-readable message of a service error.
pub open spec fn service_error_message(e: ServiceErrorModel) -> Seq<char> {
    match e {
        ServiceErrorModel::RoomNotFound => "room not found"@,
        ServiceErrorModel::RoomAlreadyExists => "room already exists"@,
        ServiceErrorModel::InvalidSession => "invalid session token"@,
        ServiceErrorModel::InvalidInput(m) => m,
        ServiceErrorModel::Forbidden => "caller is not authorized"@,
        ServiceErrorModel::Domain(d) => domain_error_message(d),
    }
}

impl ServiceError {
    /// Stable code for transport-level error mapping.
    pub fn code(&self) -> (r: String)
        ensures
            r@ == service_error_code(self@),
    {
        match self {
            ServiceError::RoomNotFound => "RoomNotFound".to_owned(),
            ServiceError::RoomAlreadyExists => "RoomAlreadyExists".to_owned(),
            ServiceError::InvalidSession => "InvalidSession".to_owned(),
            ServiceError::InvalidInput(_) => "InvalidInput".to_owned(),
            ServiceError::Forbidden => "Forbidden".to_owned(),
            ServiceError::Domain(err) => err.code().to_owned(),
        }
    }

    /// Human-readable message shown to clients.
    pub fn message(&self) -> (r: String)
        ensures
            r@ == service_error_message(self@),
    {
        match self {
            ServiceError::RoomNotFound => "room not found".to_owned(),
            ServiceError::RoomAlreadyExists => "room already exists".to_owned(),
            ServiceError::InvalidSession => "invalid session token".to_owned(),
            ServiceError::InvalidInput(m) => m.clone(),
            ServiceError::Forbidden => "caller is not authorized".to_owned(),
            ServiceError::Domain(err) => err.message().to_owned(),
        }
    }
}

/// A domain error is a service error.
impl From<DomainError> for ServiceError {
    fn from(e: DomainError) -> (r: ServiceError) {
        ServiceError::Domain(e)
    }
}

impl vstd::std_specs::convert::FromSpecImpl<DomainError> for ServiceError {
    open spec fn obeys_from_spec() -> bool {
        true
    }

    open spec fn from_spec(e: DomainError) -> ServiceError {
        ServiceError::Domain(e)
    }
}

} // verus!
