//! One request of the WebSocket protocol: the operation it names, its
//! decoded payload, and what the game service answers.

use vstd::prelude::*;

use crate::commands::CommandModel;
use crate::errors::ServiceErrorModel;
use crate::model::{GameResult, GameSnapshot, PrivateRoleView, RoomView, SuspicionState, TurnState};
use crate::protocol::{session_from, ProtocolError, ProtocolErrorModel};
use crate::rng::{same_picks, RngLike};
use crate::service::{
    category_set, chat_sent, created, ended, guessed, history_read, joined, left, listed, revealed,
    role_read, snapshot_read, started, turn_passed, GameService,
};
use crate::store::EntryModel;
use crate::platform::uuid_text;
use crate::text::{lemma_trim_nonempty, str_eq, trim};
use crate::topics::{category_names, CatalogModel};
use crate::types::{ChatMessage, PublicRoomSummary};
use vstd::string::StringExecFns;

verus! {

/// The operations of the protocol.
#[derive(Debug, Clone, Copy, PartialEq, Eq, Structural)]
pub enum Operation {
    Categories,
    GameSnapshot,
    MyRole,
    ListRooms,
    CreateRoom,
    JoinRoom,
    SetCategory,
    StartGame,
    NextTurn,
    GuessImposter,
    RevealResult,
    LeaveRoom,
    RestartGame,
    EndGame,
    ChatHistory,
    SendChat,
}

/// The operation a request envelope names by `name`, if any.
pub open spec fn operation_named(name: Seq<char>) -> Option<Operation> {
    if name == "categories"@ {
        Some(Operation::Categories)
    } else if name == "gameSnapshot"@ {
        Some(Operation::GameSnapshot)
    } else if name == "myRole"@ {
        Some(Operation::MyRole)
    } else if name == "listRooms"@ {
        Some(Operation::ListRooms)
    } else if name == "createRoom"@ {
        Some(Operation::CreateRoom)
    } else if name == "joinRoom"@ {
        Some(Operation::JoinRoom)
    } else if name == "setCategory"@ {
        Some(Operation::SetCategory)
    } else if name == "startGame"@ {
        Some(Operation::StartGame)
    } else if name == "nextTurn"@ {
        Some(Operation::NextTurn)
    } else if name == "guessImposter"@ {
        Some(Operation::GuessImposter)
    } else if name == "revealResult"@ {
        Some(Operation::RevealResult)
    } else if name == "leaveRoom"@ {
        Some(Operation::LeaveRoom)
    } else if name == "restartGame"@ {
        Some(Operation::RestartGame)
    } else if name == "endGame"@ {
        Some(Operation::EndGame)
    } else if name == "chatHistory"@ {
        Some(Operation::ChatHistory)
    } else if name == "sendChat"@ {
        Some(Operation::SendChat)
    } else {
        None
    }
}

/// Message of the error for an operation name that names no operation.
pub open spec fn unknown_operation_message(name: Seq<char>) -> Seq<char> {
    "unknown operation: "@ + name
}

/// The operation a request envelope names, or a `BadRequest` for a name
/// that names none.
pub fn operation_of(name: &str) -> (r: Result<Operation, ProtocolError>)
    ensures
        match operation_named(name@) {
            Some(op) => r == Ok::<Operation, ProtocolError>(op),
            None => r matches Err(e) && e@ == ProtocolErrorModel::BadRequest(unknown_operation_message(name@)),
        },
{
    if str_eq(name, "categories") {
        Ok(Operation::Categories)
    } else if str_eq(name, "gameSnapshot") {
        Ok(Operation::GameSnapshot)
    } else if str_eq(name, "myRole") {
        Ok(Operation::MyRole)
    } else if str_eq(name, "listRooms") {
        Ok(Operation::ListRooms)
    } else if str_eq(name, "createRoom") {
        Ok(Operation::CreateRoom)
    } else if str_eq(name, "joinRoom") {
        Ok(Operation::JoinRoom)
    } else if str_eq(name, "setCategory") {
        Ok(Operation::SetCategory)
    } else if str_eq(name, "startGame") {
        Ok(Operation::StartGame)
    } else if str_eq(name, "nextTurn") {
        Ok(Operation::NextTurn)
    } else if str_eq(name, "guessImposter") {
        Ok(Operation::GuessImposter)
    } else if str_eq(name, "revealResult") {
        Ok(Operation::RevealResult)
    } else if str_eq(name, "leaveRoom") {
        Ok(Operation::LeaveRoom)
    } else if str_eq(name, "restartGame") {
        Ok(Operation::RestartGame)
    } else if str_eq(name, "endGame") {
        Ok(Operation::EndGame)
    } else if str_eq(name, "chatHistory") {
        Ok(Operation::ChatHistory)
    } else if str_eq(name, "sendChat") {
        Ok(Operation::SendChat)
    } else {
        Err(ProtocolError::BadRequest("unknown operation: ".to_owned().concat(name)))
    }
}

/// A request with its payload decoded.
#[derive(Debug)]
pub enum Request {
    Categories,
    GameSnapshot { room_code: String },
    MyRole { room_code: String },
    ListRooms,
    CreateRoom { code: String, nickname: String, public: bool },
    JoinRoom { code: String, nickname: String },
    SetCategory { code: String, category: String },
    StartGame { code: String },
    NextTurn { code: String },
    GuessImposter { code: String, guessed_player_id: String },
    RevealResult { code: String },
    LeaveRoom { code: String },
    RestartGame { code: String },
    EndGame { code: String },
    ChatHistory { code: String },
    SendChat { code: String, text: String },
}

/// The data of a successful response.
#[derive(Debug)]
pub enum Reply {
    Categories(Vec<String>),
    Snapshot(GameSnapshot),
    Role(PrivateRoleView),
    Rooms(Vec<PublicRoomSummary>),
    /// The room entered (created or joined) and the new session token.
    Entered(RoomView, String),
    Room(RoomView),
    Turn(TurnState),
    Suspicion(SuspicionState),
    Outcome(GameResult),
    History(Vec<ChatMessage>),
    Chat(ChatMessage),
}

/// The session token a request carries: present and not blank.
pub open spec fn session_token(token: Option<String>) -> Option<Seq<char>> {
    match token {
        Some(t) => if trim(t@).len() > 0 {
            Some(t@)
        } else {
            None
        },
        None => None,
    }
}

/// A token the service issues passes the session check of a request.
pub proof fn law_issued_token_is_a_session(token: String)
    requires
        uuid_text(token@),
    ensures
        session_token(Some(token)) == Some(token@),
{
    lemma_trim_nonempty(token@);
}

/// A request that needs a session is refused without one and leaves the
/// rooms unchanged; `then` states the rest for the session's token.
pub open spec fn with_session(
    before: Seq<EntryModel>,
    after: Seq<EntryModel>,
    token: Option<String>,
    r: Result<Reply, ProtocolError>,
    then: spec_fn(Seq<char>) -> bool,
) -> bool {
    match session_token(token) {
        None => r matches Err(e) && e@ == ProtocolErrorModel::Service(ServiceErrorModel::InvalidSession)
            && after == before,
        Some(t) => then(t),
    }
}

/// The answer to `request`: the service operation it names, carried out
/// on the rooms `before` (giving `after`) with the catalog `cat` and the
/// random source `src`; its result is the reply, its error the response error.
pub open spec fn served<R: RngLike>(
    before: Seq<EntryModel>,
    after: Seq<EntryModel>,
    cat: CatalogModel,
    src: R,
    request: Request,
    token: Option<String>,
    r: Result<Reply, ProtocolError>,
) -> bool {
    match request {
        Request::Categories => after == before && (r matches Ok(Reply::Categories(v))
            && v@.map_values(|s: String| s@) == category_names(cat)),
        Request::ListRooms => after == before && (r matches Ok(Reply::Rooms(v)) && listed(before, v)),
        Request::GameSnapshot { room_code } => after == before && match r {
            Ok(Reply::Snapshot(s)) => snapshot_read(before, room_code@, Ok(s)),
            Err(ProtocolError::Service(e)) => snapshot_read(before, room_code@, Err(e)),
            _ => false,
        },
        Request::MyRole { room_code } => with_session(
            before,
            after,
            token,
            r,
            |t: Seq<char>|
                after == before && match r {
                    Ok(Reply::Role(v)) => role_read(before, room_code@, t, Ok(v)),
                    Err(ProtocolError::Service(e)) => role_read(before, room_code@, t, Err(e)),
                    _ => false,
                },
        ),
        Request::CreateRoom { code, nickname, public } => match r {
            Ok(Reply::Entered(v, t)) => created(before, after, code@, nickname@, public, Ok((v, t))),
            Err(ProtocolError::Service(e)) => created(before, after, code@, nickname@, public, Err(e)),
            _ => false,
        },
        Request::JoinRoom { code, nickname } => match r {
            Ok(Reply::Entered(v, t)) => joined(before, after, code@, nickname@, Ok((v, t))),
            Err(ProtocolError::Service(e)) => joined(before, after, code@, nickname@, Err(e)),
            _ => false,
        },
        Request::SetCategory { code, category } => with_session(
            before,
            after,
            token,
            r,
            |t: Seq<char>|
                match r {
                    Ok(Reply::Room(v)) => category_set(before, after, code@, category@, t, cat, Ok(v)),
                    Err(ProtocolError::Service(e)) => category_set(before, after, code@, category@, t, cat, Err(e)),
                    _ => false,
                },
        ),
        Request::StartGame { code } => with_session(
            before,
            after,
            token,
            r,
            |t: Seq<char>|
                match r {
                    Ok(Reply::Snapshot(s)) => started(before, after, code@, t, CommandModel::StartGame, cat, src, Ok(s)),
                    Err(ProtocolError::Service(e)) => started(before, after, code@, t, CommandModel::StartGame, cat, src, Err(e)),
                    _ => false,
                },
        ),
        Request::NextTurn { code } => with_session(
            before,
            after,
            token,
            r,
            |t: Seq<char>|
                match r {
                    Ok(Reply::Turn(x)) => turn_passed(before, after, code@, t, cat, Ok(x)),
                    Err(ProtocolError::Service(e)) => turn_passed(before, after, code@, t, cat, Err(e)),
                    _ => false,
                },
        ),
        Request::GuessImposter { code, guessed_player_id } => with_session(
            before,
            after,
            token,
            r,
            |t: Seq<char>|
                match r {
                    Ok(Reply::Suspicion(x)) => guessed(before, after, code@, guessed_player_id@, t, cat, Ok(x)),
                    Err(ProtocolError::Service(e)) => guessed(before, after, code@, guessed_player_id@, t, cat, Err(e)),
                    _ => false,
                },
        ),
        Request::RevealResult { code } => with_session(
            before,
            after,
            token,
            r,
            |t: Seq<char>|
                match r {
                    Ok(Reply::Outcome(x)) => revealed(before, after, code@, t, cat, Ok(x)),
                    Err(ProtocolError::Service(e)) => revealed(before, after, code@, t, cat, Err(e)),
                    _ => false,
                },
        ),
        Request::LeaveRoom { code } => with_session(
            before,
            after,
            token,
            r,
            |t: Seq<char>|
                match r {
                    Ok(Reply::Room(v)) => left(before, after, code@, t, cat, Ok(v)),
                    Err(ProtocolError::Service(e)) => left(before, after, code@, t, cat, Err(e)),
                    _ => false,
                },
        ),
        Request::RestartGame { code } => with_session(
            before,
            after,
            token,
            r,
            |t: Seq<char>|
                match r {
                    Ok(Reply::Snapshot(s)) => started(before, after, code@, t, CommandModel::RestartGame, cat, src, Ok(s)),
                    Err(ProtocolError::Service(e)) => started(before, after, code@, t, CommandModel::RestartGame, cat, src, Err(e)),
                    _ => false,
                },
        ),
        Request::EndGame { code } => with_session(
            before,
            after,
            token,
            r,
            |t: Seq<char>|
                match r {
                    Ok(Reply::Snapshot(s)) => ended(before, after, code@, t, cat, Ok(s)),
                    Err(ProtocolError::Service(e)) => ended(before, after, code@, t, cat, Err(e)),
                    _ => false,
                },
        ),
        Request::ChatHistory { code } => with_session(
            before,
            after,
            token,
            r,
            |t: Seq<char>|
                after == before && match r {
                    Ok(Reply::History(v)) => history_read(before, code@, t, Ok(v)),
                    Err(ProtocolError::Service(e)) => history_read(before, code@, t, Err(e)),
                    _ => false,
                },
        ),
        Request::SendChat { code, text } => with_session(
            before,
            after,
            token,
            r,
            |t: Seq<char>|
                match r {
                    Ok(Reply::Chat(m)) => chat_sent(before, after, code@, text@, t, cat, Ok(m)),
                    Err(ProtocolError::Service(e)) => chat_sent(before, after, code@, text@, t, cat, Err(e)),
                    _ => false,
                },
        ),
    }
}

/// The response error of a service error.
fn service_error(e: crate::errors::ServiceError) -> (r: ProtocolError)
    ensures
        r == ProtocolError::Service(e),
{
    ProtocolError::Service(e)
}

/// Carries out one request on the service: checks the session of the
/// operations that need one, then calls the service operation the request
/// names and wraps its result.
pub fn dispatch<R: RngLike>(service: &mut GameService<R>, request: Request, token: Option<String>) -> (r: Result<
    Reply,
    ProtocolError,
>)
    requires
        old(service).wf(),
    ensures
        final(service).wf(),
        final(service)@.catalog == old(service)@.catalog,
        served(old(service)@.rooms, final(service)@.rooms, old(service)@.catalog, old(service).source(), request, token, r),
        !(request is StartGame || request is RestartGame) ==> same_picks(&final(service).source(), &old(service).source()),
{
    match request {
        Request::Categories => Ok(Reply::Categories(service.categories())),
        Request::ListRooms => Ok(Reply::Rooms(service.list_public_rooms())),
        Request::GameSnapshot { room_code } => match service.game_snapshot(room_code) {
            Ok(s) => Ok(Reply::Snapshot(s)),
            Err(e) => Err(service_error(e)),
        },
        Request::CreateRoom { code, nickname, public } => match service.create_room_with_visibility(code, nickname, public) {
            Ok((v, t)) => Ok(Reply::Entered(v, t)),
            Err(e) => Err(service_error(e)),
        },
        Request::JoinRoom { code, nickname } => match service.join_room(code, nickname) {
            Ok((v, t)) => Ok(Reply::Entered(v, t)),
            Err(e) => Err(service_error(e)),
        },
        Request::MyRole { room_code } => {
            let session = match session_from(token) {
                Ok(s) => s,
                Err(e) => {
                    return Err(e);
                },
            };
            match service.my_role(room_code, session) {
                Ok(v) => Ok(Reply::Role(v)),
                Err(e) => Err(service_error(e)),
            }
        },
        Request::SetCategory { code, category } => {
            let session = match session_from(token) {
                Ok(s) => s,
                Err(e) => {
                    return Err(e);
                },
            };
            match service.set_category(code, category, session) {
                Ok(v) => Ok(Reply::Room(v)),
                Err(e) => Err(service_error(e)),
            }
        },
        Request::StartGame { code } => {
            let session = match session_from(token) {
                Ok(s) => s,
                Err(e) => {
                    return Err(e);
                },
            };
            match service.start_game(code, session) {
                Ok(s) => Ok(Reply::Snapshot(s)),
                Err(e) => Err(service_error(e)),
            }
        },
        Request::NextTurn { code } => {
            let session = match session_from(token) {
                Ok(s) => s,
                Err(e) => {
                    return Err(e);
                },
            };
            match service.next_turn(code, session) {
                Ok(x) => Ok(Reply::Turn(x)),
                Err(e) => Err(service_error(e)),
            }
        },
        Request::GuessImposter { code, guessed_player_id } => {
            let session = match session_from(token) {
                Ok(s) => s,
                Err(e) => {
                    return Err(e);
                },
            };
            match service.guess_imposter(code, guessed_player_id, session) {
                Ok(x) => Ok(Reply::Suspicion(x)),
                Err(e) => Err(service_error(e)),
            }
        },
        Request::RevealResult { code } => {
            let session = match session_from(token) {
                Ok(s) => s,
                Err(e) => {
                    return Err(e);
                },
            };
            match service.reveal_result(code, session) {
                Ok(x) => Ok(Reply::Outcome(x)),
                Err(e) => Err(service_error(e)),
            }
        },
        Request::LeaveRoom { code } => {
            let session = match session_from(token) {
                Ok(s) => s,
                Err(e) => {
                    return Err(e);
                },
            };
            match service.leave_room(code, session) {
                Ok(v) => Ok(Reply::Room(v)),
                Err(e) => Err(service_error(e)),
            }
        },
        Request::RestartGame { code } => {
            let session = match session_from(token) {
                Ok(s) => s,
                Err(e) => {
                    return Err(e);
                },
            };
            match service.restart_game(code, session) {
                Ok(s) => Ok(Reply::Snapshot(s)),
                Err(e) => Err(service_error(e)),
            }
        },
        Request::EndGame { code } => {
            let session = match session_from(token) {
                Ok(s) => s,
                Err(e) => {
                    return Err(e);
                },
            };
            match service.end_game(code, session) {
                Ok(s) => Ok(Reply::Snapshot(s)),
                Err(e) => Err(service_error(e)),
            }
        },
        Request::ChatHistory { code } => {
            let session = match session_from(token) {
                Ok(s) => s,
                Err(e) => {
                    return Err(e);
                },
            };
            match service.chat_history(code, session) {
                Ok(v) => Ok(Reply::History(v)),
                Err(e) => Err(service_error(e)),
            }
        },
        Request::SendChat { code, text } => {
            let session = match session_from(token) {
                Ok(s) => s,
                Err(e) => {
                    return Err(e);
                },
            };
            match service.send_chat(code, text, session) {
                Ok(m) => Ok(Reply::Chat(m)),
                Err(e) => Err(service_error(e)),
            }
        },
    }
}

/// The room session a connection holds after a successful request: the
/// room and token it entered by creating or joining a room, none once it
/// left, else the one it held. On closing, the connection leaves the room
/// of the session it holds.
pub fn session_after(held: Option<(String, String)>, op: Operation, reply: &Reply) -> (r: Option<(String, String)>)
    ensures
        if (op == Operation::CreateRoom || op == Operation::JoinRoom) && reply is Entered {
            r matches Some((c, t)) && c@ == reply->Entered_0.code@ && t@ == reply->Entered_1@
        } else if op == Operation::LeaveRoom {
            r is None
        } else {
            r == held
        },
{
    match op {
        Operation::CreateRoom | Operation::JoinRoom => match reply {
            Reply::Entered(room, token) => Some((room.code.clone(), token.clone())),
            _ => held,
        },
        Operation::LeaveRoom => None,
        _ => held,
    }
}

} // verus!
