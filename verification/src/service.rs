//! The game service: rooms, sessions, authorization, chat and the
//! operations transports expose (mirroring future GraphQL operation names).

use vstd::prelude::*;

use crate::commands::{Command, CommandModel};
use crate::errors::{DomainError, ServiceError, ServiceErrorModel};
use crate::model::{
    GameResult, GameSnapshot, PrivateRoleView, RoomModel, RoomState, RoomView, SnapshotModel,
    SuspicionState, TurnState,
};
use crate::platform::{broadcast_subscribe, hash_token, now_utc, random_uuid, sha256_hex, uuid_text};
use crate::rng::{same_picks, ProductionRng, RngLike};
use crate::role::{private_role_view, role_outcome, role_rule};
use crate::rules::{applied, draw_sizes, step};
use crate::store::{
    chat_append, room_index, token_insert, token_lookup, token_remove, EntryModel, InMemoryRoomStore,
};
use crate::rules::{create_rule, first_index, has_id, join_rule, same_nickname, submitted_by};
use crate::text::{char_vec, trim, trim_bounds, utf8_len_within};
use crate::types::{chats_model, not_before, ChatMessage, ChatModel, PublicRoomSummary, Session, SummaryModel};
use vstd::utf8::encode_utf8;
use vstd::string::StrSliceExecFns;
use crate::topics::{CatalogModel, Topic, TopicCatalog, default_catalog};
use crate::transitions::{apply, opt_room, outcome};

verus! {

/// Service interface mirroring future GraphQL operation names.
pub struct GameService<R: RngLike> {
    store: InMemoryRoomStore,
    catalog: TopicCatalog,
    rng: R,
}

pub struct ServiceModel {
    pub rooms: Seq<EntryModel>,
    pub catalog: CatalogModel,
}

impl<R: RngLike> View for GameService<R> {
    type V = ServiceModel;

    closed spec fn view(&self) -> ServiceModel {
        ServiceModel { rooms: self.store@, catalog: self.catalog@ }
    }
}

/// The room and player a session token stands for.
pub open spec fn resolve_rule(rooms: Seq<EntryModel>, code: Seq<char>, token: Seq<char>) -> Result<
    (int, Seq<char>),
    ServiceErrorModel,
> {
    match room_index(rooms, code) {
        None => Err(ServiceErrorModel::RoomNotFound),
        Some(i) => match token_lookup(rooms[i].tokens, sha256_hex(token)) {
            None => Err(ServiceErrorModel::InvalidSession),
            Some(p) => Ok((i, p)),
        },
    }
}

/// As `resolve_rule`, for a caller that must be a connected member.
pub open spec fn member_rule(rooms: Seq<EntryModel>, code: Seq<char>, token: Seq<char>) -> Result<
    (int, Seq<char>),
    ServiceErrorModel,
> {
    match resolve_rule(rooms, code, token) {
        Err(e) => Err(e),
        Ok((i, p)) => if rooms[i].state.is_member(p) {
            Ok((i, p))
        } else {
            Err(ServiceErrorModel::Forbidden)
        },
    }
}

/// As `resolve_rule`, for a caller that must be the room admin.
pub open spec fn admin_rule(rooms: Seq<EntryModel>, code: Seq<char>, token: Seq<char>) -> Result<
    (int, Seq<char>),
    ServiceErrorModel,
> {
    match resolve_rule(rooms, code, token) {
        Err(e) => Err(e),
        Ok((i, p)) => if rooms[i].state.is_admin(p) {
            Ok((i, p))
        } else {
            Err(ServiceErrorModel::Forbidden)
        },
    }
}

/// Room `i` of `new` is room `i` of `old` after `cmd`: on success its state
/// is the new room and that room's snapshot was published; on a domain
/// error nothing changed. `res` is the new room or the error.
pub open spec fn committed(
    old: Seq<EntryModel>,
    new: Seq<EntryModel>,
    i: int,
    cmd: CommandModel,
    cat: CatalogModel,
    res: Result<RoomModel, DomainError>,
) -> bool {
    exists|out: Result<(RoomModel, Seq<crate::commands::EventModel>), DomainError>|
        applied(Some(old[i].state), cmd, cat, out) && match out {
            Err(d) => res == Err::<RoomModel, DomainError>(d) && new == old,
            Ok((ns, _)) => res == Ok::<RoomModel, DomainError>(ns) && new == old.update(
                i,
                EntryModel {
                    state: ns,
                    published: old[i].published.push(ns.snapshot()),
                    ..old[i]
                },
            ),
        }
}

/// Where `rng` determines both picks of the round that `cmd` starts on
/// `room`, `res` is the room the rules give for those picks, or their error.
pub open spec fn picked<R: RngLike>(
    room: RoomModel,
    cmd: CommandModel,
    cat: CatalogModel,
    rng: R,
    res: Result<RoomModel, DomainError>,
) -> bool {
    match draw_sizes(Some(room), cmd, cat) {
        Some((n, m)) => match (rng.imposter_pick(n as usize), rng.topic_pick(m as usize)) {
            (Some(k), Some(j)) => res == match step(Some(room), cmd, cat, k as int, j as int) {
                Ok((ns, _)) => Ok::<RoomModel, DomainError>(ns),
                Err(d) => Err(d),
            },
            _ => true,
        },
        None => true,
    }
}

/// The outcome of `create_room_with_visibility`: the domain error of an
/// invalid room, `RoomAlreadyExists` for a taken code, or a new room whose
/// admin holds the returned token and whose snapshot was published.
pub open spec fn created(
    old: Seq<EntryModel>,
    new: Seq<EntryModel>,
    code: Seq<char>,
    nickname: Seq<char>,
    is_public: bool,
    r: Result<(RoomView, String), ServiceError>,
) -> bool {
    match create_rule(None, code, nickname) {
        Err(d) => r matches Err(e) && e@ == ServiceErrorModel::Domain(d) && new == old,
        Ok((room, _)) => match room_index(old, code) {
            Some(_) => r matches Err(e) && e@ == ServiceErrorModel::RoomAlreadyExists && new == old,
            None => r matches Ok((v, token)) && v@ == room.room_view() && uuid_text(token@) && new.len() == old.len() + 1
                && new.take(old.len() as int) == old && new[old.len() as int].code == code
                && new[old.len() as int].state == room
                && new[old.len() as int].tokens == seq![(sha256_hex(token@), room.players[0].id)]
                && new[old.len() as int].chat == Seq::<ChatModel>::empty()
                && new[old.len() as int].is_public == is_public
                && new[old.len() as int].published == seq![room.snapshot()]
                && new[old.len() as int].chats_published == Seq::<ChatModel>::empty(),
        },
    }
}

/// The outcome of starting (or restarting) a round in room `i` with the
/// random source `rng`: refused at the round-number limit; else the command
/// is carried out, with the source's picks where it determines them, and on success
/// the room's chat history is emptied and its snapshot returned.
pub open spec fn round_started<R: RngLike>(
    old: Seq<EntryModel>,
    new: Seq<EntryModel>,
    i: int,
    cmd: CommandModel,
    cat: CatalogModel,
    rng: R,
    r: Result<GameSnapshot, ServiceError>,
) -> bool {
    if round_limit(old[i].state) {
        r matches Err(x) && x@ == ServiceErrorModel::InvalidInput(round_limit_message()) && new == old
    } else {
        exists|mid: Seq<EntryModel>, res: Result<RoomModel, DomainError>|
            committed(old, mid, i, cmd, cat, res) && picked(old[i].state, cmd, cat, rng, res) && match res {
                Ok(ns) => r matches Ok(x) && x@ == ns.snapshot() && new == chat_cleared(mid, i),
                Err(d) => r matches Err(x) && x@ == ServiceErrorModel::Domain(d) && new == mid,
            }
    }
}

/// The outcome of `send_chat`: the member check, then the text (trimmed)
/// must be non-empty and at most `MAX_CHAT_LEN` bytes, the round must run
/// and the sender hold the turn; the turn then passes on and the message
/// is recorded and published.
pub open spec fn chat_sent(
    old: Seq<EntryModel>,
    new: Seq<EntryModel>,
    code: Seq<char>,
    text: Seq<char>,
    token: Seq<char>,
    cat: CatalogModel,
    r: Result<ChatMessage, ServiceError>,
) -> bool {
    match member_rule(old, code, token) {
        Err(e) => r matches Err(x) && x@ == e && new == old,
        Ok((i, p)) => {
            let t = trim(text);
            let st = old[i].state;
            if t.len() == 0 {
                r matches Err(x) && x@ == ServiceErrorModel::InvalidInput(chat_empty_message()) && new == old
            } else if encode_utf8(t).len() > MAX_CHAT_LEN {
                r matches Err(x) && x@ == ServiceErrorModel::InvalidInput(chat_too_long_message()) && new == old
            } else if st.phase != crate::model::GamePhase::InProgress || st.round is None {
                r matches Err(x) && x@ == ServiceErrorModel::Domain(DomainError::NotInProgress) && new == old
            } else if st.players[st.round->0.current_turn_index as int].id != p {
                r matches Err(x) && x@ == ServiceErrorModel::InvalidInput(chat_off_turn_message()) && new == old
            } else {
                match first_index(st.players, has_id(p)) {
                    None => r matches Err(x) && x@ == ServiceErrorModel::Domain(DomainError::PlayerNotFound) && new == old,
                    Some(k) => exists|mid: Seq<EntryModel>, res: Result<RoomModel, DomainError>|
                        committed(old, mid, i, CommandModel::NextTurn, cat, res) && match res {
                            Err(d) => r matches Err(x) && x@ == ServiceErrorModel::Domain(d) && new == mid,
                            Ok(_) => r matches Ok(m) && uuid_text(m@.id) && m@.room_code == code && m@.sender_player_id == p
                                && m@.sender_nickname == st.players[k].nickname && m@.text == t && new == mid.update(
                                i,
                                EntryModel {
                                    chat: chat_append(mid[i].chat, m@),
                                    chats_published: mid[i].chats_published.push(m@),
                                    ..mid[i]
                                },
                            ),
                        },
                }
            }
        },
    }
}

/// The outcome of `game_snapshot`.
pub open spec fn snapshot_read(rooms: Seq<EntryModel>, code: Seq<char>, r: Result<GameSnapshot, ServiceError>) -> bool {
    match room_index(rooms, code) {
        Some(i) => r matches Ok(s) && s@ == rooms[i].state.snapshot(),
        None => r matches Err(e) && e@ == ServiceErrorModel::RoomNotFound,
    }
}

/// The outcome of `my_role`.
pub open spec fn role_read(
    rooms: Seq<EntryModel>,
    code: Seq<char>,
    token: Seq<char>,
    r: Result<PrivateRoleView, ServiceError>,
) -> bool {
    match resolve_rule(rooms, code, token) {
        Err(e) => r matches Err(x) && x@ == e,
        Ok((i, p)) => match role_rule(rooms[i].state, p) {
            Ok(v) => r matches Ok(x) && x@ == v,
            Err(d) => r matches Err(x) && x@ == ServiceErrorModel::Domain(d),
        },
    }
}

/// The outcome of `list_public_rooms`: the summaries of the public rooms,
/// newest first.
pub open spec fn listed(rooms: Seq<EntryModel>, r: Vec<PublicRoomSummary>) -> bool {
    exists|order: Seq<int>|
        listing_order(rooms, order) && r@.len() == order.len() && forall|k: int|
            0 <= k < order.len() ==> (#[trigger] r@[k])@ == summary_of(rooms[order[k]])
}

/// The outcome of `join_room`.
pub open spec fn joined(
    before: Seq<EntryModel>,
    after: Seq<EntryModel>,
    code: Seq<char>,
    nickname: Seq<char>,
    r: Result<(RoomView, String), ServiceError>,
) -> bool {
    match room_index(before, code) {
        None => r matches Err(e) && e@ == ServiceErrorModel::RoomNotFound && after == before,
        Some(i) => {
            let st = before[i].state;
            if st.players.len() >= usize::MAX {
                r matches Err(e) && e@ == ServiceErrorModel::Domain(DomainError::RoomFull) && after == before
            } else {
                match join_rule(st, nickname) {
                    Err(d) => r matches Err(e) && e@ == ServiceErrorModel::Domain(d) && after == before,
                    Ok((ns, _)) => match first_index(ns.players, same_nickname(nickname, true)) {
                        None => r matches Err(e) && e@ == ServiceErrorModel::Domain(DomainError::PlayerNotFound)
                            && after == before,
                        Some(k) => r matches Ok((v, token)) && v@ == ns.room_view() && uuid_text(token@) && after =~= before.update(
                            i,
                            EntryModel {
                                state: ns,
                                published: before[i].published.push(ns.snapshot()),
                                tokens: token_insert(before[i].tokens, sha256_hex(token@), ns.players[k].id),
                                ..before[i]
                            },
                        ),
                    },
                }
            }
        },
    }
}

/// The outcome of `leave_room`.
pub open spec fn left(
    before: Seq<EntryModel>,
    after: Seq<EntryModel>,
    code: Seq<char>,
    token: Seq<char>,
    cat: CatalogModel,
    r: Result<RoomView, ServiceError>,
) -> bool {
    match member_rule(before, code, token) {
        Err(e) => r matches Err(x) && x@ == e && after == before,
        Ok((i, p)) => exists|mid: Seq<EntryModel>, res: Result<RoomModel, DomainError>|
            committed(before, mid, i, CommandModel::LeaveRoom { player_id: p }, cat, res) && match res {
                Ok(ns) => r matches Ok(v) && v@ == ns.room_view() && after == mid.update(
                    i,
                    EntryModel { tokens: token_remove(mid[i].tokens, sha256_hex(token)), ..mid[i] },
                ),
                Err(d) => r matches Err(x) && x@ == ServiceErrorModel::Domain(d) && after == mid,
            },
    }
}

/// The outcome of `set_category`.
pub open spec fn category_set(
    before: Seq<EntryModel>,
    after: Seq<EntryModel>,
    code: Seq<char>,
    category: Seq<char>,
    token: Seq<char>,
    cat: CatalogModel,
    r: Result<RoomView, ServiceError>,
) -> bool {
    match admin_rule(before, code, token) {
        Err(e) => r matches Err(x) && x@ == e && after == before,
        Ok((i, _)) => exists|res: Result<RoomModel, DomainError>|
            committed(before, after, i, CommandModel::SetCategory { category }, cat, res) && match res {
                Ok(ns) => r matches Ok(v) && v@ == ns.room_view(),
                Err(d) => r matches Err(x) && x@ == ServiceErrorModel::Domain(d),
            },
    }
}

/// The outcome of `start_game` (`cmd` is `StartGame`) or `restart_game`
/// (`cmd` is `RestartGame`).
pub open spec fn started<R: RngLike>(
    before: Seq<EntryModel>,
    after: Seq<EntryModel>,
    code: Seq<char>,
    token: Seq<char>,
    cmd: CommandModel,
    cat: CatalogModel,
    rng: R,
    r: Result<GameSnapshot, ServiceError>,
) -> bool {
    match admin_rule(before, code, token) {
        Err(e) => r matches Err(x) && x@ == e && after == before,
        Ok((i, _)) => round_started(before, after, i, cmd, cat, rng, r),
    }
}

/// The outcome of `end_game`.
pub open spec fn ended(
    before: Seq<EntryModel>,
    after: Seq<EntryModel>,
    code: Seq<char>,
    token: Seq<char>,
    cat: CatalogModel,
    r: Result<GameSnapshot, ServiceError>,
) -> bool {
    match admin_rule(before, code, token) {
        Err(e) => r matches Err(x) && x@ == e && after == before,
        Ok((i, _)) => exists|mid: Seq<EntryModel>, res: Result<RoomModel, DomainError>|
            committed(before, mid, i, CommandModel::EndGame, cat, res) && match res {
                Ok(ns) => r matches Ok(x) && x@ == ns.snapshot() && after == chat_cleared(mid, i),
                Err(d) => r matches Err(x) && x@ == ServiceErrorModel::Domain(d) && after == mid,
            },
    }
}

/// The outcome of `next_turn`.
pub open spec fn turn_passed(
    before: Seq<EntryModel>,
    after: Seq<EntryModel>,
    code: Seq<char>,
    token: Seq<char>,
    cat: CatalogModel,
    r: Result<TurnState, ServiceError>,
) -> bool {
    match admin_rule(before, code, token) {
        Err(e) => r matches Err(x) && x@ == e && after == before,
        Ok((i, _)) => exists|res: Result<RoomModel, DomainError>|
            committed(before, after, i, CommandModel::NextTurn, cat, res) && match res {
                Ok(ns) => match ns.snapshot().turn {
                    Some(t) => r matches Ok(x) && x@ == t,
                    None => r matches Err(x) && x@ == ServiceErrorModel::Domain(DomainError::NotInProgress),
                },
                Err(d) => r matches Err(x) && x@ == ServiceErrorModel::Domain(d),
            },
    }
}

/// The outcome of `guess_imposter`.
pub open spec fn guessed(
    before: Seq<EntryModel>,
    after: Seq<EntryModel>,
    code: Seq<char>,
    guessed_player_id: Seq<char>,
    token: Seq<char>,
    cat: CatalogModel,
    r: Result<SuspicionState, ServiceError>,
) -> bool {
    match member_rule(before, code, token) {
        Err(e) => r matches Err(x) && x@ == e && after == before,
        Ok((i, p)) => exists|res: Result<RoomModel, DomainError>|
            committed(
                before,
                after,
                i,
                CommandModel::GuessImposter { player_id: p, guessed_player_id },
                cat,
                res,
            ) && match res {
                Ok(ns) => match first_index(ns.snapshot().suspicions, submitted_by(p)) {
                    Some(k) => r matches Ok(x) && x@ == ns.snapshot().suspicions[k],
                    None => r matches Err(x) && x@ == ServiceErrorModel::Domain(DomainError::NotInProgress),
                },
                Err(d) => r matches Err(x) && x@ == ServiceErrorModel::Domain(d),
            },
    }
}

/// The outcome of `reveal_result`.
pub open spec fn revealed(
    before: Seq<EntryModel>,
    after: Seq<EntryModel>,
    code: Seq<char>,
    token: Seq<char>,
    cat: CatalogModel,
    r: Result<GameResult, ServiceError>,
) -> bool {
    match admin_rule(before, code, token) {
        Err(e) => r matches Err(x) && x@ == e && after == before,
        Ok((i, _)) => exists|res: Result<RoomModel, DomainError>|
            committed(before, after, i, CommandModel::RevealResult, cat, res) && match res {
                Ok(ns) => match ns.result {
                    Some(g) => r matches Ok(x) && x@ == g,
                    None => r matches Err(x) && x@ == ServiceErrorModel::Domain(DomainError::NotInProgress),
                },
                Err(d) => r matches Err(x) && x@ == ServiceErrorModel::Domain(d),
            },
    }
}

/// The outcome of `chat_history`.
pub open spec fn history_read(
    rooms: Seq<EntryModel>,
    code: Seq<char>,
    token: Seq<char>,
    r: Result<Vec<ChatMessage>, ServiceError>,
) -> bool {
    match member_rule(rooms, code, token) {
        Err(e) => r matches Err(x) && x@ == e,
        Ok((i, _)) => r matches Ok(v) && chats_model(v@) == rooms[i].chat,
    }
}

/// Holds of an admin player.
pub open spec fn is_admin_player() -> spec_fn(crate::model::PlayerModel) -> bool {
    |p: crate::model::PlayerModel| p.is_admin
}

/// The listing entry of a room: the host is the first admin, else the
/// first player; a room is joinable in the lobby while not full.
pub open spec fn summary_of(e: EntryModel) -> SummaryModel {
    let players = e.state.players;
    let connected = crate::invariants::connected_count(players);
    SummaryModel {
        code: e.state.code,
        host_nickname: match first_index(players, is_admin_player()) {
            Some(k) => players[k].nickname,
            None => if players.len() > 0 {
                players[0].nickname
            } else {
                "unknown"@
            },
        },
        phase: e.state.phase,
        category: e.state.category,
        connected_players: connected,
        total_players: players.len(),
        joinable: e.state.phase == crate::model::GamePhase::Lobby && connected < crate::rules::MAX_ROOM_PLAYERS,
    }
}

/// `order` lists each public room once, newest first.
pub open spec fn listing_order(rooms: Seq<EntryModel>, order: Seq<int>) -> bool {
    &&& forall|k: int| 0 <= k < order.len() ==> 0 <= #[trigger] order[k] < rooms.len() && rooms[order[k]].is_public
    &&& forall|a: int, b: int| 0 <= a < b < order.len() ==> #[trigger] order[a] != #[trigger] order[b]
    &&& forall|j: int| 0 <= j < rooms.len() && (#[trigger] rooms[j]).is_public ==> order.contains(j)
    &&& forall|a: int, b: int|
        0 <= a < b < order.len() ==> not_before(rooms[#[trigger] order[a]].created_at, rooms[#[trigger] order[b]].created_at)
}

/// `rooms` with the chat history of room `i` emptied.
pub open spec fn chat_cleared(rooms: Seq<EntryModel>, i: int) -> Seq<EntryModel> {
    rooms.update(i, EntryModel { chat: Seq::empty(), ..rooms[i] })
}

/// The room's round number cannot grow any further.
pub open spec fn round_limit(room: RoomModel) -> bool {
    room.round is Some && room.round->0.round_number == u32::MAX
}

/// Message of the error for a round that cannot be numbered.
pub open spec fn round_limit_message() -> Seq<char> {
    "round limit reached"@
}

/// Message of the error for an empty chat message.
pub open spec fn chat_empty_message() -> Seq<char> {
    "chat message cannot be empty"@
}

/// Message of the error for an overlong chat message.
pub open spec fn chat_too_long_message() -> Seq<char> {
    "chat message is too long (max 240 chars)"@
}

/// Message of the error for chat out of turn.
pub open spec fn chat_off_turn_message() -> Seq<char> {
    "chat is allowed only for the current turn player"@
}

/// Longest chat message, in UTF-8 bytes after trimming.
pub const MAX_CHAT_LEN: usize = 240;

impl<R: RngLike> GameService<R> {
    /// Every room of the service is well formed: the turn of its round, if
    /// any, is on a seat of the room.
    pub closed spec fn wf(&self) -> bool {
        forall|i: int| 0 <= i < self@.rooms.len() ==> #[trigger] self@.rooms[i].state.wf()
    }

    /// The random source the service draws rounds from.
    pub closed spec fn source(&self) -> R {
        self.rng
    }

    /// Creates a service with a custom random source and catalog.
    pub fn with_rng_and_catalog(store: InMemoryRoomStore, rng: R, catalog: TopicCatalog) -> (s: Self)
        requires
            forall|i: int| 0 <= i < store@.len() ==> #[trigger] store@[i].state.wf(),
        ensures
            s.wf(),
            s.source() == rng,
            s@.rooms == store@,
            s@.catalog == catalog@,
    {
        GameService { store, catalog, rng }
    }

    /// Query: categories
    pub fn categories(&self) -> (r: Vec<String>)
        ensures
            r@.map_values(|s: String| s@) == crate::topics::category_names(self@.catalog),
            forall|i: int, j: int| 0 <= i < j < r@.len() ==> crate::text::seq_lt(#[trigger] r@[i]@, #[trigger] r@[j]@),
    {
        self.catalog.categories()
    }

    /// Position of the room with the given code, or `RoomNotFound`.
    fn room(&self, code: &str) -> (r: Result<usize, ServiceError>)
        ensures
            match r {
                Ok(i) => room_index(self@.rooms, code@) == Some(i as int) && i < self@.rooms.len(),
                Err(e) => room_index(self@.rooms, code@) is None && e == ServiceError::RoomNotFound,
            },
    {
        proof {
            crate::rules::lemma_first_index_from(self@.rooms, crate::store::has_code(code@), 0);
        }
        match self.store.find(code) {
            Some(i) => Ok(i),
            None => Err(ServiceError::RoomNotFound),
        }
    }

    /// Query: gameSnapshot
    pub fn game_snapshot(&self, room_code: String) -> (r: Result<GameSnapshot, ServiceError>)
        requires
            self.wf(),
        ensures
            snapshot_read(self@.rooms, room_code@, r),
    {
        let i = self.room(room_code.as_str())?;
        let entry = self.store.entry(i);
        assert(self@.rooms[i as int].state.wf());
        Ok(entry.state.snapshot())
    }

    /// The room and player that `session` stands for.
    fn resolve_player_id(&self, room_code: &str, session: &Session) -> (r: Result<
        (usize, String),
        ServiceError,
    >)
        ensures
            match r {
                Ok((j, q)) => resolve_rule(self@.rooms, room_code@, session.token@) == Ok::<_, ServiceErrorModel>((j as int, q@))
                    && j < self@.rooms.len(),
                Err(x) => resolve_rule(self@.rooms, room_code@, session.token@) == Err::<(int, Seq<char>), _>(x@),
            },
    {
        let i = self.room(room_code)?;
        let h = hash_token(session.token.as_str());
        match self.store.entry(i).lookup_token(&h) {
            Some(p) => Ok((i, p)),
            None => Err(ServiceError::InvalidSession),
        }
    }

    /// The room and player of a caller that must be a connected member.
    fn require_member(&self, room_code: &str, session: &Session) -> (r: Result<
        (usize, String),
        ServiceError,
    >)
        ensures
            match r {
                Ok((j, q)) => member_rule(self@.rooms, room_code@, session.token@) == Ok::<_, ServiceErrorModel>((j as int, q@))
                    && j < self@.rooms.len(),
                Err(x) => member_rule(self@.rooms, room_code@, session.token@) == Err::<(int, Seq<char>), _>(x@),
            },
    {
        let (i, p) = self.resolve_player_id(room_code, session)?;
        if !self.store.entry(i).state.is_member(p.as_str()) {
            return Err(ServiceError::Forbidden);
        }
        Ok((i, p))
    }

    /// The room and player of a caller that must be the room admin.
    fn require_admin(&self, room_code: &str, session: &Session) -> (r: Result<
        (usize, String),
        ServiceError,
    >)
        ensures
            match r {
                Ok((j, q)) => admin_rule(self@.rooms, room_code@, session.token@) == Ok::<_, ServiceErrorModel>((j as int, q@))
                    && j < self@.rooms.len(),
                Err(x) => admin_rule(self@.rooms, room_code@, session.token@) == Err::<(int, Seq<char>), _>(x@),
            },
    {
        let (i, p) = self.resolve_player_id(room_code, session)?;
        if !self.store.entry(i).state.is_admin(p.as_str()) {
            return Err(ServiceError::Forbidden);
        }
        Ok((i, p))
    }

    /// Query: myRole
    pub fn my_role(&self, room_code: String, session: Session) -> (r: Result<
        PrivateRoleView,
        ServiceError,
    >)
        ensures
            role_read(self@.rooms, room_code@, session.token@, r),
    {
        let (i, p) = self.resolve_player_id(room_code.as_str(), &session)?;
        match private_role_view(&self.store.entry(i).state, p.as_str()) {
            Ok(v) => Ok(v),
            Err(d) => Err(ServiceError::Domain(d)),
        }
    }

    /// Returns topic metadata by id.
    pub fn topic_by_id(&self, topic_id: &str) -> (r: Option<Topic>)
        ensures
            match r {
                Some(t) => exists|k: int|
                    0 <= k < crate::topics::all_topics(self@.catalog).len()
                        && crate::topics::all_topics(self@.catalog)[k] == t@ && t@.id == topic_id@
                        && forall|j: int|
                        0 <= j < k ==> (#[trigger] crate::topics::all_topics(self@.catalog)[j]).id
                            != topic_id@,
                None => forall|k: int|
                    0 <= k < crate::topics::all_topics(self@.catalog).len() ==> (
                    #[trigger] crate::topics::all_topics(self@.catalog)[k]).id != topic_id@,
            },
    {
        assert(self@.catalog == self.catalog@);
        match self.catalog.topic_by_id(topic_id) {
            Some(t) => {
                let c: Topic = *t;
                assert(c@ == t@);
                Some(c)
            },
            None => None,
        }
    }
}

impl<R: RngLike> GameService<R> {
    /// Carries out `cmd` on room `i`: on success the new state is stored and
    /// its snapshot published, and a copy of it is returned.
    fn run(&mut self, i: usize, cmd: Command) -> (r: Result<RoomState, DomainError>)
        requires
            old(self).wf(),
            i < old(self)@.rooms.len(),
            crate::rules::within_limits(Some(old(self)@.rooms[i as int].state), cmd@),
        ensures
            final(self).wf(),
            final(self)@.catalog == old(self)@.catalog,
            committed(
                old(self)@.rooms,
                final(self)@.rooms,
                i as int,
                cmd@,
                old(self)@.catalog,
                match r {
                    Ok(s) => Ok::<RoomModel, DomainError>(s@),
                    Err(d) => Err::<RoomModel, DomainError>(d),
                },
            ),
            picked(
                old(self)@.rooms[i as int].state,
                cmd@,
                old(self)@.catalog,
                old(self).rng,
                match r {
                    Ok(s) => Ok::<RoomModel, DomainError>(s@),
                    Err(d) => Err::<RoomModel, DomainError>(d),
                },
            ),
            draw_sizes(Some(old(self)@.rooms[i as int].state), cmd@, old(self)@.catalog) is None ==> same_picks(
                &final(self).rng,
                &old(self).rng,
            ),
            r matches Ok(s) ==> s@.wf(),
    {
        let ghost cm = cmd@;
        let ghost old_rooms = self@.rooms;
        assert(old_rooms[i as int].state.wf());
        let res = apply(Some(&self.store.entry(i).state), cmd, &self.catalog, &mut self.rng);
        match res {
            Ok((new_state, events)) => {
                let copy = new_state.copy();
                self.store.commit_state(i, new_state);
                proof {
                    let out = outcome(Ok::<_, DomainError>((new_state, events)));
                    assert(applied(Some(old_rooms[i as int].state), cm, self@.catalog, out));
                    assert forall|k: int| 0 <= k < self@.rooms.len() implies #[trigger] self@.rooms[k].state.wf() by {
                        if k != i {
                            assert(self@.rooms[k] == old_rooms[k]);
                        }
                    }
                }
                Ok(copy)
            },
            Err(d) => {
                proof {
                    let out = outcome(Err::<(RoomState, Vec<crate::commands::DomainEvent>), DomainError>(d));
                    assert(applied(Some(old_rooms[i as int].state), cm, self@.catalog, out));
                }
                Err(d)
            },
        }
    }

    /// Mutation: createRoom
    pub fn create_room(&mut self, code: String, nickname: String) -> (r: Result<(RoomView, String), ServiceError>)
        requires
            old(self).wf(),
        ensures
            final(self).wf(),
            final(self)@.catalog == old(self)@.catalog,
            same_picks(&final(self).source(), &old(self).source()),
            created(old(self)@.rooms, final(self)@.rooms, code@, nickname@, false, r),
    {
        self.create_room_with_visibility(code, nickname, false)
    }

    /// Mutation: createRoom with explicit public visibility.
    pub fn create_room_with_visibility(&mut self, code: String, nickname: String, is_public: bool) -> (r: Result<
        (RoomView, String),
        ServiceError,
    >)
        requires
            old(self).wf(),
        ensures
            final(self).wf(),
            final(self)@.catalog == old(self)@.catalog,
            same_picks(&final(self).source(), &old(self).source()),
            created(old(self)@.rooms, final(self)@.rooms, code@, nickname@, is_public, r),
    {
        let token = random_uuid();
        let token_hash = hash_token(token.as_str());
        let ghost cm = CommandModel::CreateRoom { code: code@, nickname: nickname@, token_hash: token_hash@ };
        let res = apply(
            None,
            Command::CreateRoom { code: code.clone(), nickname, token_hash: token_hash.clone() },
            &self.catalog,
            &mut self.rng,
        );
        let state = match res {
            Ok((state, _)) => state,
            Err(d) => {
                return Err(ServiceError::Domain(d));
            },
        };
        assert(state@.players.len() == 1);
        let admin_id = state.players[0].id.clone();
        let view = RoomView::from_room(&state);
        let keep = state.copy();
        let ghost old_rooms = self@.rooms;
        let i = self.store.create_room(code.as_str(), state, is_public)?;
        self.store.insert_token(i, token_hash, admin_id);
        self.store.commit_state(i, keep);
        proof {
            assert(crate::rules::first_index_from(Seq::<(Seq<char>, Seq<char>)>::empty(), crate::store::has_hash(token_hash@), 0) is None);
            assert(self@.rooms.take(i as int) =~= old_rooms);
            assert forall|k: int| 0 <= k < self@.rooms.len() implies #[trigger] self@.rooms[k].state.wf() by {
                if k < i {
                    assert(self@.rooms.take(i as int)[k] == self@.rooms[k]);
                }
            }
        }
        Ok((view, token))
    }

    /// Mutation: joinRoom
    pub fn join_room(&mut self, code: String, nickname: String) -> (r: Result<(RoomView, String), ServiceError>)
        requires
            old(self).wf(),
        ensures
            final(self).wf(),
            final(self)@.catalog == old(self)@.catalog,
            same_picks(&final(self).source(), &old(self).source()),
            joined(old(self)@.rooms, final(self)@.rooms, code@, nickname@, r),
    {
        let token = random_uuid();
        let token_hash = hash_token(token.as_str());
        let i = self.room(code.as_str())?;
        let ghost old_rooms = self@.rooms;
        proof {
            assert(old_rooms[i as int].state.wf());
        }
        if self.store.entry(i).state.players.len() == usize::MAX {
            return Err(ServiceError::Domain(DomainError::RoomFull));
        }
        let nick = char_vec(nickname.as_str());
        let ghost nm = nickname@;
        let res = apply(
            Some(&self.store.entry(i).state),
            Command::JoinRoom { nickname, token_hash: token_hash.clone() },
            &self.catalog,
            &mut self.rng,
        );
        let new_state = match res {
            Ok((new_state, _)) => new_state,
            Err(d) => {
                return Err(ServiceError::Domain(d));
            },
        };
        let k = match crate::transitions::find_player_by_nickname(&new_state.players, &nick, true) {
            Some(k) => k,
            None => {
                return Err(ServiceError::Domain(DomainError::PlayerNotFound));
            },
        };
        proof {
            crate::rules::lemma_first_index_from(crate::model::players_model(new_state.players@), same_nickname(nm, true), 0);
        }
        let player_id = new_state.players[k].id.clone();
        let view = RoomView::from_room(&new_state);
        self.store.commit_state(i, new_state);
        self.store.insert_token(i, token_hash, player_id);
        proof {
            assert forall|q: int| 0 <= q < self@.rooms.len() implies #[trigger] self@.rooms[q].state.wf() by {
                if q != i {
                    assert(self@.rooms[q] == old_rooms[q]);
                }
            }
        }
        Ok((view, token))
    }

    /// Mutation: leaveRoom
    pub fn leave_room(&mut self, code: String, session: Session) -> (r: Result<RoomView, ServiceError>)
        requires
            old(self).wf(),
        ensures
            final(self).wf(),
            final(self)@.catalog == old(self)@.catalog,
            same_picks(&final(self).source(), &old(self).source()),
            left(old(self)@.rooms, final(self)@.rooms, code@, session.token@, old(self)@.catalog, r),
    {
        let (i, player_id) = self.require_member(code.as_str(), &session)?;
        let token_hash = hash_token(session.token.as_str());
        match self.run(i, Command::LeaveRoom { player_id }) {
            Ok(s) => {
                let ghost mid = self@.rooms;
                self.store.remove_token(i, &token_hash);
                proof {
                    assert forall|q: int| 0 <= q < self@.rooms.len() implies #[trigger] self@.rooms[q].state.wf() by {
                        assert(self@.rooms[q].state == mid[q].state);
                    }
                }
                Ok(RoomView::from_room(&s))
            },
            Err(d) => Err(ServiceError::Domain(d)),
        }
    }

    /// Empties the chat history of room `i`.
    fn clear_chat_history(&mut self, i: usize)
        requires
            old(self).wf(),
            i < old(self)@.rooms.len(),
        ensures
            final(self).wf(),
            final(self)@.catalog == old(self)@.catalog,
            final(self)@.rooms == chat_cleared(old(self)@.rooms, i as int),
            final(self).rng == old(self).rng,
    {
        let ghost before = self@.rooms;
        self.store.clear_chat(i);
        proof {
            assert forall|q: int| 0 <= q < self@.rooms.len() implies #[trigger] self@.rooms[q].state.wf() by {
                assert(self@.rooms[q].state == before[q].state);
            }
        }
    }

    /// Carries out a round start (`restart` false) or restart on room `i`,
    /// then empties its chat history.
    fn begin_round(&mut self, i: usize, restart: bool) -> (r: Result<GameSnapshot, ServiceError>)
        requires
            old(self).wf(),
            i < old(self)@.rooms.len(),
        ensures
            final(self).wf(),
            final(self)@.catalog == old(self)@.catalog,
            round_started(old(self)@.rooms, final(self)@.rooms, i as int, if restart {
                CommandModel::RestartGame
            } else {
                CommandModel::StartGame
            }, old(self)@.catalog, old(self).rng, r),
    {
        let limit = match &self.store.entry(i).state.round {
            Some(rd) => rd.round_number == u32::MAX,
            None => false,
        };
        if limit {
            proof {
                reveal_strlit("round limit reached");
            }
            return Err(ServiceError::InvalidInput("round limit reached".to_owned()));
        }
        proof {
            assert(self@.rooms[i as int].state.wf());
        }
        let cmd = if restart {
            Command::RestartGame
        } else {
            Command::StartGame
        };
        match self.run(i, cmd) {
            Ok(s) => {
                self.clear_chat_history(i);
                Ok(s.snapshot())
            },
            Err(d) => Err(ServiceError::Domain(d)),
        }
    }

    /// Mutation: startGame
    pub fn start_game(&mut self, code: String, session: Session) -> (r: Result<GameSnapshot, ServiceError>)
        requires
            old(self).wf(),
        ensures
            final(self).wf(),
            final(self)@.catalog == old(self)@.catalog,
            started(old(self)@.rooms, final(self)@.rooms, code@, session.token@, CommandModel::StartGame, old(self)@.catalog, old(self).source(), r),
    {
        let (i, _) = self.require_admin(code.as_str(), &session)?;
        self.begin_round(i, false)
    }

    /// Mutation: restartGame
    pub fn restart_game(&mut self, code: String, session: Session) -> (r: Result<GameSnapshot, ServiceError>)
        requires
            old(self).wf(),
        ensures
            final(self).wf(),
            final(self)@.catalog == old(self)@.catalog,
            started(old(self)@.rooms, final(self)@.rooms, code@, session.token@, CommandModel::RestartGame, old(self)@.catalog, old(self).source(), r),
    {
        let (i, _) = self.require_admin(code.as_str(), &session)?;
        self.begin_round(i, true)
    }

    /// Mutation: endGame
    pub fn end_game(&mut self, code: String, session: Session) -> (r: Result<GameSnapshot, ServiceError>)
        requires
            old(self).wf(),
        ensures
            final(self).wf(),
            final(self)@.catalog == old(self)@.catalog,
            same_picks(&final(self).source(), &old(self).source()),
            ended(old(self)@.rooms, final(self)@.rooms, code@, session.token@, old(self)@.catalog, r),
    {
        let (i, _) = self.require_admin(code.as_str(), &session)?;
        match self.run(i, Command::EndGame) {
            Ok(s) => {
                self.clear_chat_history(i);
                Ok(s.snapshot())
            },
            Err(d) => Err(ServiceError::Domain(d)),
        }
    }

    /// Mutation: nextTurn
    pub fn next_turn(&mut self, code: String, session: Session) -> (r: Result<TurnState, ServiceError>)
        requires
            old(self).wf(),
        ensures
            final(self).wf(),
            final(self)@.catalog == old(self)@.catalog,
            same_picks(&final(self).source(), &old(self).source()),
            turn_passed(old(self)@.rooms, final(self)@.rooms, code@, session.token@, old(self)@.catalog, r),
    {
        let (i, _) = self.require_admin(code.as_str(), &session)?;
        match self.run(i, Command::NextTurn) {
            Ok(s) => match s.snapshot().turn {
                Some(t) => Ok(t),
                None => Err(ServiceError::Domain(DomainError::NotInProgress)),
            },
            Err(d) => Err(ServiceError::Domain(d)),
        }
    }

    /// Mutation: guessImposter
    pub fn guess_imposter(&mut self, code: String, guessed_player_id: String, session: Session) -> (r: Result<
        SuspicionState,
        ServiceError,
    >)
        requires
            old(self).wf(),
        ensures
            final(self).wf(),
            final(self)@.catalog == old(self)@.catalog,
            same_picks(&final(self).source(), &old(self).source()),
            guessed(old(self)@.rooms, final(self)@.rooms, code@, guessed_player_id@, session.token@, old(self)@.catalog, r),
    {
        let (i, player_id) = self.require_member(code.as_str(), &session)?;
        let pid = player_id.clone();
        match self.run(i, Command::GuessImposter { player_id, guessed_player_id }) {
            Ok(s) => {
                let snapshot = s.snapshot();
                match crate::transitions::find_suspicion_by(&snapshot.suspicions, &pid) {
                    Some(k) => {
                        proof {
                            crate::rules::lemma_first_index_from(crate::model::suspicions_model(snapshot.suspicions@), submitted_by(pid@), 0);
                        }
                        Ok(snapshot.suspicions[k].copy())
                    },
                    None => Err(ServiceError::Domain(DomainError::NotInProgress)),
                }
            },
            Err(d) => Err(ServiceError::Domain(d)),
        }
    }

    /// Mutation: revealResult
    pub fn reveal_result(&mut self, code: String, session: Session) -> (r: Result<GameResult, ServiceError>)
        requires
            old(self).wf(),
        ensures
            final(self).wf(),
            final(self)@.catalog == old(self)@.catalog,
            same_picks(&final(self).source(), &old(self).source()),
            revealed(old(self)@.rooms, final(self)@.rooms, code@, session.token@, old(self)@.catalog, r),
    {
        let (i, _) = self.require_admin(code.as_str(), &session)?;
        match self.run(i, Command::RevealResult) {
            Ok(s) => match s.snapshot().result {
                Some(g) => Ok(g),
                None => Err(ServiceError::Domain(DomainError::NotInProgress)),
            },
            Err(d) => Err(ServiceError::Domain(d)),
        }
    }

    /// Query: chatHistory
    pub fn chat_history(&self, code: String, session: Session) -> (r: Result<Vec<ChatMessage>, ServiceError>)
        ensures
            history_read(self@.rooms, code@, session.token@, r),
    {
        let (i, _) = self.require_member(code.as_str(), &session)?;
        Ok(crate::types::copy_chats(&self.store.entry(i).chat_messages))
    }

    /// Subscription primitive used by transports to push `gameUpdated`.
    pub fn subscribe_game_updated(&self, code: String) -> (r: Result<tokio::sync::broadcast::Receiver<GameSnapshot>, ServiceError>)
        ensures
            r is Ok <==> room_index(self@.rooms, code@) is Some,
            r matches Err(e) ==> e@ == ServiceErrorModel::RoomNotFound,
    {
        let i = self.room(code.as_str())?;
        Ok(broadcast_subscribe(&self.store.entry(i).game_updated_tx))
    }

    /// Subscription primitive for transports to push `chatMessage`.
    pub fn subscribe_chat_messages(&self, code: String) -> (r: Result<tokio::sync::broadcast::Receiver<ChatMessage>, ServiceError>)
        ensures
            r is Ok <==> room_index(self@.rooms, code@) is Some,
            r matches Err(e) ==> e@ == ServiceErrorModel::RoomNotFound,
    {
        let i = self.room(code.as_str())?;
        Ok(broadcast_subscribe(&self.store.entry(i).chat_tx))
    }

    /// Mutation: sendChat. Only the player whose turn it is may chat; a
    /// message passes the turn on.
    pub fn send_chat(&mut self, code: String, text: String, session: Session) -> (r: Result<ChatMessage, ServiceError>)
        requires
            old(self).wf(),
        ensures
            final(self).wf(),
            final(self)@.catalog == old(self)@.catalog,
            same_picks(&final(self).source(), &old(self).source()),
            chat_sent(old(self)@.rooms, final(self)@.rooms, code@, text@, session.token@, old(self)@.catalog, r),
    {
        let (i, sender_player_id) = self.require_member(code.as_str(), &session)?;
        let chars = char_vec(text.as_str());
        let (lo, hi) = trim_bounds(&chars);
        if lo == hi {
            proof {
                reveal_strlit("chat message cannot be empty");
            }
            return Err(ServiceError::InvalidInput("chat message cannot be empty".to_owned()));
        }
        if !utf8_len_within(&chars, lo, hi, MAX_CHAT_LEN) {
            proof {
                reveal_strlit("chat message is too long (max 240 chars)");
            }
            return Err(ServiceError::InvalidInput("chat message is too long (max 240 chars)".to_owned()));
        }
        let trimmed = text.as_str().substring_char(lo, hi).to_owned();
        let ghost old_rooms = self@.rooms;
        proof {
            assert(old_rooms[i as int].state.wf());
        }
        let state = &self.store.entry(i).state;
        if state.phase != crate::model::GamePhase::InProgress {
            return Err(ServiceError::Domain(DomainError::NotInProgress));
        }
        let current = match &state.round {
            Some(rd) => rd.current_turn_index,
            None => {
                return Err(ServiceError::Domain(DomainError::NotInProgress));
            },
        };
        if state.players[current].id != sender_player_id {
            proof {
                reveal_strlit("chat is allowed only for the current turn player");
            }
            return Err(ServiceError::InvalidInput("chat is allowed only for the current turn player".to_owned()));
        }
        let k = match crate::transitions::find_player_by_id(&state.players, &sender_player_id) {
            Some(k) => k,
            None => {
                return Err(ServiceError::Domain(DomainError::PlayerNotFound));
            },
        };
        proof {
            crate::rules::lemma_first_index_from(crate::model::players_model(state.players@), has_id(sender_player_id@), 0);
        }
        let sender_nickname = state.players[k].nickname.clone();
        match self.run(i, Command::NextTurn) {
            Ok(_) => {},
            Err(d) => {
                return Err(ServiceError::Domain(d));
            },
        }
        let message = ChatMessage {
            id: random_uuid(),
            room_code: code,
            sender_player_id,
            sender_nickname,
            text: trimmed,
            created_at: now_utc(),
        };
        let ghost mid = self@.rooms;
        self.store.record_chat(i, message.copy());
        proof {
            assert forall|q: int| 0 <= q < self@.rooms.len() implies #[trigger] self@.rooms[q].state.wf() by {
                assert(self@.rooms[q].state == mid[q].state);
            }
        }
        Ok(message)
    }

    /// The listing entry of room `i`.
    fn summary(&self, i: usize) -> (r: PublicRoomSummary)
        requires
            i < self@.rooms.len(),
        ensures
            r@ == summary_of(self@.rooms[i as int]),
    {
        let state = &self.store.entry(i).state;
        let ghost ps = crate::model::players_model(state.players@);
        let connected = crate::transitions::connected_player_indices(&state.players).len();
        let n = state.players.len();
        let host = first_admin(&state.players);
        proof {
            crate::rules::lemma_first_index_from(ps, is_admin_player(), 0);
        }
        let host_nickname = match host {
            Some(h) => state.players[h].nickname.clone(),
            None => if n > 0 {
                state.players[0].nickname.clone()
            } else {
                proof {
                    reveal_strlit("unknown");
                }
                "unknown".to_owned()
            },
        };
        PublicRoomSummary {
            code: state.code.clone(),
            host_nickname,
            phase: state.phase,
            category: crate::model::copy_opt_string(&state.category),
            connected_players: connected,
            total_players: n,
            joinable: state.phase == crate::model::GamePhase::Lobby && connected < crate::rules::MAX_ROOM_PLAYERS,
        }
    }

    /// Query: listRooms. The public rooms, newest first.
    pub fn list_public_rooms(&self) -> (r: Vec<PublicRoomSummary>)
        ensures
            listed(self@.rooms, r),
    {
        let ghost rooms = self@.rooms;
        let n = self.store.len();
        let mut order: Vec<usize> = Vec::new();
        for j in 0..n
            invariant
                n == rooms.len(),
                rooms == self@.rooms,
                forall|k: int| 0 <= k < order@.len() ==> (#[trigger] order@[k]) < j && rooms[order@[k] as int].is_public,
                forall|a: int, b: int| 0 <= a < b < order@.len() ==> #[trigger] order@[a] != #[trigger] order@[b],
                forall|q: int| 0 <= q < j && (#[trigger] rooms[q]).is_public ==> exists|k: int| 0 <= k < order@.len() && order@[k] == q,
                forall|a: int, b: int|
                    0 <= a < b < order@.len() ==> not_before(rooms[#[trigger] order@[a] as int].created_at, rooms[#[trigger] order@[b] as int].created_at),
        {
            if self.store.entry(j).is_public {
                let created = self.store.entry(j).created_at;
                let m = order.len();
                let mut pos: usize = 0;
                while pos < m && self.store.entry(order[pos]).created_at.not_before(&created)
                    invariant
                        m == order@.len(),
                        pos <= m,
                        rooms == self@.rooms,
                        n == rooms.len(),
                        forall|k: int| 0 <= k < order@.len() ==> (#[trigger] order@[k]) < j && j < n,
                        created == rooms[j as int].created_at,
                        forall|k: int| 0 <= k < pos ==> not_before(rooms[(#[trigger] order@[k]) as int].created_at, created),
                    decreases m - pos,
                {
                    pos = pos + 1;
                }
                let ghost old_order = order@;
                order.insert(pos, j);
                proof {
                    assert forall|a: int, b: int|
                        0 <= a < b < order@.len() implies not_before(rooms[#[trigger] order@[a] as int].created_at, rooms[#[trigger] order@[b] as int].created_at) by {
                        if b < pos {
                        } else if a < pos && b == pos {
                        } else if a < pos && b > pos {
                            assert(order@[b] == old_order[b - 1]);
                        } else if a == pos {
                            assert(order@[b] == old_order[b - 1]);
                            if pos < m {
                                assert(!not_before(rooms[old_order[pos as int] as int].created_at, created));
                                if b - 1 > pos {
                                    assert(not_before(rooms[old_order[pos as int] as int].created_at, rooms[old_order[b - 1] as int].created_at));
                                }
                            }
                        } else {
                            assert(order@[a] == old_order[a - 1]);
                            assert(order@[b] == old_order[b - 1]);
                        }
                    }
                    assert forall|a: int, b: int| 0 <= a < b < order@.len() implies #[trigger] order@[a] != #[trigger] order@[b] by {
                        if a < pos && b > pos {
                            assert(order@[b] == old_order[b - 1]);
                        } else if a > pos {
                            assert(order@[a] == old_order[a - 1]);
                            assert(order@[b] == old_order[b - 1]);
                        } else if a == pos {
                            assert(order@[b] == old_order[b - 1]);
                        }
                    }
                    assert forall|q: int| 0 <= q < j + 1 && (#[trigger] rooms[q]).is_public implies exists|k: int| 0 <= k < order@.len() && order@[k] == q by {
                        if q == j {
                            assert(order@[pos as int] == q);
                        } else {
                            let k = choose|k: int| 0 <= k < old_order.len() && old_order[k] == q;
                            if k < pos {
                                assert(order@[k] == q);
                            } else {
                                assert(order@[k + 1] == q);
                            }
                        }
                    }
                    assert forall|k: int| 0 <= k < order@.len() implies (#[trigger] order@[k]) < j + 1 && rooms[order@[k] as int].is_public by {
                        if k < pos {
                        } else if k > pos {
                            assert(order@[k] == old_order[k - 1]);
                        }
                    }
                }
            }
        }
        let mut r: Vec<PublicRoomSummary> = Vec::new();
        let m = order.len();
        for k in 0..m
            invariant
                m == order@.len(),
                rooms == self@.rooms,
                forall|q: int| 0 <= q < m ==> (#[trigger] order@[q]) < rooms.len(),
                r@.len() == k,
                forall|q: int| 0 <= q < k ==> (#[trigger] r@[q])@ == summary_of(rooms[order@[q] as int]),
        {
            r.push(self.summary(order[k]));
        }
        proof {
            let ord = order@.map_values(|x: usize| x as int);
            assert forall|q: int| 0 <= q < rooms.len() && (#[trigger] rooms[q]).is_public implies ord.contains(q) by {
                let k = choose|k: int| 0 <= k < order@.len() && order@[k] == q;
                assert(ord[k] == q);
            }
            assert(listing_order(rooms, ord));
        }
        r
    }

    /// Mutation: setCategory
    pub fn set_category(&mut self, code: String, category: String, session: Session) -> (r: Result<
        RoomView,
        ServiceError,
    >)
        requires
            old(self).wf(),
        ensures
            final(self).wf(),
            final(self)@.catalog == old(self)@.catalog,
            same_picks(&final(self).source(), &old(self).source()),
            category_set(old(self)@.rooms, final(self)@.rooms, code@, category@, session.token@, old(self)@.catalog, r),
    {
        let (i, _) = self.require_admin(code.as_str(), &session)?;
        match self.run(i, Command::SetCategory { category }) {
            Ok(s) => Ok(RoomView::from_room(&s)),
            Err(d) => Err(ServiceError::Domain(d)),
        }
    }
}

/// Position of the first admin player.
fn first_admin(players: &Vec<crate::model::PlayerState>) -> (r: Option<usize>)
    ensures
        crate::transitions::opt_int(r) == first_index(crate::model::players_model(players@), is_admin_player()),
{
    let ghost ps = crate::model::players_model(players@);
    let n = players.len();
    for i in 0..n
        invariant
            n == players@.len() == ps.len(),
            ps == crate::model::players_model(players@),
            first_index(ps, is_admin_player()) == crate::rules::first_index_from(ps, is_admin_player(), i as int),
    {
        if players[i].is_admin {
            return Some(i);
        }
    }
    None
}

impl GameService<ProductionRng> {
    /// Creates a service with the production random source and the default catalog.
    pub fn new(store: InMemoryRoomStore) -> (s: Self)
        requires
            forall|i: int| 0 <= i < store@.len() ==> #[trigger] store@[i].state.wf(),
        ensures
            s.wf(),
            s@.rooms == store@,
            s@.catalog == crate::topics::default_catalog_model(),
            s.source() == ProductionRng,
    {
        Self::with_rng_and_catalog(store, ProductionRng, default_catalog())
    }
}

/// Builds the default service for the server runtime.
pub fn build_default_service() -> (s: GameService<ProductionRng>)
    ensures
        s.wf(),
        s@.rooms == Seq::<EntryModel>::empty(),
        s@.catalog == crate::topics::default_catalog_model(),
{
    GameService::new(InMemoryRoomStore::default())
}

} // verus!
