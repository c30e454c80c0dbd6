//! In-memory room storage: per-room state, session tokens, chat history
//! and the broadcast channels of each room.

use vstd::prelude::*;

use crate::errors::ServiceError;
use crate::model::{GameSnapshot, RoomModel, RoomState, SnapshotModel};
use crate::platform::{broadcast_channel, broadcast_send, now_utc};
use crate::rules::{first_index, first_index_from};
use crate::types::{chats_model, ChatMessage, ChatModel, Timestamp};
use tokio::sync::broadcast::Sender;

verus! {

/// Session token hashes and the player ids they stand for, in insertion order.
pub type TokenModel = Seq<(Seq<char>, Seq<char>)>;

/// Holds of the entry for token hash `h`.
pub open spec fn has_hash(h: Seq<char>) -> spec_fn((Seq<char>, Seq<char>)) -> bool {
    |e: (Seq<char>, Seq<char>)| e.0 == h
}

/// The player id that token hash `h` stands for.
pub open spec fn token_lookup(t: TokenModel, h: Seq<char>) -> Option<Seq<char>> {
    match first_index(t, has_hash(h)) {
        Some(i) => Some(t[i].1),
        None => None,
    }
}

/// `t` with token hash `h` standing for `player_id`: an entry for `h` is
/// overwritten in place, else one is appended.
pub open spec fn token_insert(t: TokenModel, h: Seq<char>, player_id: Seq<char>) -> TokenModel {
    match first_index(t, has_hash(h)) {
        Some(i) => t.update(i, (h, player_id)),
        None => t.push((h, player_id)),
    }
}

/// `t` without the entries for token hash `h`.
pub open spec fn token_remove(t: TokenModel, h: Seq<char>) -> TokenModel
    decreases t.len(),
{
    if t.len() == 0 {
        t
    } else if t.last().0 == h {
        token_remove(t.drop_last(), h)
    } else {
        token_remove(t.drop_last(), h).push(t.last())
    }
}

pub open spec fn tokens_model(v: Seq<(String, String)>) -> TokenModel {
    v.map_values(|e: (String, String)| (e.0@, e.1@))
}

/// Chat history keeps the newest messages only.
pub const MAX_CHAT_HISTORY: usize = 120;

/// `chat` with `m` appended, keeping the newest `MAX_CHAT_HISTORY` messages.
pub open spec fn chat_append(chat: Seq<ChatModel>, m: ChatModel) -> Seq<ChatModel> {
    let all = chat.push(m);
    if all.len() > MAX_CHAT_HISTORY {
        all.subrange(all.len() - MAX_CHAT_HISTORY, all.len() as int)
    } else {
        all
    }
}

/// One room of the store.
pub struct RoomEntry {
    pub code: String,
    pub state: RoomState,
    pub game_updated_tx: Sender<GameSnapshot>,
    pub chat_messages: Vec<ChatMessage>,
    pub chat_tx: Sender<ChatMessage>,
    pub token_index: Vec<(String, String)>,
    pub created_at: Timestamp,
    pub is_public: bool,
    pub published: Ghost<Seq<SnapshotModel>>,
    pub chats_published: Ghost<Seq<ChatModel>>,
}

#[verifier::ext_equal]
pub struct EntryModel {
    pub code: Seq<char>,
    pub state: RoomModel,
    pub tokens: TokenModel,
    pub chat: Seq<ChatModel>,
    pub created_at: Timestamp,
    pub is_public: bool,
    /// The snapshots sent on the room's `gameUpdated` channel, in order.
    pub published: Seq<SnapshotModel>,
    /// The messages sent on the room's chat channel, in order.
    pub chats_published: Seq<ChatModel>,
}

impl View for RoomEntry {
    type V = EntryModel;

    open spec fn view(&self) -> EntryModel {
        EntryModel {
            code: self.code@,
            state: self.state@,
            tokens: tokens_model(self.token_index@),
            chat: chats_model(self.chat_messages@),
            created_at: self.created_at,
            is_public: self.is_public,
            published: self.published@,
            chats_published: self.chats_published@,
        }
    }
}

impl RoomEntry {
    pub(crate) fn new(code: String, state: RoomState, is_public: bool) -> (e: RoomEntry)
        ensures
            e@.code == code@,
            e@.state == state@,
            e@.tokens == Seq::<(Seq<char>, Seq<char>)>::empty(),
            e@.chat == Seq::<ChatModel>::empty(),
            e@.is_public == is_public,
            e@.published == Seq::<SnapshotModel>::empty(),
            e@.chats_published == Seq::<ChatModel>::empty(),
    {
        let e = RoomEntry {
            code,
            state,
            game_updated_tx: broadcast_channel(64),
            chat_messages: Vec::new(),
            chat_tx: broadcast_channel(128),
            token_index: Vec::new(),
            created_at: now_utc(),
            is_public,
            published: Ghost(Seq::empty()),
            chats_published: Ghost(Seq::empty()),
        };
        assert(tokens_model(e.token_index@) =~= Seq::<(Seq<char>, Seq<char>)>::empty());
        assert(chats_model(e.chat_messages@) =~= Seq::<ChatModel>::empty());
        e
    }

    /// The player id that token hash `h` stands for in this room.
    pub(crate) fn lookup_token(&self, h: &String) -> (r: Option<String>)
        ensures
            match r {
                Some(p) => token_lookup(self@.tokens, h@) == Some(p@),
                None => token_lookup(self@.tokens, h@) is None,
            },
    {
        let ghost t = self@.tokens;
        let n = self.token_index.len();
        for i in 0..n
            invariant
                n == self.token_index@.len() == t.len(),
                t == tokens_model(self.token_index@),
                first_index(t, has_hash(h@)) == first_index_from(t, has_hash(h@), i as int),
        {
            if self.token_index[i].0 == *h {
                return Some(self.token_index[i].1.clone());
            }
        }
        None
    }

    /// Records that token hash `h` stands for `player_id`.
    pub(crate) fn insert_token(&mut self, h: String, player_id: String)
        ensures
            final(self)@ == (EntryModel { tokens: token_insert(old(self)@.tokens, h@, player_id@), ..old(self)@ }),
    {
        let ghost t = self@.tokens;
        let n = self.token_index.len();
        let mut i: usize = 0;
        while i < n
            invariant
                n == self.token_index@.len() == t.len(),
                t == tokens_model(self.token_index@),
                self@ == old(self)@,
                t == old(self)@.tokens,
                0 <= i <= n,
                first_index(t, has_hash(h@)) == first_index_from(t, has_hash(h@), i as int),
            decreases n - i,
        {
            if self.token_index[i].0 == h {
                self.token_index.set(i, (h, player_id));
                assert(tokens_model(self.token_index@) =~= token_insert(t, h@, player_id@));
                assert(self@ =~= (EntryModel { tokens: token_insert(old(self)@.tokens, h@, player_id@), ..old(self)@ }));
                return;
            }
            i = i + 1;
        }
        self.token_index.push((h, player_id));
        assert(tokens_model(self.token_index@) =~= token_insert(t, h@, player_id@));
        assert(self@ =~= (EntryModel { tokens: token_insert(old(self)@.tokens, h@, player_id@), ..old(self)@ }));
    }

    /// Forgets token hash `h`.
    pub(crate) fn remove_token(&mut self, h: &String)
        ensures
            final(self)@ == (EntryModel { tokens: token_remove(old(self)@.tokens, h@), ..old(self)@ }),
    {
        let ghost t = self@.tokens;
        let mut kept: Vec<(String, String)> = Vec::new();
        let n = self.token_index.len();
        assert(t.take(0) =~= Seq::<(Seq<char>, Seq<char>)>::empty());
        for i in 0..n
            invariant
                n == self.token_index@.len() == t.len(),
                t == tokens_model(self.token_index@),
                tokens_model(kept@) == token_remove(t.take(i as int), h@),
        {
            assert(t.take(i + 1).drop_last() =~= t.take(i as int));
            if self.token_index[i].0 != *h {
                let e = (self.token_index[i].0.clone(), self.token_index[i].1.clone());
                kept.push(e);
                assert(tokens_model(kept@) =~= token_remove(t.take(i as int), h@).push(t[i as int]));
            }
        }
        assert(t.take(n as int) =~= t);
        self.token_index = kept;
        assert(self@ =~= (EntryModel { tokens: token_remove(old(self)@.tokens, h@), ..old(self)@ }));
    }
}

/// In-memory room store.
pub struct InMemoryRoomStore {
    rooms: Vec<RoomEntry>,
}

pub open spec fn entries_model(v: Seq<RoomEntry>) -> Seq<EntryModel> {
    v.map_values(|e: RoomEntry| e@)
}

impl View for InMemoryRoomStore {
    type V = Seq<EntryModel>;

    closed spec fn view(&self) -> Seq<EntryModel> {
        entries_model(self.rooms@)
    }
}

impl Default for InMemoryRoomStore {
    fn default() -> (s: Self)
        ensures
            s@ == Seq::<EntryModel>::empty(),
    {
        let s = InMemoryRoomStore { rooms: Vec::new() };
        assert(s@ =~= Seq::<EntryModel>::empty());
        s
    }
}

/// Holds of the entry of the room with code `code`.
pub open spec fn has_code(code: Seq<char>) -> spec_fn(EntryModel) -> bool {
    |e: EntryModel| e.code == code
}

/// The position of the room with code `code`.
pub open spec fn room_index(rooms: Seq<EntryModel>, code: Seq<char>) -> Option<int> {
    first_index(rooms, has_code(code))
}

impl InMemoryRoomStore {
    /// The position of the room with code `code`.
    pub fn find(&self, code: &str) -> (r: Option<usize>)
        ensures
            match r {
                Some(i) => room_index(self@, code@) == Some(i as int),
                None => room_index(self@, code@) is None,
            },
    {
        let ghost rs = self@;
        let n = self.rooms.len();
        for i in 0..n
            invariant
                n == self.rooms@.len() == rs.len(),
                rs == self@,
                room_index(rs, code@) == first_index_from(rs, has_code(code@), i as int),
        {
            if crate::text::str_eq(self.rooms[i].code.as_str(), code) {
                assert(rs[i as int].code == code@);
                return Some(i);
            }
        }
        None
    }

    /// Stores a new room, unless one with the same code exists.
    pub fn create_room(&mut self, code: &str, room_state: RoomState, is_public: bool) -> (r: Result<usize, ServiceError>)
        ensures
            match room_index(old(self)@, code@) {
                Some(_) => r matches Err(e) && e == ServiceError::RoomAlreadyExists && final(self)@ == old(self)@,
                None => r matches Ok(i) && i == old(self)@.len() && final(self)@.len() == old(self)@.len() + 1
                    && final(self)@.take(i as int) == old(self)@ && final(self)@[i as int].code == code@
                    && final(self)@[i as int].state == room_state@
                    && final(self)@[i as int].tokens == Seq::<(Seq<char>, Seq<char>)>::empty()
                    && final(self)@[i as int].chat == Seq::<ChatModel>::empty()
                    && final(self)@[i as int].is_public == is_public
                    && final(self)@[i as int].published == Seq::<SnapshotModel>::empty()
                    && final(self)@[i as int].chats_published == Seq::<ChatModel>::empty(),
            },
    {
        if self.find(code).is_some() {
            return Err(ServiceError::RoomAlreadyExists);
        }
        let i = self.rooms.len();
        let entry = RoomEntry::new(code.to_owned(), room_state, is_public);
        self.rooms.push(entry);
        assert(self@.take(i as int) =~= old(self)@);
        Ok(i)
    }
}

impl InMemoryRoomStore {
    /// Number of rooms.
    pub fn len(&self) -> (n: usize)
        ensures
            n == self@.len(),
    {
        self.rooms.len()
    }

    /// The `i`-th room.
    pub fn entry(&self, i: usize) -> (e: &RoomEntry)
        requires
            i < self@.len(),
        ensures
            e@ == self@[i as int],
    {
        &self.rooms[i]
    }

    /// Replaces the state of room `i` and publishes its snapshot on the
    /// room's `gameUpdated` channel.
    pub fn commit_state(&mut self, i: usize, state: RoomState)
        requires
            i < old(self)@.len(),
            state@.wf(),
        ensures
            final(self)@ == old(self)@.update(
                i as int,
                EntryModel {
                    state: state@,
                    published: old(self)@[i as int].published.push(state@.snapshot()),
                    ..old(self)@[i as int]
                },
            ),
    {
        let mut e = self.rooms.remove(i);
        let snapshot = state.snapshot();
        e.state = state;
        broadcast_send(&e.game_updated_tx, snapshot);
        proof {
            e.published@ = e.published@.push(state@.snapshot());
        }
        self.rooms.insert(i, e);
        assert(self@ =~= old(self)@.update(
            i as int,
            EntryModel {
                state: state@,
                published: old(self)@[i as int].published.push(state@.snapshot()),
                ..old(self)@[i as int]
            },
        ));
    }

    /// Records in room `i` that token hash `h` stands for `player_id`.
    pub fn insert_token(&mut self, i: usize, h: String, player_id: String)
        requires
            i < old(self)@.len(),
        ensures
            final(self)@ == old(self)@.update(
                i as int,
                EntryModel { tokens: token_insert(old(self)@[i as int].tokens, h@, player_id@), ..old(self)@[i as int] },
            ),
    {
        let mut e = self.rooms.remove(i);
        e.insert_token(h, player_id);
        self.rooms.insert(i, e);
        assert(self@ =~= old(self)@.update(
            i as int,
            EntryModel { tokens: token_insert(old(self)@[i as int].tokens, h@, player_id@), ..old(self)@[i as int] },
        ));
    }

    /// Forgets token hash `h` in room `i`.
    pub fn remove_token(&mut self, i: usize, h: &String)
        requires
            i < old(self)@.len(),
        ensures
            final(self)@ == old(self)@.update(
                i as int,
                EntryModel { tokens: token_remove(old(self)@[i as int].tokens, h@), ..old(self)@[i as int] },
            ),
    {
        let mut e = self.rooms.remove(i);
        e.remove_token(h);
        self.rooms.insert(i, e);
        assert(self@ =~= old(self)@.update(
            i as int,
            EntryModel { tokens: token_remove(old(self)@[i as int].tokens, h@), ..old(self)@[i as int] },
        ));
    }

    /// Empties the chat history of room `i`.
    pub fn clear_chat(&mut self, i: usize)
        requires
            i < old(self)@.len(),
        ensures
            final(self)@ == old(self)@.update(
                i as int,
                EntryModel { chat: Seq::empty(), ..old(self)@[i as int] },
            ),
    {
        let mut e = self.rooms.remove(i);
        e.chat_messages = Vec::new();
        assert(chats_model(e.chat_messages@) =~= Seq::<ChatModel>::empty());
        self.rooms.insert(i, e);
        assert(self@ =~= old(self)@.update(
            i as int,
            EntryModel { chat: Seq::empty(), ..old(self)@[i as int] },
        ));
    }

    /// Appends `message` to the chat history of room `i`, keeping the newest
    /// `MAX_CHAT_HISTORY` messages, and publishes it on the room's chat channel.
    pub fn record_chat(&mut self, i: usize, message: ChatMessage)
        requires
            i < old(self)@.len(),
        ensures
            final(self)@ == old(self)@.update(
                i as int,
                EntryModel {
                    chat: chat_append(old(self)@[i as int].chat, message@),
                    chats_published: old(self)@[i as int].chats_published.push(message@),
                    ..old(self)@[i as int]
                },
            ),
    {
        let mut e = self.rooms.remove(i);
        let ghost m = message@;
        let published = message.copy();
        let mut history = crate::types::copy_chats(&e.chat_messages);
        history.push(message);
        let ghost all = chats_model(history@);
        assert(all =~= chats_model(e.chat_messages@).push(m));
        if history.len() > MAX_CHAT_HISTORY {
            let start = history.len() - MAX_CHAT_HISTORY;
            let mut kept: Vec<ChatMessage> = Vec::new();
            let n = history.len();
            for k in start..n
                invariant
                    n == history@.len(),
                    start == n - MAX_CHAT_HISTORY,
                    all == chats_model(history@),
                    kept@.len() == k - start,
                    forall|j: int| 0 <= j < kept@.len() ==> (#[trigger] kept@[j])@ == all[start + j],
            {
                kept.push(history[k].copy());
            }
            assert(chats_model(kept@) =~= all.subrange(start as int, n as int));
            e.chat_messages = kept;
        } else {
            e.chat_messages = history;
        }
        broadcast_send(&e.chat_tx, published);
        proof {
            e.chats_published@ = e.chats_published@.push(m);
        }
        self.rooms.insert(i, e);
        assert(self@ =~= old(self)@.update(
            i as int,
            EntryModel {
                chat: chat_append(old(self)@[i as int].chat, message@),
                chats_published: old(self)@[i as int].chats_published.push(message@),
                ..old(self)@[i as int]
            },
        ));
    }
}

} // verus!
