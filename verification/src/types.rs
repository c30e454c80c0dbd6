//! Values the service hands to transports: sessions, room listings, chat.

use vstd::prelude::*;

use crate::model::GamePhase;

verus! {

/// Client session token wrapper.
#[derive(Debug, Clone, PartialEq, Eq)]
pub struct Session {
    pub token: String,
}

impl Session {
    pub fn new(token: String) -> (s: Self)
        ensures
            s.token@ == token@,
    {
        Session { token }
    }
}

/// Public board listing entry used by the lobby discovery view.
#[derive(Debug, Clone, PartialEq, Eq)]
pub struct PublicRoomSummary {
    pub code: String,
    pub host_nickname: String,
    pub phase: GamePhase,
    pub category: Option<String>,
    pub connected_players: usize,
    pub total_players: usize,
    pub joinable: bool,
}

#[verifier::ext_equal]
pub struct SummaryModel {
    pub code: Seq<char>,
    pub host_nickname: Seq<char>,
    pub phase: GamePhase,
    pub category: Option<Seq<char>>,
    pub connected_players: nat,
    pub total_players: nat,
    pub joinable: bool,
}

impl View for PublicRoomSummary {
    type V = SummaryModel;

    open spec fn view(&self) -> SummaryModel {
        SummaryModel {
            code: self.code@,
            host_nickname: self.host_nickname@,
            phase: self.phase,
            category: crate::model::opt_str(self.category),
            connected_players: self.connected_players as nat,
            total_players: self.total_players as nat,
            joinable: self.joinable,
        }
    }
}

/// A UTC instant: whole seconds since the Unix epoch and the nanoseconds
/// past that second.
#[derive(Debug, Clone, Copy, PartialEq, Eq)]
pub struct Timestamp {
    pub secs: i64,
    pub nanos: u32,
}

/// Instant `a` is not before instant `b`.
pub open spec fn not_before(a: Timestamp, b: Timestamp) -> bool {
    a.secs > b.secs || (a.secs == b.secs && a.nanos >= b.nanos)
}

impl Timestamp {
    /// Whether this instant is not before `other`.
    pub fn not_before(&self, other: &Timestamp) -> (r: bool)
        ensures
            r == not_before(*self, *other),
    {
        self.secs > other.secs || (self.secs == other.secs && self.nanos >= other.nanos)
    }
}

/// Chat message payload shared across transports.
#[derive(Debug, PartialEq, Eq)]
pub struct ChatMessage {
    pub id: String,
    pub room_code: String,
    pub sender_player_id: String,
    pub sender_nickname: String,
    pub text: String,
    pub created_at: Timestamp,
}

#[verifier::ext_equal]
pub struct ChatModel {
    pub id: Seq<char>,
    pub room_code: Seq<char>,
    pub sender_player_id: Seq<char>,
    pub sender_nickname: Seq<char>,
    pub text: Seq<char>,
    pub created_at: Timestamp,
}

impl View for ChatMessage {
    type V = ChatModel;

    open spec fn view(&self) -> ChatModel {
        ChatModel {
            id: self.id@,
            room_code: self.room_code@,
            sender_player_id: self.sender_player_id@,
            sender_nickname: self.sender_nickname@,
            text: self.text@,
            created_at: self.created_at,
        }
    }
}

pub open spec fn chats_model(v: Seq<ChatMessage>) -> Seq<ChatModel> {
    v.map_values(|m: ChatMessage| m@)
}

impl ChatMessage {
    pub fn copy(&self) -> (r: ChatMessage)
        ensures
            r@ == self@,
    {
        ChatMessage {
            id: self.id.clone(),
            room_code: self.room_code.clone(),
            sender_player_id: self.sender_player_id.clone(),
            sender_nickname: self.sender_nickname.clone(),
            text: self.text.clone(),
            created_at: self.created_at,
        }
    }
}

impl Clone for ChatMessage {
    fn clone(&self) -> (r: ChatMessage)
        ensures
            r@ == self@,
    {
        self.copy()
    }
}

pub fn copy_chats(v: &Vec<ChatMessage>) -> (r: Vec<ChatMessage>)
    ensures
        chats_model(r@) == chats_model(v@),
{
    let mut r: Vec<ChatMessage> = Vec::new();
    let n = v.len();
    for i in 0..n
        invariant
            n == v@.len(),
            r@.len() == i,
            forall|k: int| 0 <= k < i ==> (#[trigger] r@[k])@ == v@[k]@,
    {
        r.push(v[i].copy());
    }
    assert(chats_model(r@) =~= chats_model(v@));
    r
}

} // verus!
