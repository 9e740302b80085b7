//! Requests, responses and the messages exchanged between sessions.
//!
//! `RoomMessage` is the domain event a session queue carries; a wire
//! response (`RoomServiceResponse`) is derived from it. Request and
//! response kinds are numbered on the wire exactly as `from_u8` / `to_u8`
//! state.

use vstd::prelude::*;

use crate::models::User;

verus! {

/// The reserved identifier of the always-on common room.
pub const COMMON_ROOM_KEY: &'static str = "COMMON_ROOM";

/// The capacity of the common room.
pub const COMMON_ROOM_SIZE: u8 = 2;

/// The capacity of a private room.
pub const PRIVATE_ROOM_SIZE: u8 = 2;

/// The prompt stored on every freshly created game.
pub const GAME_PROMPT: &'static str = "This is a sample prompt for the game";

/// The common-room identifier as an owned string.
pub fn common_room_id() -> (s: String)
    ensures
        s@ == COMMON_ROOM_KEY@,
{
    String::from_str(COMMON_ROOM_KEY)
}

/// The prompt string stored on a new game.
pub fn game_prompt() -> (s: String)
    ensures
        s@ == GAME_PROMPT@,
{
    String::from_str(GAME_PROMPT)
}

/// The kind of a room-service request.
#[derive(Debug, PartialEq, Eq, Structural, Clone, Copy)]
pub enum RoomServiceRequestType {
    CreateRoom,
    JoinRoom,
}

impl RoomServiceRequestType {
    /// Decodes the wire numbering: 1 creates, 2 joins, all else is invalid.
    pub fn from_u8(request_type: u8) -> (r: Option<Self>)
        ensures
            r == if request_type == 1 {
                Some(RoomServiceRequestType::CreateRoom)
            } else if request_type == 2 {
                Some(RoomServiceRequestType::JoinRoom)
            } else {
                None::<RoomServiceRequestType>
            },
    {
        match request_type {
            1 => Some(Self::CreateRoom),
            2 => Some(Self::JoinRoom),
            _ => None,
        }
    }
}

/// The kind of a room-service response.
#[derive(Debug, PartialEq, Eq, Structural, Clone, Copy)]
pub enum RoomServiceResponseType {
    Init,
    UserJoined,
    GameStart,
}

impl RoomServiceResponseType {
    /// The wire numbering: 1 init, 2 user joined, 3 game start.
    pub fn to_u8(&self) -> (r: u8)
        ensures
            r == self.spec_to_u8(),
    {
        match self {
            RoomServiceResponseType::Init => 1,
            RoomServiceResponseType::UserJoined => 2,
            RoomServiceResponseType::GameStart => 3,
        }
    }

    /// The wire number of this response kind.
    pub open spec fn spec_to_u8(&self) -> u8 {
        match self {
            RoomServiceResponseType::Init => 1,
            RoomServiceResponseType::UserJoined => 2,
            RoomServiceResponseType::GameStart => 3,
        }
    }

    /// Decodes the wire numbering; inverse of `to_u8` on 1..=3.
    pub fn from_u8(value: u8) -> (r: Option<Self>)
        ensures
            r == if value == 1 {
                Some(RoomServiceResponseType::Init)
            } else if value == 2 {
                Some(RoomServiceResponseType::UserJoined)
            } else if value == 3 {
                Some(RoomServiceResponseType::GameStart)
            } else {
                None::<RoomServiceResponseType>
            },
    {
        match value {
            1 => Some(Self::Init),
            2 => Some(Self::UserJoined),
            3 => Some(Self::GameStart),
            _ => None,
        }
    }
}

/// A message pushed into a session's outbound queue.
///
/// Each variant carries the room it concerns and the roster the receiving
/// client should display.
#[derive(Debug, PartialEq)]
pub enum RoomMessage {
    RoomCreated { room_id: String, users: Vec<User> },
    RoomJoined { room_id: String, users: Vec<User> },
    AllUsersJoined { room_id: String, users: Vec<User> },
    UserJoined { room_id: String, users: Vec<User> },
}

/// `m` announces a created/entered room `rid` with roster `us`.
pub open spec fn msg_room_created(m: RoomMessage, rid: Seq<char>, us: Seq<User>) -> bool {
    match m {
        RoomMessage::RoomCreated { room_id, users } => room_id@ == rid && users@ == us,
        _ => false,
    }
}

/// `m` announces that a user joined room `rid`, with roster `us`.
pub open spec fn msg_user_joined(m: RoomMessage, rid: Seq<char>, us: Seq<User>) -> bool {
    match m {
        RoomMessage::UserJoined { room_id, users } => room_id@ == rid && users@ == us,
        _ => false,
    }
}

/// `m` announces that room `rid` filled, with final roster `us`.
pub open spec fn msg_all_users_joined(m: RoomMessage, rid: Seq<char>, us: Seq<User>) -> bool {
    match m {
        RoomMessage::AllUsersJoined { room_id, users } => room_id@ == rid && users@ == us,
        _ => false,
    }
}

impl RoomMessage {
    /// The room this message concerns.
    pub open spec fn spec_room_id(self) -> Seq<char> {
        match self {
            RoomMessage::RoomCreated { room_id, .. } => room_id@,
            RoomMessage::RoomJoined { room_id, .. } => room_id@,
            RoomMessage::AllUsersJoined { room_id, .. } => room_id@,
            RoomMessage::UserJoined { room_id, .. } => room_id@,
        }
    }

    /// The roster this message carries.
    pub open spec fn spec_users(self) -> Seq<User> {
        match self {
            RoomMessage::RoomCreated { users, .. } => users@,
            RoomMessage::RoomJoined { users, .. } => users@,
            RoomMessage::AllUsersJoined { users, .. } => users@,
            RoomMessage::UserJoined { users, .. } => users@,
        }
    }

    /// The wire kind this message maps to.
    pub open spec fn spec_response_type(self) -> RoomServiceResponseType {
        match self {
            RoomMessage::RoomCreated { .. } => RoomServiceResponseType::Init,
            RoomMessage::RoomJoined { .. } => RoomServiceResponseType::Init,
            RoomMessage::AllUsersJoined { .. } => RoomServiceResponseType::GameStart,
            RoomMessage::UserJoined { .. } => RoomServiceResponseType::UserJoined,
        }
    }

    /// After a fill announcement the server closes the stream; after
    /// anything else it stays open.
    pub fn should_close_stream(&self) -> (r: bool)
        ensures
            r == (self is AllUsersJoined),
    {
        matches!(self, RoomMessage::AllUsersJoined { .. })
    }
}

/// The public record of a user, as put on the wire.
#[derive(Debug, PartialEq)]
pub struct UserDetails {
    pub user_id: String,
    pub user_name: String,
    pub games_played: u32,
    pub rank: u32,
}

/// The wire record derived from a stored user.
pub open spec fn details_of(u: User) -> UserDetails {
    UserDetails {
        user_id: u.user_id,
        user_name: u.user_name,
        games_played: u.games_played,
        rank: u.player_rank,
    }
}

impl Clone for UserDetails {
    fn clone(&self) -> (res: Self)
        ensures
            res == *self,
    {
        UserDetails {
            user_id: self.user_id.clone(),
            user_name: self.user_name.clone(),
            games_played: self.games_played,
            rank: self.rank,
        }
    }
}

impl From<User> for UserDetails {
    fn from(db_model: User) -> (r: Self)
        ensures
            r == details_of(db_model),
    {
        UserDetails {
            user_id: db_model.user_id,
            user_name: db_model.user_name,
            games_played: db_model.games_played,
            rank: db_model.player_rank,
        }
    }
}

impl vstd::std_specs::convert::FromSpecImpl<User> for UserDetails {
    open spec fn obeys_from_spec() -> bool {
        true
    }

    open spec fn from_spec(v: User) -> Self {
        details_of(v)
    }
}

/// A unary identity request: recognize `user_id` or, when absent, issue a
/// fresh identity.
#[derive(Debug, PartialEq)]
pub struct PingRequest {
    pub user_id: Option<String>,
}

/// The identity record answered to a ping.
#[derive(Debug, PartialEq)]
pub struct PingResponse {
    pub user_id: String,
    pub user_name: String,
}

/// A room-service request: the calling user, the optional target room and
/// the request kind (see `RoomServiceRequestType::from_u8`).
#[derive(Debug, PartialEq)]
pub struct RoomServiceRequest {
    pub client_id: String,
    pub room_id: Option<String>,
    pub request_type: u32,
}

impl RoomServiceRequest {
    /// The identifier this request authenticates as.
    pub fn get_user_id(&self) -> (r: String)
        ensures
            r == self.client_id,
    {
        self.client_id.clone()
    }
}

/// One item of a room-service response stream.
#[derive(Debug, PartialEq)]
pub struct RoomServiceResponse {
    pub room_id: Option<String>,
    pub message_type: u32,
    pub user_details: Vec<UserDetails>,
}

impl RoomServiceResponse {
    /// Translates a domain message to its wire response: the message's
    /// room, the wire number of its kind, and the roster as wire records.
    pub fn from_message(value: RoomMessage) -> (r: RoomServiceResponse)
        ensures
            r.room_id matches Some(rid) && rid@ == value.spec_room_id(),
            r.message_type == value.spec_response_type().spec_to_u8(),
            r.user_details@ == value.spec_users().map_values(|u: User| details_of(u)),
    {
        let (room_id, users, message_type) = match value {
            RoomMessage::AllUsersJoined { room_id, users } => (
                room_id,
                users,
                RoomServiceResponseType::GameStart.to_u8(),
            ),
            RoomMessage::RoomCreated { room_id, users } => (
                room_id,
                users,
                RoomServiceResponseType::Init.to_u8(),
            ),
            RoomMessage::RoomJoined { room_id, users } => (
                room_id,
                users,
                RoomServiceResponseType::Init.to_u8(),
            ),
            RoomMessage::UserJoined { room_id, users } => (
                room_id,
                users,
                RoomServiceResponseType::UserJoined.to_u8(),
            ),
        };
        let ghost user_seq = users@;
        let n = users.len();
        let mut user_details: Vec<UserDetails> = Vec::new();
        let mut i: usize = 0;
        let mut rest = users;
        while i < n
            invariant
                n == user_seq.len(),
                i <= n,
                rest@ == user_seq.skip(i as int),
                user_details@ == user_seq.take(i as int).map_values(|u: User| details_of(u)),
            decreases n - i,
        {
            let u = rest.remove(0);
            proof {
                assert(u == user_seq[i as int]);
                assert(rest@ =~= user_seq.skip(i + 1));
            }
            user_details.push(UserDetails::from(u));
            proof {
                assert(user_details@ =~= user_seq.take(i + 1).map_values(
                    |u: User| details_of(u),
                ));
            }
            i += 1;
        }
        proof {
            assert(user_seq.take(n as int) =~= user_seq);
        }
        RoomServiceResponse { room_id: Some(room_id), message_type: message_type as u32, user_details }
    }
}

} // verus!
