//! The client-side core: the application state a terminal front end
//! renders, the events the network stream yields, and how a wire
//! response maps to such an event.
//!
//! The terminal itself (drawing, key handling, the stream plumbing) lives
//! outside the library; what it decides with — state transitions, message
//! decoding, menu metadata — is verified here.

use vstd::prelude::*;

use crate::errors::TransportCode;
use crate::types::RoomServiceRequest;
use crate::types::RoomServiceResponse;
use crate::types::UserDetails;

verus! {

/// Client configuration: where the server listens.
pub struct ClientConfig {
    pub server_url: String,
}

/// Command-line choices of the client.
pub struct ClientArgs {
    /// Whether a fresh guest identity should be created instead of the
    /// one kept in local storage.
    pub create_guest: bool,
}

/// What the client keeps on disk between sessions.
pub struct LocalStorage {
    pub client_id: Option<String>,
}

impl LocalStorage {
    /// Storage that remembers `client_id`.
    pub fn new(client_id: String) -> (r: LocalStorage)
        ensures
            r.client_id == Some(client_id),
    {
        LocalStorage { client_id: Some(client_id) }
    }
}

/// An event the network layer hands the user interface.
#[derive(Debug, PartialEq)]
pub enum UserEvent {
    InfoMessage(String),
    NetworkError(String),
    RoomCreated { room_id: String, users: Vec<UserDetails> },
    UserJoined { users: Vec<UserDetails> },
    GameStart { room_id: String, users: Vec<UserDetails> },
}

/// A message the user interface dispatches.
#[derive(Debug, PartialEq)]
pub enum Msg {
    AppClose,
    BottomBarUpdate,
    Menu(MenuMessage),
    StateUpdate(AppStateUpdate),
    ReDraw,
}

/// The identifiers of the interface components.
#[derive(Debug, PartialEq, Eq, Structural, Clone, Copy)]
pub enum Id {
    Menu,
    BottomBar,
    RoomDetails,
    NetworkReceptor,
    Help,
}

/// A message of the menu component.
#[derive(Debug, PartialEq)]
pub enum MenuMessage {
    MenuChange,
    MenuDataChange,
    MenuSelect(MenuSelection),
}

/// What the user picked in the menu.
#[derive(Debug, PartialEq)]
pub enum MenuSelection {
    NewGame,
    CreateRoom,
    JoinRoom { room_id: String },
}

/// The menu entries, in display order.
#[derive(Debug, PartialEq, Eq, Structural, Clone, Copy)]
pub enum Menus {
    NewGame,
    CreateRoom,
    JoinRoom,
}

impl Menus {
    /// The menu entry at display position `int_value` (0, 1 or 2).
    pub fn from_u8(int_value: u8) -> (r: Menus)
        requires
            int_value <= 2,
        ensures
            r == if int_value == 0 {
                Menus::NewGame
            } else if int_value == 1 {
                Menus::CreateRoom
            } else {
                Menus::JoinRoom
            },
    {
        match int_value {
            0 => Self::NewGame,
            1 => Self::CreateRoom,
            _ => Self::JoinRoom,
        }
    }

    /// The helper line shown beside the selected entry.
    pub fn get_helper_text(&self) -> (r: &'static str)
        ensures
            self is NewGame ==> r@ == "Create a game with random players who are online"@,
            self is CreateRoom ==> r@ == "Create a private room, invite your friends"@,
            self is JoinRoom ==> r@ == "Join a private room"@,
    {
        match self {
            Menus::NewGame => "Create a game with random players who are online",
            Menus::CreateRoom => "Create a private room, invite your friends",
            Menus::JoinRoom => "Join a private room",
        }
    }

    /// The entry's label.
    pub fn to_string(&self) -> (r: String)
        ensures
            self is NewGame ==> r@ == "New Game"@,
            self is CreateRoom ==> r@ == "Create Room"@,
            self is JoinRoom ==> r@ == "Join Room"@,
    {
        match self {
            Menus::NewGame => String::from_str("New Game"),
            Menus::CreateRoom => String::from_str("Create Room"),
            Menus::JoinRoom => String::from_str("Join Room"),
        }
    }
}

/// A request the interface hands the network layer.
pub enum NewRequestEntity {
    JoinRoom { room_id: String },
    CreateRoom,
    NewGame,
}

/// A command for the network layer: issue a request, or shut down.
pub enum Request {
    New(NewRequestEntity),
    Quit,
}

/// The request entity a menu selection stands for.
pub open spec fn request_of_selection(s: MenuSelection) -> NewRequestEntity {
    match s {
        MenuSelection::NewGame => NewRequestEntity::NewGame,
        MenuSelection::CreateRoom => NewRequestEntity::CreateRoom,
        MenuSelection::JoinRoom { room_id } => NewRequestEntity::JoinRoom { room_id },
    }
}

impl From<MenuSelection> for NewRequestEntity {
    fn from(item_selection: MenuSelection) -> (r: Self)
        ensures
            r == request_of_selection(item_selection),
    {
        match item_selection {
            MenuSelection::NewGame => NewRequestEntity::NewGame,
            MenuSelection::CreateRoom => NewRequestEntity::CreateRoom,
            MenuSelection::JoinRoom { room_id } => NewRequestEntity::JoinRoom { room_id },
        }
    }
}

impl vstd::std_specs::convert::FromSpecImpl<MenuSelection> for NewRequestEntity {
    open spec fn obeys_from_spec() -> bool {
        true
    }

    open spec fn from_spec(v: MenuSelection) -> Self {
        request_of_selection(v)
    }
}

impl NewRequestEntity {
    /// The wire request this entity stands for, for the authenticated
    /// `client_id`: joins name their room, a new game joins the common
    /// room, and creates name none (the server draws a room number).
    pub fn to_request(self, client_id: String) -> (r: RoomServiceRequest)
        ensures
            r.client_id == client_id,
            self matches NewRequestEntity::JoinRoom { room_id } ==> r.request_type == 2
                && r.room_id == Some(room_id),
            self is NewGame ==> r.request_type == 2 && r.room_id is None,
            self is CreateRoom ==> r.request_type == 1 && r.room_id is None,
    {
        match self {
            NewRequestEntity::JoinRoom { room_id } => RoomServiceRequest {
                client_id,
                room_id: Some(room_id),
                request_type: 2,
            },
            NewRequestEntity::NewGame => RoomServiceRequest {
                client_id,
                room_id: None,
                request_type: 2,
            },
            NewRequestEntity::CreateRoom => RoomServiceRequest {
                client_id,
                room_id: None,
                request_type: 1,
            },
        }
    }
}

/// An update the interface applies to its state.
#[derive(Debug, PartialEq)]
pub enum AppStateUpdate {
    UserIdUpdate { user_id: String },
    RoomUpdate { room_id: String, users: Vec<UserDetails> },
    UserRoomJoin { users: Vec<UserDetails> },
    GameStart { room_id: String, users: Vec<UserDetails> },
}

/// The room the client currently shows.
#[derive(Debug, PartialEq)]
pub struct RoomState {
    pub room_id: String,
    pub room_users: Vec<UserDetails>,
}

/// The game the client is in, once one started.
#[derive(Debug, PartialEq)]
pub struct GameState {
    pub room_id: String,
    pub game_id: String,
    pub has_started: bool,
}

/// Everything the interface knows: the identity, and the current room and
/// game, when there are any.
#[derive(Debug, PartialEq)]
pub struct AppState {
    pub user_id: Option<String>,
    pub current_user: Option<UserDetails>,
    pub room_details: Option<RoomState>,
    pub game_details: Option<GameState>,
}

impl Default for AppState {
    fn default() -> (r: AppState)
        ensures
            r.user_id is None,
            r.current_user is None,
            r.room_details is None,
            r.game_details is None,
    {
        AppState { user_id: None, current_user: None, room_details: None, game_details: None }
    }
}

impl AppState {
    /// Applies one update: an identity update sets the identifier, a room
    /// update or game start replaces the shown room, and a join replaces
    /// only the roster of the room already shown.
    pub fn apply_update(self, update: AppStateUpdate) -> (r: Self)
        requires
            update is UserRoomJoin ==> self.room_details is Some,
        ensures
            match update {
                AppStateUpdate::UserIdUpdate { user_id } => {
                    &&& r.user_id == Some(user_id)
                    &&& r.current_user == self.current_user
                    &&& r.room_details == self.room_details
                    &&& r.game_details == self.game_details
                },
                AppStateUpdate::RoomUpdate { room_id, users } => {
                    &&& r.room_details matches Some(rs) && rs.room_id == room_id && rs.room_users
                        == users
                    &&& r.user_id == self.user_id
                    &&& r.current_user == self.current_user
                    &&& r.game_details == self.game_details
                },
                AppStateUpdate::UserRoomJoin { users } => {
                    &&& r.room_details matches Some(rs) && rs.room_id
                        == self.room_details->Some_0.room_id && rs.room_users == users
                    &&& r.user_id == self.user_id
                    &&& r.current_user == self.current_user
                    &&& r.game_details == self.game_details
                },
                AppStateUpdate::GameStart { room_id, users } => {
                    &&& r.room_details matches Some(rs) && rs.room_id == room_id && rs.room_users
                        == users
                    &&& r.user_id == self.user_id
                    &&& r.current_user == self.current_user
                    &&& r.game_details == self.game_details
                },
            },
    {
        match update {
            AppStateUpdate::UserIdUpdate { user_id } => Self {
                user_id: Some(user_id),
                ..self
            },
            AppStateUpdate::RoomUpdate { room_id, users } => {
                let room_state = RoomState { room_id, room_users: users };
                Self { room_details: Some(room_state), ..self }
            },
            AppStateUpdate::UserRoomJoin { users } => {
                let previous_room_state = match self.room_details {
                    Some(rs) => rs,
                    None => unreached(),
                };
                let new_room_state = RoomState { room_users: users, ..previous_room_state };
                Self {
                    room_details: Some(new_room_state),
                    user_id: self.user_id,
                    current_user: self.current_user,
                    game_details: self.game_details,
                }
            },
            AppStateUpdate::GameStart { room_id, users } => {
                let room_state = RoomState { room_id, room_users: users };
                Self { room_details: Some(room_state), ..self }
            },
        }
    }
}

/// The client's handle on the network layer: events from the stream,
/// waiting to be polled by the interface, and the identity once issued.
pub struct NetworkClient {
    pub messages: Vec<UserEvent>,
    pub user_id: Option<String>,
}

impl Default for NetworkClient {
    fn default() -> (r: NetworkClient)
        ensures
            r.messages@ == Seq::<UserEvent>::empty(),
            r.user_id is None,
    {
        NetworkClient { messages: Vec::new(), user_id: None }
    }
}

impl NetworkClient {
    /// Queues an event for the interface.
    pub fn push_user_event(&mut self, event: UserEvent)
        ensures
            final(self).messages@ == old(self).messages@.push(event),
            final(self).user_id == old(self).user_id,
    {
        self.messages.push(event);
    }

    /// Hands the interface the oldest queued event, if any.
    pub fn poll(&mut self) -> (r: Option<UserEvent>)
        ensures
            old(self).messages@.len() == 0 ==> r is None && *final(self) == *old(self),
            old(self).messages@.len() > 0 ==> {
                &&& r == Some(old(self).messages@[0])
                &&& final(self).messages@ == old(self).messages@.skip(1)
                &&& final(self).user_id == old(self).user_id
            },
    {
        if self.messages.len() == 0 {
            None
        } else {
            let m = self.messages.remove(0);
            proof {
                assert(self.messages@ =~= old(self).messages@.skip(1));
            }
            Some(m)
        }
    }
}

/// A transport status as the client sees it: the code and its message.
#[derive(Debug, PartialEq)]
pub struct TransportStatus {
    pub code: TransportCode,
    pub message: String,
}

/// Unwraps a network result, turning an error status into a
/// `NetworkError` event for the interface.
pub trait DisplayNetworkError {
    type Item;

    fn error_handler(self, network_client: &mut NetworkClient) -> Option<Self::Item>;
}

impl<U> DisplayNetworkError for Result<U, TransportStatus> {
    type Item = U;

    fn error_handler(self, network_client: &mut NetworkClient) -> (r: Option<U>)
        ensures
            self matches Ok(v) ==> (r == Some(v) && *final(network_client) == *old(
                network_client,
            )),
            self matches Err(status) ==> {
                &&& r is None
                &&& final(network_client).messages@.len() == old(network_client).messages@.len()
                    + 1
                &&& final(network_client).messages@.take(old(network_client).messages@.len() as int)
                    == old(network_client).messages@
                &&& final(network_client).messages@.last() matches UserEvent::NetworkError(m) && m
                    == status.message
                &&& final(network_client).user_id == old(network_client).user_id
            },
    {
        match self {
            Ok(res) => Some(res),
            Err(status) => {
                network_client.push_user_event(UserEvent::NetworkError(status.message));
                proof {
                    assert(network_client.messages@.take(
                        old(network_client).messages@.len() as int,
                    ) =~= old(network_client).messages@);
                }
                None
            },
        }
    }
}

/// The kind of a streamed room-service message, as the client reads it.
#[derive(Debug, PartialEq, Eq, Structural, Clone, Copy)]
pub enum RoomMessageType {
    Init,
    UserJoined,
    GameStart,
}

impl RoomMessageType {
    /// Decodes the wire numbering (1 init, 2 user joined, 3 game start);
    /// anything else is a malformed stream item.
    pub fn from_u8(message_type_in_u8: u8) -> (r: Self)
        requires
            1 <= message_type_in_u8 <= 3,
        ensures
            r == if message_type_in_u8 == 1 {
                RoomMessageType::Init
            } else if message_type_in_u8 == 2 {
                RoomMessageType::UserJoined
            } else {
                RoomMessageType::GameStart
            },
    {
        match message_type_in_u8 {
            1 => Self::Init,
            2 => Self::UserJoined,
            _ => Self::GameStart,
        }
    }
}

/// A stream item is well formed when its kind is known and, for the kinds
/// that concern a particular room, the room is named.
pub open spec fn wire_message_ok(message: RoomServiceResponse) -> bool {
    &&& 1 <= message.message_type <= 3
    &&& (message.message_type == 1 || message.message_type == 3) ==> message.room_id is Some
}

/// Turns one streamed response into the interface event it stands
/// for and queues it: an init announces the room, a user-joined updates
/// the roster, a game-start carries the final roster.
pub fn handle_room_service_message(
    message: RoomServiceResponse,
    network_client: &mut NetworkClient,
)
    requires
        wire_message_ok(message),
    ensures
        final(network_client).messages@ == old(network_client).messages@.push(
            final(network_client).messages@.last(),
        ),
        final(network_client).user_id == old(network_client).user_id,
        message.message_type == 1 ==> (final(network_client).messages@.last() matches
            UserEvent::RoomCreated { room_id, users } && room_id == message.room_id->Some_0
            && users == message.user_details),
        message.message_type == 2 ==> (final(network_client).messages@.last() matches
            UserEvent::UserJoined { users } && users == message.user_details),
        message.message_type == 3 ==> (final(network_client).messages@.last() matches
            UserEvent::GameStart { room_id, users } && room_id == message.room_id->Some_0 && users
            == message.user_details),
{
    let mt = if message.message_type <= 255 {
        message.message_type as u8
    } else {
        3
    };
    let message_type = RoomMessageType::from_u8(mt);
    match message_type {
        RoomMessageType::Init => {
            let room_id = match message.room_id {
                Some(room_id) => room_id,
                None => unreached(),
            };
            let room_created_event = UserEvent::RoomCreated {
                room_id,
                users: message.user_details,
            };
            network_client.push_user_event(room_created_event);
        },
        RoomMessageType::UserJoined => {
            let user_joined_event = UserEvent::UserJoined { users: message.user_details };
            network_client.push_user_event(user_joined_event);
        },
        RoomMessageType::GameStart => {
            let room_id = match message.room_id {
                Some(room_id) => room_id,
                None => unreached(),
            };
            network_client.push_user_event(
                UserEvent::GameStart { room_id, users: message.user_details },
            );
        },
    }
}

/// The room panel of the interface.
#[derive(Debug, PartialEq)]
pub struct RoomDetails {
    pub room_id: String,
    pub max_players: u32,
    pub current_players: usize,
}

/// The global statistics panel of the interface.
#[derive(Debug, PartialEq, Eq, Structural, Clone, Copy)]
pub struct GlobalDetails {
    pub active_games: u16,
    pub active_players: u16,
}

impl Default for GlobalDetails {
    fn default() -> (r: GlobalDetails)
        ensures
            r.active_games == 0,
            r.active_players == 0,
    {
        GlobalDetails { active_games: 0, active_players: 0 }
    }
}

/// The state behind the details panel.
#[derive(Debug, PartialEq)]
pub struct OwnStates {
    pub users: Vec<UserDetails>,
    pub global_details: GlobalDetails,
    pub room_details: Option<RoomDetails>,
    pub is_in_waiting_room: bool,
    pub is_in_game: bool,
}

impl Default for OwnStates {
    fn default() -> (r: OwnStates)
        ensures
            r.users@ == Seq::<UserDetails>::empty(),
            r.global_details == (GlobalDetails { active_games: 0, active_players: 0 }),
            r.room_details is None,
            !r.is_in_waiting_room,
            !r.is_in_game,
    {
        OwnStates {
            users: Vec::new(),
            global_details: GlobalDetails { active_games: 0, active_players: 0 },
            room_details: None,
            is_in_waiting_room: false,
            is_in_game: false,
        }
    }
}

impl OwnStates {
    /// Applies one network event to the panel state: a created room is
    /// entered (waiting-room view, capacity 2), a join updates the roster
    /// and head count; other events leave the panel alone.
    pub fn apply_event(&mut self, event: UserEvent)
        ensures
            match event {
                UserEvent::RoomCreated { room_id, users } => {
                    &&& final(self).users == users
                    &&& final(self).room_details matches Some(rd) && rd.room_id == room_id
                        && rd.max_players == 2 && rd.current_players == users@.len()
                    &&& final(self).is_in_waiting_room
                    &&& final(self).global_details == old(self).global_details
                    &&& final(self).is_in_game == old(self).is_in_game
                },
                UserEvent::UserJoined { users } => {
                    &&& final(self).users == users
                    &&& (old(self).room_details matches Some(rd) ==> final(self).room_details
                        matches Some(nrd) && nrd.room_id == rd.room_id && nrd.max_players
                        == rd.max_players && nrd.current_players == users@.len())
                    &&& (old(self).room_details is None ==> final(self).room_details is None)
                    &&& final(self).is_in_waiting_room == old(self).is_in_waiting_room
                    &&& final(self).global_details == old(self).global_details
                    &&& final(self).is_in_game == old(self).is_in_game
                },
                _ => *final(self) == *old(self),
            },
    {
        match event {
            UserEvent::RoomCreated { room_id, users } => {
                let current_players = users.len();
                self.users = users;
                self.room_details = Some(
                    RoomDetails { room_id, max_players: 2, current_players },
                );
                self.is_in_waiting_room = true;
            },
            UserEvent::UserJoined { users } => {
                let current_players = users.len();
                let new_details = match &self.room_details {
                    Some(room_details) => Some(
                        RoomDetails {
                            room_id: room_details.room_id.clone(),
                            max_players: room_details.max_players,
                            current_players,
                        },
                    ),
                    None => None,
                };
                self.room_details = new_details;
                self.users = users;
            },
            _ => {},
        }
    }
}

} // verus!
