//! Server-side engine of a multiplayer lobby service.
//!
//! Clients are issued or recognized an identity, create or join rooms of
//! fixed capacity, and receive a stream of membership events until a room
//! fills and a game starts. The engine keeps a keyed store of users, rooms
//! and games, and a per-connection session registry of outbound message
//! queues; every state change is specified and verified here. The network,
//! terminal and persistence plumbing around the engine lives outside the
//! library.

mod client;
mod config;
mod errors;
mod ident;
mod laws;
mod models;
mod service;
mod session;
mod store;
mod text;
mod types;

pub use client::AppState;
pub use client::AppStateUpdate;
pub use client::ClientArgs;
pub use client::ClientConfig;
pub use client::DisplayNetworkError;
pub use client::GameState;
pub use client::GlobalDetails;
pub use client::handle_room_service_message;
pub use client::Id;
pub use client::LocalStorage;
pub use client::MenuMessage;
pub use client::Menus;
pub use client::MenuSelection;
pub use client::Msg;
pub use client::NetworkClient;
pub use client::NewRequestEntity;
pub use client::OwnStates;
pub use client::Request;
pub use client::request_of_selection;
pub use client::RoomDetails;
pub use client::RoomMessageType;
pub use client::RoomState;
pub use client::TransportStatus;
pub use client::UserEvent;
pub use config::RedisConfig;
pub use config::Server;
pub use config::ServerConfig;
pub use client::wire_message_ok;
pub use errors::ApiError;
pub use errors::DbError;
pub use errors::ResultExtApp;
pub use errors::TransportCode;
pub use ident::game_id_string;
pub use ident::generate_name;
pub use ident::generate_room_number;
pub use ident::generate_user_id;
pub use ident::spec_game_id;
pub use ident::spec_user_id;
pub use laws::lemma_delete_room_find;
pub use laws::lemma_game_ids_time_ordered;
pub use laws::lemma_join_self_consistency;
pub use laws::lemma_ping_round_trip;
pub use laws::lemma_registry_room_agreement;
pub use laws::lemma_room_membership_invariants;
pub use laws::lemma_session_order_preservation;
pub use laws::lemma_single_residency;
pub use laws::lemma_upsert_user_find;
pub use models::clone_strings;
pub use models::clone_users;
pub use models::distinct_seqs;
pub use models::Game;
pub use models::GameStatus;
pub use models::ids_of;
pub use models::lemma_member_removed_facts;
pub use models::member_removed;
pub use models::Room;
pub use models::User;
pub use service::authenticate;
pub use service::bad_request;
pub use service::channel_inserted;
pub use service::cleanup_room_case;
pub use service::create_outcome;
pub use service::create_room;
pub use service::created_random;
pub use service::disconnect;
pub use service::disconnect_outcome;
pub use service::fresh_user_record;
pub use service::handle_room_service;
pub use service::join_filled;
pub use service::join_members;
pub use service::join_ok;
pub use service::join_outcome;
pub use service::join_records;
pub use service::join_room;
pub use service::join_unfilled;
pub use service::lemma_member_pointer;
pub use service::lemma_no_residency;
pub use service::lemma_unknown_in_no_room;
pub use service::ping;
pub use service::ping_outcome;
pub use service::register_user;
pub use service::resides_elsewhere;
pub use service::room_service;
pub use service::room_service_outcome;
pub use service::sent_all_users_joined;
pub use service::sent_room_created;
pub use service::sent_user_joined;
pub use service::session_appended;
pub use service::session_untouched;
pub use service::user_moved;
pub use session::same_except;
pub use session::Session;
pub use session::SESSION_QUEUE_CAPACITY;
pub use session::SessionMap;
pub use store::game_like;
pub use store::room_like;
pub use store::Store;
pub use text::lemma_fixed_decimal_len;
pub use text::lemma_fixed_decimal_order;
pub use text::lex_before;
pub use text::pow10;
pub use text::spec_decimal;
pub use text::spec_digit;
pub use text::spec_fixed_decimal;
pub use text::u64_to_fixed_string;
pub use text::u64_to_string;
pub use types::common_room_id;
pub use types::COMMON_ROOM_KEY;
pub use types::COMMON_ROOM_SIZE;
pub use types::details_of;
pub use types::GAME_PROMPT;
pub use types::game_prompt;
pub use types::msg_all_users_joined;
pub use types::msg_room_created;
pub use types::msg_user_joined;
pub use types::PingRequest;
pub use types::PingResponse;
pub use types::PRIVATE_ROOM_SIZE;
pub use types::RoomMessage;
pub use types::RoomServiceRequest;
pub use types::RoomServiceRequestType;
pub use types::RoomServiceResponse;
pub use types::RoomServiceResponseType;
pub use types::UserDetails;
