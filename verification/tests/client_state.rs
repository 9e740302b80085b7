use blazer::handle_room_service_message;
use blazer::AppState;
use blazer::AppStateUpdate;
use blazer::DisplayNetworkError;
use blazer::GlobalDetails;
use blazer::LocalStorage;
use blazer::MenuSelection;
use blazer::Menus;
use blazer::NetworkClient;
use blazer::NewRequestEntity;
use blazer::OwnStates;
use blazer::RoomMessageType;
use blazer::RoomServiceResponse;
use blazer::RoomState;
use blazer::TransportCode;
use blazer::TransportStatus;
use blazer::UserDetails;
use blazer::UserEvent;

fn details(user_id: &str) -> UserDetails {
    UserDetails {
        user_id: user_id.to_string(),
        user_name: "Swift Falcon".to_string(),
        games_played: 0,
        rank: 0,
    }
}

#[test]
fn apply_update_sets_identity_and_rooms() {
    let state = AppState::default();
    let state = state.apply_update(AppStateUpdate::UserIdUpdate { user_id: "u1".to_string() });
    assert_eq!(state.user_id, Some("u1".to_string()));
    assert_eq!(state.room_details, None);

    let state = state.apply_update(AppStateUpdate::RoomUpdate {
        room_id: "r1".to_string(),
        users: vec![details("u1")],
    });
    assert_eq!(
        state.room_details,
        Some(RoomState { room_id: "r1".to_string(), room_users: vec![details("u1")] })
    );

    let state = state.apply_update(AppStateUpdate::UserRoomJoin {
        users: vec![details("u1"), details("u2")],
    });
    assert_eq!(
        state.room_details,
        Some(RoomState {
            room_id: "r1".to_string(),
            room_users: vec![details("u1"), details("u2")],
        })
    );
    assert_eq!(state.user_id, Some("u1".to_string()));

    let state = state.apply_update(AppStateUpdate::GameStart {
        room_id: "r2".to_string(),
        users: vec![details("u2")],
    });
    assert_eq!(
        state.room_details,
        Some(RoomState { room_id: "r2".to_string(), room_users: vec![details("u2")] })
    );
}

#[test]
fn stream_messages_become_interface_events() {
    let mut client = NetworkClient::default();
    handle_room_service_message(
        RoomServiceResponse {
            room_id: Some("r1".to_string()),
            message_type: 1,
            user_details: vec![details("u1")],
        },
        &mut client,
    );
    handle_room_service_message(
        RoomServiceResponse {
            room_id: None,
            message_type: 2,
            user_details: vec![details("u1"), details("u2")],
        },
        &mut client,
    );
    handle_room_service_message(
        RoomServiceResponse {
            room_id: Some("r1".to_string()),
            message_type: 3,
            user_details: vec![details("u1"), details("u2")],
        },
        &mut client,
    );

    assert_eq!(
        client.poll(),
        Some(UserEvent::RoomCreated { room_id: "r1".to_string(), users: vec![details("u1")] })
    );
    assert_eq!(
        client.poll(),
        Some(UserEvent::UserJoined { users: vec![details("u1"), details("u2")] })
    );
    assert_eq!(
        client.poll(),
        Some(UserEvent::GameStart {
            room_id: "r1".to_string(),
            users: vec![details("u1"), details("u2")],
        })
    );
    assert_eq!(client.poll(), None);
}

#[test]
fn message_type_decoding() {
    assert_eq!(RoomMessageType::from_u8(1), RoomMessageType::Init);
    assert_eq!(RoomMessageType::from_u8(2), RoomMessageType::UserJoined);
    assert_eq!(RoomMessageType::from_u8(3), RoomMessageType::GameStart);
}

#[test]
fn error_handler_queues_network_errors() {
    let mut client = NetworkClient::default();
    let ok: Result<u32, TransportStatus> = Ok(5);
    assert_eq!(ok.error_handler(&mut client), Some(5));
    assert_eq!(client.poll(), None);

    let err: Result<u32, TransportStatus> = Err(TransportStatus {
        code: TransportCode::NotFound,
        message: "no such room".to_string(),
    });
    assert_eq!(err.error_handler(&mut client), None);
    assert_eq!(client.poll(), Some(UserEvent::NetworkError("no such room".to_string())));
}

#[test]
fn menu_metadata() {
    assert_eq!(Menus::from_u8(0), Menus::NewGame);
    assert_eq!(Menus::from_u8(1), Menus::CreateRoom);
    assert_eq!(Menus::from_u8(2), Menus::JoinRoom);
    assert_eq!(
        Menus::NewGame.get_helper_text(),
        "Create a game with random players who are online"
    );
    assert_eq!(Menus::CreateRoom.get_helper_text(), "Create a private room, invite your friends");
    assert_eq!(Menus::JoinRoom.get_helper_text(), "Join a private room");
    assert_eq!(Menus::NewGame.to_string(), "New Game");
    assert_eq!(Menus::CreateRoom.to_string(), "Create Room");
    assert_eq!(Menus::JoinRoom.to_string(), "Join Room");
}

#[test]
fn menu_selections_become_requests() {
    let entity = NewRequestEntity::from(MenuSelection::JoinRoom { room_id: "42".to_string() });
    let request = entity.to_request("u1".to_string());
    assert_eq!(request.client_id, "u1");
    assert_eq!(request.room_id, Some("42".to_string()));
    assert_eq!(request.request_type, 2);

    let request =
        NewRequestEntity::from(MenuSelection::NewGame).to_request("u1".to_string());
    assert_eq!(request.room_id, None);
    assert_eq!(request.request_type, 2);

    let request =
        NewRequestEntity::from(MenuSelection::CreateRoom).to_request("u1".to_string());
    assert_eq!(request.room_id, None);
    assert_eq!(request.request_type, 1);
}

#[test]
fn local_storage_remembers_the_identity() {
    let storage = LocalStorage::new("u7".to_string());
    assert_eq!(storage.client_id, Some("u7".to_string()));
}

#[test]
fn details_panel_follows_events() {
    let mut panel = OwnStates::default();
    assert_eq!(panel.global_details, GlobalDetails { active_games: 0, active_players: 0 });
    assert!(!panel.is_in_waiting_room);

    panel.apply_event(UserEvent::RoomCreated {
        room_id: "r1".to_string(),
        users: vec![details("u1")],
    });
    assert!(panel.is_in_waiting_room);
    let room = panel.room_details.as_ref().unwrap();
    assert_eq!(room.room_id, "r1");
    assert_eq!(room.max_players, 2);
    assert_eq!(room.current_players, 1);

    panel.apply_event(UserEvent::UserJoined { users: vec![details("u1"), details("u2")] });
    assert_eq!(panel.users.len(), 2);
    assert_eq!(panel.room_details.as_ref().unwrap().current_players, 2);

    panel.apply_event(UserEvent::InfoMessage("hello".to_string()));
    assert_eq!(panel.users.len(), 2);
}

#[test]
fn configuration_defaults_are_local() {
    let server = blazer::Server::default();
    assert_eq!(server.host, "127.0.0.1");
    assert_eq!(server.port, "6969");
    let redis = blazer::RedisConfig::default();
    assert_eq!(redis.username, None);
    assert_eq!(redis.host, "127.0.0.1");
    assert_eq!(redis.port, 6379);
    assert_eq!(redis.password, None);
}
