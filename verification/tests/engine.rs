use blazer::disconnect;
use blazer::game_id_string;
use blazer::handle_room_service;
use blazer::ping;
use blazer::ApiError;
use blazer::DbError;
use blazer::GameStatus;
use blazer::PingRequest;
use blazer::Room;
use blazer::RoomMessage;
use blazer::RoomServiceRequest;
use blazer::RoomServiceResponse;
use blazer::Store;
use blazer::TransportCode;
use blazer::User;
use blazer::COMMON_ROOM_KEY;
use blazer::GAME_PROMPT;

fn new_identity(store: &mut Store) -> (String, String) {
    let resp = ping(store, PingRequest { user_id: None }).unwrap();
    (resp.user_id, resp.user_name)
}

fn join_request(client_id: &str, room_id: Option<&str>) -> RoomServiceRequest {
    RoomServiceRequest {
        client_id: client_id.to_string(),
        room_id: room_id.map(|r| r.to_string()),
        request_type: 2,
    }
}

fn create_request(client_id: &str, room_id: Option<&str>) -> RoomServiceRequest {
    RoomServiceRequest {
        client_id: client_id.to_string(),
        room_id: room_id.map(|r| r.to_string()),
        request_type: 1,
    }
}

fn user_record(user_id: &str, user_name: &str, room_id: Option<&str>) -> User {
    User {
        user_id: user_id.to_string(),
        user_name: user_name.to_string(),
        games_played: 0,
        player_rank: 0,
        room_id: room_id.map(|r| r.to_string()),
        game_id: None,
    }
}

#[test]
fn identity_bootstrap() {
    let mut store = Store::new();
    let resp = ping(&mut store, PingRequest { user_id: None }).unwrap();
    assert!(!resp.user_name.is_empty());
    assert!(resp.user_id.starts_with("user-"));

    let again = ping(&mut store, PingRequest { user_id: Some(resp.user_id.clone()) }).unwrap();
    assert_eq!(again.user_id, resp.user_id);
    assert_eq!(again.user_name, resp.user_name);

    let err =
        ping(&mut store, PingRequest { user_id: Some("nonexistent".to_string()) }).unwrap_err();
    assert!(matches!(err, ApiError::UserNotFound { .. }));
    assert!(matches!(err.transport_code(), TransportCode::NotFound));
}

#[test]
fn private_room_create_then_fill() {
    let mut store = Store::new();
    let (ua, na) = new_identity(&mut store);
    let (ub, nb) = new_identity(&mut store);

    handle_room_service(&mut store, create_request(&ua, Some("123456"))).unwrap();
    let msg = store.take_message(&ua).unwrap();
    assert_eq!(
        msg,
        RoomMessage::RoomCreated {
            room_id: "123456".to_string(),
            users: vec![user_record(&ua, &na, None)],
        }
    );
    let wire = RoomServiceResponse::from_message(msg);
    assert_eq!(wire.message_type, 1);
    assert_eq!(wire.room_id, Some("123456".to_string()));

    // The creator is not yet a member; it must join its own room.
    handle_room_service(&mut store, join_request(&ua, Some("123456"))).unwrap();
    let msg = store.take_message(&ua).unwrap();
    assert_eq!(
        msg,
        RoomMessage::RoomCreated {
            room_id: "123456".to_string(),
            users: vec![user_record(&ua, &na, Some("123456"))],
        }
    );

    handle_room_service(&mut store, join_request(&ub, Some("123456"))).unwrap();
    let roster = vec![
        user_record(&ua, &na, Some("123456")),
        user_record(&ub, &nb, Some("123456")),
    ];
    let msg_a = store.take_message(&ua).unwrap();
    let msg_b = store.take_message(&ub).unwrap();
    for msg in [msg_a, msg_b] {
        assert!(msg.should_close_stream());
        let wire = RoomServiceResponse::from_message(msg);
        assert_eq!(wire.message_type, 3);
        assert_eq!(wire.room_id, Some("123456".to_string()));
        assert_eq!(wire.user_details.len(), 2);
        assert_eq!(wire.user_details[0].user_id, roster[0].user_id);
        assert_eq!(wire.user_details[1].user_id, roster[1].user_id);
    }

    // The filled private room is gone; the game was persisted.
    let err = store.find_room(&"123456".to_string()).unwrap_err();
    assert!(err.is_not_found());
    let game = store.find_game(&game_id_string(0)).unwrap();
    assert_eq!(game.users_in_game, vec![ua.clone(), ub.clone()]);
    assert_eq!(game.prompt, GAME_PROMPT);
    assert_eq!(game.game_status, GameStatus::Init);
}

#[test]
fn common_room_matchmaking() {
    let mut store = Store::new();
    let (ua, na) = new_identity(&mut store);
    let (ub, nb) = new_identity(&mut store);

    handle_room_service(&mut store, join_request(&ua, None)).unwrap();
    let msg = store.take_message(&ua).unwrap();
    assert_eq!(
        msg,
        RoomMessage::RoomCreated {
            room_id: COMMON_ROOM_KEY.to_string(),
            users: vec![user_record(&ua, &na, Some(COMMON_ROOM_KEY))],
        }
    );
    let wire = RoomServiceResponse::from_message(msg);
    assert_eq!(wire.message_type, 1);

    handle_room_service(&mut store, join_request(&ub, None)).unwrap();
    let roster = vec![
        user_record(&ua, &na, Some(COMMON_ROOM_KEY)),
        user_record(&ub, &nb, Some(COMMON_ROOM_KEY)),
    ];
    let msg_a = store.take_message(&ua).unwrap();
    assert_eq!(
        msg_a,
        RoomMessage::AllUsersJoined {
            room_id: COMMON_ROOM_KEY.to_string(),
            users: roster.clone(),
        }
    );
    let msg_b = store.take_message(&ub).unwrap();
    assert_eq!(
        msg_b,
        RoomMessage::AllUsersJoined { room_id: COMMON_ROOM_KEY.to_string(), users: roster },
    );

    // The common room is cleared, not deleted.
    let common = store.find_room(&COMMON_ROOM_KEY.to_string()).unwrap();
    assert_eq!(common.room_id, COMMON_ROOM_KEY);
    assert!(common.users.is_empty());
}

#[test]
fn join_missing_room_is_not_found() {
    let mut store = Store::new();
    let (ua, _) = new_identity(&mut store);
    let err = handle_room_service(&mut store, join_request(&ua, Some("999999"))).unwrap_err();
    assert_eq!(err, ApiError::RoomNotFound { room_id: "999999".to_string() });
    assert!(matches!(err.transport_code(), TransportCode::NotFound));
}

#[test]
fn unknown_caller_is_not_found() {
    let mut store = Store::new();
    let err = handle_room_service(&mut store, join_request("ghost", None)).unwrap_err();
    assert_eq!(err, ApiError::UserNotFound { user_id: "ghost".to_string() });
}

#[test]
fn invalid_request_type_is_bad_request() {
    let mut store = Store::new();
    let (ua, _) = new_identity(&mut store);
    let request =
        RoomServiceRequest { client_id: ua.clone(), room_id: None, request_type: 7 };
    let err = handle_room_service(&mut store, request).unwrap_err();
    assert!(matches!(err, ApiError::BadRequest { .. }));
    assert!(matches!(err.transport_code(), TransportCode::InvalidArgument));
}

#[test]
fn disconnect_cleans_up_room_and_registry() {
    let mut store = Store::new();
    let (ua, _) = new_identity(&mut store);

    handle_room_service(&mut store, create_request(&ua, Some("555555"))).unwrap();
    handle_room_service(&mut store, join_request(&ua, Some("555555"))).unwrap();
    assert!(store.get_channel(&ua).is_some());

    disconnect(&mut store, &ua);
    let room = store.find_room(&"555555".to_string()).unwrap();
    assert!(!room.users.contains(&ua));
    assert!(store.get_channel(&ua).is_none());
}

#[test]
fn disconnect_removes_only_that_user() {
    let mut store = Store::new();
    let (ua, na) = new_identity(&mut store);
    let (ub, nb) = new_identity(&mut store);
    store.insert_channel(&ua).unwrap();
    store.insert_channel(&ub).unwrap();
    store.insert_user(user_record(&ua, &na, Some("777777"))).unwrap();
    store.insert_user(user_record(&ub, &nb, Some("777777"))).unwrap();
    store
        .insert_room(Room {
            room_id: "777777".to_string(),
            room_size: 3,
            users: vec![ua.clone(), ub.clone()],
        })
        .unwrap();

    disconnect(&mut store, &ua);
    let room = store.find_room(&"777777".to_string()).unwrap();
    assert_eq!(room.users, vec![ub.clone()]);
    assert!(store.get_channel(&ua).is_none());
    assert!(store.get_channel(&ub).is_some());
}

#[test]
fn duplicate_join_is_invalid_argument() {
    let mut store = Store::new();
    let (ua, _) = new_identity(&mut store);
    handle_room_service(&mut store, create_request(&ua, Some("444444"))).unwrap();
    handle_room_service(&mut store, join_request(&ua, Some("444444"))).unwrap();

    let err = handle_room_service(&mut store, join_request(&ua, Some("444444"))).unwrap_err();
    assert!(matches!(err, ApiError::BadRequest { .. }));
    assert!(matches!(err.transport_code(), TransportCode::InvalidArgument));
}

#[test]
fn joining_full_room_fails_and_leaves_members() {
    let mut store = Store::new();
    let (ua, na) = new_identity(&mut store);
    let (ub, nb) = new_identity(&mut store);
    let (uc, _) = new_identity(&mut store);
    store.insert_channel(&ua).unwrap();
    store.insert_channel(&ub).unwrap();
    store.insert_user(user_record(&ua, &na, Some("888888"))).unwrap();
    store.insert_user(user_record(&ub, &nb, Some("888888"))).unwrap();
    store
        .insert_room(Room {
            room_id: "888888".to_string(),
            room_size: 2,
            users: vec![ua.clone(), ub.clone()],
        })
        .unwrap();

    let err = handle_room_service(&mut store, join_request(&uc, Some("888888"))).unwrap_err();
    assert!(matches!(err, ApiError::BadRequest { .. }));
    let room = store.find_room(&"888888".to_string()).unwrap();
    assert_eq!(room.users, vec![ua.clone(), ub.clone()]);
}

#[test]
fn creating_existing_room_fails() {
    let mut store = Store::new();
    let (ua, _) = new_identity(&mut store);
    handle_room_service(&mut store, create_request(&ua, Some("222222"))).unwrap();
    let err = handle_room_service(&mut store, create_request(&ua, Some("222222"))).unwrap_err();
    assert_eq!(err, ApiError::RoomAlreadyExists { room_id: "222222".to_string() });
    assert!(matches!(err.transport_code(), TransportCode::AlreadyExists));
}

#[test]
fn created_room_gets_six_digit_identifier() {
    let mut store = Store::new();
    let (ua, _) = new_identity(&mut store);
    handle_room_service(&mut store, create_request(&ua, None)).unwrap();
    let msg = store.take_message(&ua).unwrap();
    match msg {
        RoomMessage::RoomCreated { room_id, .. } => {
            assert_eq!(room_id.len(), 6);
            assert!(room_id.chars().all(|c| c.is_ascii_digit()));
            assert_ne!(room_id.chars().next(), Some('0'));
        }
        other => panic!("expected a room-created message, got {other:?}"),
    }
}

#[test]
fn upsert_then_find_returns_equal_user() {
    let mut store = Store::new();
    let user = user_record("user-42", "Quiet Otter", None);
    store.insert_user(user.clone()).unwrap();
    let found = store.find_user(&"user-42".to_string()).unwrap();
    assert_eq!(found, user);
}

#[test]
fn delete_then_find_room_is_not_found() {
    let mut store = Store::new();
    store
        .insert_room(Room { room_id: "314159".to_string(), room_size: 2, users: vec![] })
        .unwrap();
    store.delete_room(&"314159".to_string()).unwrap();
    let err = store.find_room(&"314159".to_string()).unwrap_err();
    assert!(matches!(err, DbError::NotFound));
}

#[test]
fn session_queue_is_first_in_first_out() {
    let mut store = Store::new();
    let uid = "user-fifo".to_string();
    store.insert_channel(&uid).unwrap();
    for room in ["1", "2", "3"] {
        let ok = store.send_message_to_user(
            &uid,
            RoomMessage::UserJoined { room_id: room.to_string(), users: vec![] },
        );
        assert!(ok);
    }
    for room in ["1", "2", "3"] {
        let msg = store.take_message(&uid).unwrap();
        assert_eq!(msg, RoomMessage::UserJoined { room_id: room.to_string(), users: vec![] });
    }
    assert!(store.take_message(&uid).is_none());
}

#[test]
fn send_to_unknown_session_is_dropped() {
    let mut store = Store::new();
    let ok = store.send_message_to_user(
        &"nobody".to_string(),
        RoomMessage::UserJoined { room_id: "1".to_string(), users: vec![] },
    );
    assert!(!ok);
}

#[test]
fn get_multiple_users_preserves_order_and_rejects_missing() {
    let mut store = Store::new();
    let a = user_record("user-a", "A", None);
    let b = user_record("user-b", "B", None);
    store.insert_user(b.clone()).unwrap();
    store.insert_user(a.clone()).unwrap();

    let found = store
        .get_multiple_users(vec!["user-a".to_string(), "user-b".to_string()])
        .unwrap();
    assert_eq!(found, vec![a, b]);

    let err = store
        .get_multiple_users(vec!["user-a".to_string(), "user-c".to_string()])
        .unwrap_err();
    assert!(matches!(err, DbError::ParsingFailure));
}

#[test]
fn common_room_exists_from_startup() {
    let store = Store::new();
    let common = store.find_room(&COMMON_ROOM_KEY.to_string()).unwrap();
    assert_eq!(common.room_id, COMMON_ROOM_KEY);
    assert_eq!(common.room_size, 2);
    assert!(common.users.is_empty());
}

#[test]
fn rooms_stay_bounded_and_duplicate_free() {
    let mut store = Store::new();
    let (ua, _) = new_identity(&mut store);
    let (ub, _) = new_identity(&mut store);
    handle_room_service(&mut store, create_request(&ua, Some("135790"))).unwrap();
    handle_room_service(&mut store, join_request(&ua, Some("135790"))).unwrap();

    // Membership bound and uniqueness of every persisted room; every
    // member also has a registered session.
    for room_id in ["135790", COMMON_ROOM_KEY] {
        let room = store.find_room(&room_id.to_string()).unwrap();
        assert!(room.users.len() <= room.room_size as usize);
        for (i, a) in room.users.iter().enumerate() {
            assert!(store.get_channel(a).is_some());
            for b in room.users.iter().skip(i + 1) {
                assert_ne!(a, b);
            }
        }
    }

    // A second member fills the room; it is deleted with nobody left over.
    handle_room_service(&mut store, join_request(&ub, Some("135790"))).unwrap();
    assert!(store.find_room(&"135790".to_string()).unwrap_err().is_not_found());
}

#[test]
fn join_announces_to_members_already_present() {
    let mut store = Store::new();
    let (ua, na) = new_identity(&mut store);
    let (ub, nb) = new_identity(&mut store);
    store
        .insert_room(Room { room_id: "654321".to_string(), room_size: 3, users: vec![] })
        .unwrap();

    handle_room_service(&mut store, join_request(&ua, Some("654321"))).unwrap();
    // The first member only hears about its own arrival.
    assert!(matches!(
        store.take_message(&ua),
        Some(RoomMessage::RoomCreated { .. })
    ));

    handle_room_service(&mut store, join_request(&ub, Some("654321"))).unwrap();
    let roster = vec![
        user_record(&ua, &na, Some("654321")),
        user_record(&ub, &nb, Some("654321")),
    ];
    // The member already present hears a user-joined with the full roster;
    // the newcomer hears the roster as its init message.
    let msg_a = store.take_message(&ua).unwrap();
    assert_eq!(
        msg_a,
        RoomMessage::UserJoined { room_id: "654321".to_string(), users: roster.clone() }
    );
    let wire = RoomServiceResponse::from_message(msg_a);
    assert_eq!(wire.message_type, 2);
    let msg_b = store.take_message(&ub).unwrap();
    assert_eq!(
        msg_b,
        RoomMessage::RoomCreated { room_id: "654321".to_string(), users: roster }
    );
    // Two of three seats taken: the room is still there.
    let room = store.find_room(&"654321".to_string()).unwrap();
    assert_eq!(room.users, vec![ua, ub]);
}

#[test]
fn full_session_queue_drops_further_messages() {
    let mut store = Store::new();
    let uid = "user-full".to_string();
    store.insert_channel(&uid).unwrap();
    for _ in 0..blazer::SESSION_QUEUE_CAPACITY {
        let ok = store.send_message_to_user(
            &uid,
            RoomMessage::UserJoined { room_id: "1".to_string(), users: vec![] },
        );
        assert!(ok);
    }
    let ok = store.send_message_to_user(
        &uid,
        RoomMessage::UserJoined { room_id: "overflow".to_string(), users: vec![] },
    );
    assert!(!ok);
    // The queue still drains in order and holds only what was accepted.
    let mut drained = 0;
    while let Some(msg) = store.take_message(&uid) {
        assert_eq!(msg, RoomMessage::UserJoined { room_id: "1".to_string(), users: vec![] });
        drained += 1;
    }
    assert_eq!(drained, blazer::SESSION_QUEUE_CAPACITY);
}
