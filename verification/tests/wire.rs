use blazer::generate_name;
use blazer::generate_room_number;
use blazer::generate_user_id;
use blazer::game_id_string;
use blazer::u64_to_fixed_string;
use blazer::u64_to_string;
use blazer::ApiError;
use blazer::DbError;
use blazer::ResultExtApp;
use blazer::Game;
use blazer::GameStatus;
use blazer::Room;
use blazer::RoomMessage;
use blazer::RoomServiceRequestType;
use blazer::RoomServiceResponse;
use blazer::RoomServiceResponseType;
use blazer::TransportCode;
use blazer::User;
use blazer::UserDetails;

fn sample_user(user_id: &str) -> User {
    User {
        user_id: user_id.to_string(),
        user_name: "Crimson Heron".to_string(),
        games_played: 4,
        player_rank: 7,
        room_id: None,
        game_id: None,
    }
}

#[test]
fn request_type_numbering() {
    assert_eq!(RoomServiceRequestType::from_u8(1), Some(RoomServiceRequestType::CreateRoom));
    assert_eq!(RoomServiceRequestType::from_u8(2), Some(RoomServiceRequestType::JoinRoom));
    assert_eq!(RoomServiceRequestType::from_u8(0), None);
    assert_eq!(RoomServiceRequestType::from_u8(3), None);
}

#[test]
fn response_type_numbering_round_trips() {
    assert_eq!(RoomServiceResponseType::Init.to_u8(), 1);
    assert_eq!(RoomServiceResponseType::UserJoined.to_u8(), 2);
    assert_eq!(RoomServiceResponseType::GameStart.to_u8(), 3);
    for value in 1u8..=3 {
        let decoded = RoomServiceResponseType::from_u8(value).unwrap();
        assert_eq!(decoded.to_u8(), value);
    }
    assert_eq!(RoomServiceResponseType::from_u8(0), None);
    assert_eq!(RoomServiceResponseType::from_u8(4), None);
}

#[test]
fn responses_carry_the_message_kind_and_roster() {
    let user = sample_user("user-9");
    let msg = RoomMessage::UserJoined { room_id: "31".to_string(), users: vec![user.clone()] };
    assert!(!msg.should_close_stream());
    let wire = RoomServiceResponse::from_message(msg);
    assert_eq!(wire.message_type, 2);
    assert_eq!(wire.room_id, Some("31".to_string()));
    assert_eq!(
        wire.user_details,
        vec![UserDetails {
            user_id: "user-9".to_string(),
            user_name: "Crimson Heron".to_string(),
            games_played: 4,
            rank: 7,
        }]
    );

    let created = RoomMessage::RoomCreated { room_id: "31".to_string(), users: vec![] };
    assert_eq!(RoomServiceResponse::from_message(created).message_type, 1);
    let joined = RoomMessage::RoomJoined { room_id: "31".to_string(), users: vec![] };
    assert_eq!(RoomServiceResponse::from_message(joined).message_type, 1);
    let filled = RoomMessage::AllUsersJoined { room_id: "31".to_string(), users: vec![] };
    assert!(filled.should_close_stream());
    assert_eq!(RoomServiceResponse::from_message(filled).message_type, 3);
}

#[test]
fn transport_codes_cover_every_error() {
    let cases = vec![
        (ApiError::UserNotFound { user_id: "u".to_string() }, TransportCode::NotFound),
        (ApiError::RoomNotFound { room_id: "r".to_string() }, TransportCode::NotFound),
        (ApiError::UserAlreadyExists { user_id: "u".to_string() }, TransportCode::AlreadyExists),
        (ApiError::RoomAlreadyExists { room_id: "r".to_string() }, TransportCode::AlreadyExists),
        (ApiError::BadRequest { message: "m".to_string() }, TransportCode::InvalidArgument),
        (ApiError::InternalServerError, TransportCode::Internal),
    ];
    for (error, code) in cases {
        assert_eq!(error.transport_code(), code);
    }
}

#[test]
fn decimal_rendering_is_exact() {
    assert_eq!(u64_to_string(0), "0");
    assert_eq!(u64_to_string(42), "42");
    assert_eq!(u64_to_string(999999), "999999");
    assert_eq!(u64_to_string(u64::MAX), "18446744073709551615");
    assert_eq!(u64_to_fixed_string(42, 5), "00042");
    assert_eq!(u64_to_fixed_string(0, 3), "000");
    assert_eq!(u64_to_fixed_string(12345, 5), "12345");
}

#[test]
fn game_identifiers_sort_by_creation_time() {
    let early = game_id_string(7);
    let late = game_id_string(80);
    assert!(early.starts_with("game-"));
    assert_eq!(early.len(), "game-".len() + 20);
    assert!(early < late);
}

#[test]
fn generated_identities_are_well_formed() {
    let id = generate_user_id();
    assert!(id.starts_with("user-"));
    assert!(id.len() > "user-".len());
    assert!(!generate_name().is_empty());
    for _ in 0..32 {
        let n = generate_room_number();
        assert!((100000..1000000).contains(&n));
    }
}

#[test]
fn rooms_track_membership() {
    let mut room = Room::new("55".to_string(), 3);
    assert!(room.users.is_empty());
    let uid = "user-1".to_string();
    assert!(!room.contains_user(&uid));
    assert_eq!(room.add_user(uid.clone()), 1);
    assert!(room.contains_user(&uid));
    assert_eq!(room.add_user("user-2".to_string()), 2);

    assert_eq!(room.remove_user("user-1".to_string()), 1);
    assert_eq!(room.users, vec!["user-2".to_string()]);
    // Removing an absent member changes nothing.
    assert_eq!(room.remove_user("user-1".to_string()), 1);
    assert_eq!(room.users, vec!["user-2".to_string()]);
}

#[test]
fn new_users_start_blank() {
    let mut user = User::new();
    assert!(user.user_id.starts_with("user-"));
    assert!(!user.user_name.is_empty());
    assert_eq!(user.games_played, 0);
    assert_eq!(user.player_rank, 0);
    assert_eq!(user.room_id, None);
    assert_eq!(user.game_id, None);
    user.assign_room_id("12".to_string());
    assert_eq!(user.room_id, Some("12".to_string()));
}

#[test]
fn games_record_their_participants() {
    let users = vec![sample_user("user-a"), sample_user("user-b")];
    let game = Game::new("game-1".to_string(), &users, "prompt".to_string());
    assert_eq!(game.game_id, "game-1");
    assert_eq!(game.users_in_game, vec!["user-a".to_string(), "user-b".to_string()]);
    assert_eq!(game.game_status, GameStatus::Init);
    assert_eq!(game.prompt, "prompt");
}

#[test]
fn db_error_kinds() {
    assert!(DbError::NotFound.is_not_found());
    assert!(!DbError::DuplicateValue.is_not_found());
    assert!(!DbError::ParsingFailure.is_not_found());
    assert!(!DbError::Other("connection reset".to_string()).is_not_found());
}

#[test]
fn store_errors_reduce_to_api_errors() {
    let ok: Result<u32, DbError> = Ok(3);
    assert_eq!(ok.to_not_found(ApiError::RoomNotFound { room_id: "r".to_string() }), Ok(3));
    let not_found: Result<u32, DbError> = Err(DbError::NotFound);
    assert_eq!(
        not_found.to_not_found(ApiError::RoomNotFound { room_id: "r".to_string() }),
        Err(ApiError::RoomNotFound { room_id: "r".to_string() })
    );
    let parse: Result<u32, DbError> = Err(DbError::ParsingFailure);
    assert_eq!(
        parse.to_not_found(ApiError::RoomNotFound { room_id: "r".to_string() }),
        Err(ApiError::InternalServerError)
    );
    let dup: Result<u32, DbError> = Err(DbError::DuplicateValue);
    assert_eq!(
        dup.to_duplicate(ApiError::UserAlreadyExists { user_id: "u".to_string() }),
        Err(ApiError::UserAlreadyExists { user_id: "u".to_string() })
    );
    let other: Result<u32, DbError> = Err(DbError::Other("connection reset".to_string()));
    assert_eq!(other.to_internal_api_error(), Err(ApiError::InternalServerError));
}
