//! The request handlers: identity (`ping`) and the room coordinator
//! (`room_service` with its `create_room` / `join_room` arms), the
//! per-session cleanup (`disconnect`), and the authentication wrapper.
//!
//! Each handler's contract describes the store after the call exactly: on
//! which inputs it succeeds, which error each rejected input earns, how
//! the maps change, and which message every affected session queue
//! receives.

use vstd::prelude::*;

use crate::errors::ApiError;
use crate::errors::ResultExtApp;
use crate::ident;
use crate::models::clone_strings;
use crate::models::clone_users;
use crate::models::distinct_seqs;
use crate::models::ids_of;
use crate::models::lemma_member_removed_facts;
use crate::models::member_removed;
use crate::models::Game;
use crate::models::Room;
use crate::models::User;
use crate::session::same_except;
use crate::session::Session;
use crate::session::SESSION_QUEUE_CAPACITY;
use crate::store::Store;
use crate::text::spec_decimal;
use crate::types::common_room_id;
use crate::types::game_prompt;
use crate::types::msg_all_users_joined;
use crate::types::msg_room_created;
use crate::types::msg_user_joined;
use crate::types::PingRequest;
use crate::types::PingResponse;
use crate::types::RoomMessage;
use crate::types::RoomServiceRequest;
use crate::types::RoomServiceRequestType;
use crate::types::COMMON_ROOM_KEY;
use crate::types::GAME_PROMPT;
use crate::types::PRIVATE_ROOM_SIZE;

verus! {

/// `post` is `pre` with exactly one more message at the back of the
/// queue; nothing was delivered meanwhile.
pub open spec fn session_appended(pre: Session, post: Session) -> bool {
    &&& post.queue@.len() == pre.queue@.len() + 1
    &&& post.queue@.take(pre.queue@.len() as int) == pre.queue@
    &&& post.delivered@ == pre.delivered@
    &&& post.history@ == pre.history@.push(post.queue@.last())
}

/// `uid`'s registration and session are untouched.
pub open spec fn session_untouched(
    pre: crate::session::SessionMap,
    post: crate::session::SessionMap,
    uid: Seq<char>,
) -> bool {
    &&& post.contains(uid) == pre.contains(uid)
    &&& (pre.contains(uid) ==> post.at(uid) == pre.at(uid))
}

/// A send attempt of a `UserJoined{rid, recs}` message to `uid`: appended
/// when the queue has room, dropped (queue untouched) when it is full.
pub open spec fn sent_user_joined(
    pre: crate::session::SessionMap,
    post: crate::session::SessionMap,
    uid: Seq<char>,
    rid: Seq<char>,
    recs: Seq<User>,
) -> bool {
    &&& post.contains(uid) == pre.contains(uid)
    &&& (pre.contains(uid) ==> if pre.at(uid).queue@.len() < SESSION_QUEUE_CAPACITY {
        session_appended(pre.at(uid), post.at(uid)) && msg_user_joined(
            post.at(uid).queue@.last(),
            rid,
            recs,
        )
    } else {
        post.at(uid) == pre.at(uid)
    })
}

/// A send attempt of a `RoomCreated{rid, recs}` message to `uid`.
pub open spec fn sent_room_created(
    pre: crate::session::SessionMap,
    post: crate::session::SessionMap,
    uid: Seq<char>,
    rid: Seq<char>,
    recs: Seq<User>,
) -> bool {
    &&& post.contains(uid) == pre.contains(uid)
    &&& (pre.contains(uid) ==> if pre.at(uid).queue@.len() < SESSION_QUEUE_CAPACITY {
        session_appended(pre.at(uid), post.at(uid)) && msg_room_created(
            post.at(uid).queue@.last(),
            rid,
            recs,
        )
    } else {
        post.at(uid) == pre.at(uid)
    })
}

/// A send attempt of an `AllUsersJoined{rid, recs}` message to `uid`.
pub open spec fn sent_all_users_joined(
    pre: crate::session::SessionMap,
    post: crate::session::SessionMap,
    uid: Seq<char>,
    rid: Seq<char>,
    recs: Seq<User>,
) -> bool {
    &&& post.contains(uid) == pre.contains(uid)
    &&& (pre.contains(uid) ==> if pre.at(uid).queue@.len() < SESSION_QUEUE_CAPACITY {
        session_appended(pre.at(uid), post.at(uid)) && msg_all_users_joined(
            post.at(uid).queue@.last(),
            rid,
            recs,
        )
    } else {
        post.at(uid) == pre.at(uid)
    })
}

/// A member of an existing room has a stored user record whose `room_id`
/// points back at that room, and a registered session.
pub proof fn lemma_member_pointer(s: Store, rid: Seq<char>, uid: Seq<char>)
    requires
        s.inv(),
        s.in_room(rid, uid),
    ensures
        s.users@.dom().contains(uid),
        s.users@[uid].room_id matches Some(r) && r@ == rid,
        s.sessions.contains(uid),
{
    let ids = s.rooms@[rid].member_ids();
    let i = choose|i: int| 0 <= i < ids.len() && ids[i] == uid;
    assert(s.member_ok(rid, i));
}

/// An identifier with no stored user record resides in no room.
pub proof fn lemma_unknown_in_no_room(s: Store, uid: Seq<char>)
    requires
        s.inv(),
        !s.users@.dom().contains(uid),
    ensures
        s.in_no_room(uid),
{
    assert forall|rid: Seq<char>| !s.in_room(rid, uid) by {
        if s.in_room(rid, uid) {
            lemma_member_pointer(s, rid, uid);
        }
    }
}

/// A stored user whose own `room_id` pointer does not witness a
/// membership resides in no room.
pub proof fn lemma_no_residency(s: Store, user: User)
    requires
        s.inv(),
        s.users@.dom().contains(user.user_id@),
        s.users@[user.user_id@] == user,
        user.room_id matches Some(r) ==> !s.in_room(r@, user.user_id@),
    ensures
        s.in_no_room(user.user_id@),
{
    let uid = user.user_id@;
    assert forall|rid: Seq<char>| !s.in_room(rid, uid) by {
        if s.in_room(rid, uid) {
            lemma_member_pointer(s, rid, uid);
        }
    }
}

/// Resolves `user_id` to its stored record; `UserNotFound` exactly when
/// no such user exists.
pub fn authenticate(store: &Store, user_id: String) -> (r: Result<User, ApiError>)
    ensures
        store.users@.dom().contains(user_id@) ==> (r matches Ok(u) && u
            == store.users@[user_id@]),
        !store.users@.dom().contains(user_id@) ==> (r matches Err(e) && e matches
            ApiError::UserNotFound { user_id: u } && u@ == user_id@),
{
    let found = store.find_user(&user_id);
    found.to_not_found(ApiError::UserNotFound { user_id })
}

/// The new record stored for a freshly issued identity: zeroed counters,
/// in no room and no game.
pub open spec fn fresh_user_record(u: User) -> bool {
    &&& u.games_played == 0
    &&& u.player_rank == 0
    &&& u.room_id is None
    &&& u.game_id is None
}

/// What `ping` did, given the request and the result.
pub open spec fn ping_outcome(
    pre: Store,
    post: Store,
    request: PingRequest,
    r: Result<PingResponse, ApiError>,
) -> bool {
    match request.user_id {
        Some(s) => {
            &&& post == pre
            &&& if pre.users@.dom().contains(s@) {
                r matches Ok(resp) && resp.user_id == pre.users@[s@].user_id && resp.user_name
                    == pre.users@[s@].user_name
            } else {
                r matches Err(e) && e matches ApiError::UserNotFound { user_id: u } && u@ == s@
            }
        },
        None => match r {
            Ok(resp) => {
                &&& !pre.users@.dom().contains(resp.user_id@)
                &&& resp.user_name@.len() > 0
                &&& post.users@ == pre.users@.insert(resp.user_id@, post.users@[resp.user_id@])
                &&& post.users@[resp.user_id@].user_id == resp.user_id
                &&& post.users@[resp.user_id@].user_name == resp.user_name
                &&& fresh_user_record(post.users@[resp.user_id@])
                &&& post.rooms == pre.rooms
                &&& post.games == pre.games
                &&& post.sessions == pre.sessions
                &&& post.game_seq == pre.game_seq
            },
            Err(e) => e matches ApiError::UserAlreadyExists { .. } && post == pre,
        },
    }
}

/// Persists a freshly issued identity; `UserAlreadyExists` exactly when
/// the generated identifier collides with a stored one (the caller then
/// simply pings again).
pub fn register_user(store: &mut Store, user: User) -> (r: Result<PingResponse, ApiError>)
    requires
        old(store).inv(),
        user.room_id is None,
    ensures
        final(store).inv(),
        !old(store).users@.dom().contains(user.user_id@) ==> (r matches Ok(resp) && {
            &&& resp.user_id == user.user_id
            &&& resp.user_name == user.user_name
            &&& final(store).users@ == old(store).users@.insert(user.user_id@, user)
            &&& final(store).rooms == old(store).rooms
            &&& final(store).games == old(store).games
            &&& final(store).sessions == old(store).sessions
            &&& final(store).game_seq == old(store).game_seq
        }),
        old(store).users@.dom().contains(user.user_id@) ==> (r matches Err(e) && e matches
            ApiError::UserAlreadyExists { user_id: u } && u == user.user_id && *final(store)
            == *old(store)),
{
    let user_id = user.user_id.clone();
    match store.find_user(&user_id) {
        Ok(_) => Err(ApiError::UserAlreadyExists { user_id }),
        Err(_) => {
            proof {
                lemma_unknown_in_no_room(*store, user.user_id@);
            }
            let stored = match store.insert_user(user) {
                Ok(u) => u,
                Err(_) => {
                    proof {
                        assert(false);
                    }
                    return Err(ApiError::InternalServerError);
                },
            };
            Ok(PingResponse { user_id: stored.user_id, user_name: stored.user_name })
        },
    }
}

/// The identity endpoint. A known identifier is recognized and its record
/// returned; an unknown one is rejected; an absent one is issued a fresh
/// identity (generated identifier and display name), persisted with
/// zeroed counters.
pub fn ping(store: &mut Store, request: PingRequest) -> (r: Result<PingResponse, ApiError>)
    requires
        old(store).inv(),
    ensures
        final(store).inv(),
        ping_outcome(*old(store), *final(store), request, r),
{
    match request.user_id {
        Some(user_id) => {
            match store.find_user(&user_id) {
                Ok(u) => Ok(PingResponse { user_id: u.user_id, user_name: u.user_name }),
                Err(_) => Err(ApiError::UserNotFound { user_id }),
            }
        },
        None => {
            let new_user = User::new();
            register_user(store, new_user)
        },
    }
}

/// What `create_room` did for target room `rid`.
pub open spec fn create_outcome(
    pre: Store,
    post: Store,
    user: User,
    rid: Seq<char>,
    r: Result<(), ApiError>,
) -> bool {
    let uid = user.user_id@;
    if pre.rooms@.dom().contains(rid) {
        &&& r matches Err(e) && e matches ApiError::RoomAlreadyExists { room_id: rr } && rr@ == rid
        &&& post == pre
    } else {
        &&& r is Ok
        &&& post.rooms@.dom() == pre.rooms@.dom().insert(rid)
        &&& forall|o: Seq<char>|
            o != rid && pre.rooms@.dom().contains(o) ==> post.rooms@[o] == #[trigger] pre.rooms@[o]
        &&& post.rooms@[rid].room_id@ == rid
        &&& post.rooms@[rid].room_size == PRIVATE_ROOM_SIZE
        &&& post.rooms@[rid].member_ids() == Seq::<Seq<char>>::empty()
        &&& post.users == pre.users
        &&& post.games == pre.games
        &&& post.game_seq == pre.game_seq
        &&& sent_room_created(pre.sessions, post.sessions, uid, rid, seq![user])
        &&& same_except(pre.sessions, post.sessions, uid)
    }
}

/// The create-room arm: constructs an empty private room under `room_id`
/// and announces it to the caller's own session. The caller is *not* made
/// a member; membership comes from a later join. Fails with
/// `RoomAlreadyExists` exactly when the identifier is taken.
pub fn create_room(store: &mut Store, user: User, room_id: String) -> (r: Result<(), ApiError>)
    requires
        old(store).inv(),
    ensures
        final(store).inv(),
        create_outcome(*old(store), *final(store), user, room_id@, r),
{
    let ghost uid = user.user_id@;
    match store.find_room(&room_id) {
        Ok(_) => Err(ApiError::RoomAlreadyExists { room_id }),
        Err(_) => {
            let room = Room::new(room_id.clone(), PRIVATE_ROOM_SIZE);
            let db_room = match store.insert_room(room) {
                Ok(room) => room,
                Err(_) => {
                    proof {
                        assert(false);
                    }
                    return Err(ApiError::InternalServerError);
                },
            };
            let target = user.user_id.clone();
            let mut roster: Vec<User> = Vec::new();
            roster.push(user);
            let message = RoomMessage::RoomCreated { room_id: db_room.room_id, users: roster };
            let ghost gmsg = message;
            store.send_message_to_user(&target, message);
            proof {
                assert(store.rooms@[room_id@].member_ids() =~= Seq::<Seq<char>>::empty());
                assert(gmsg.spec_users() =~= seq![user]);
                assert(msg_room_created(gmsg, room_id@, seq![user]));
                let pre = *old(store);
                if pre.sessions.contains(uid) && pre.sessions.at(uid).queue@.len()
                    < SESSION_QUEUE_CAPACITY {
                    assert(store.sessions.at(uid).queue@.take(
                        pre.sessions.at(uid).queue@.len() as int,
                    ) =~= pre.sessions.at(uid).queue@);
                    assert(store.sessions.at(uid).queue@.last() == gmsg);
                }
            }
            Ok(())
        },
    }
}

/// The caller's record says it resides in some other room, and it really
/// is a member there.
pub open spec fn resides_elsewhere(pre: Store, user: User, rid: Seq<char>) -> bool {
    user.room_id matches Some(rr) && rr@ != rid && pre.in_room(rr@, user.user_id@)
}

/// `post_u` is `user` moved into room `rid`: the same record with only
/// the room pointer changed.
pub open spec fn user_moved(post_u: User, user: User, rid: Seq<char>) -> bool {
    &&& post_u.user_id == user.user_id
    &&& post_u.user_name == user.user_name
    &&& post_u.games_played == user.games_played
    &&& post_u.player_rank == user.player_rank
    &&& post_u.game_id == user.game_id
    &&& post_u.room_id matches Some(rr) && rr@ == rid
}

/// The request was rejected as malformed.
pub open spec fn bad_request(r: Result<(), ApiError>) -> bool {
    r matches Err(e) && e matches ApiError::BadRequest { .. }
}

/// The member list of room `rid` right after the caller joins.
pub open spec fn join_members(pre: Store, rid: Seq<char>, uid: Seq<char>) -> Seq<Seq<char>> {
    pre.rooms@[rid].member_ids().push(uid)
}

/// The stored records of `members`, in member order.
pub open spec fn join_records(post: Store, members: Seq<Seq<char>>) -> Seq<User> {
    members.map_values(|id: Seq<char>| post.users@[id])
}

/// What `join_room` did for target room `rid` — which error each rejected
/// input earns (if and only if), and on success how the member joined,
/// who was told what, and whether the room filled.
pub open spec fn join_outcome(
    pre: Store,
    post: Store,
    user: User,
    rid: Seq<char>,
    r: Result<(), ApiError>,
) -> bool {
    let uid = user.user_id@;
    if !pre.rooms@.dom().contains(rid) {
        &&& r matches Err(e) && e matches ApiError::RoomNotFound { room_id: rr } && rr@ == rid
        &&& post == pre
    } else if pre.rooms@[rid].member_ids().contains(uid) {
        bad_request(r) && post == pre
    } else if resides_elsewhere(pre, user, rid) {
        bad_request(r) && post == pre
    } else if pre.rooms@[rid].member_ids().len() >= pre.rooms@[rid].room_size {
        bad_request(r) && post == pre
    } else {
        r is Ok && join_ok(pre, post, user, rid)
    }
}

/// The successful-join state change common to both the filled and the
/// not-yet-full case: the caller's record moves into the room.
pub open spec fn join_ok(pre: Store, post: Store, user: User, rid: Seq<char>) -> bool {
    let uid = user.user_id@;
    let members = join_members(pre, rid, uid);
    &&& post.users@.dom() == pre.users@.dom().insert(uid)
    &&& (forall|o: Seq<char>|
        o != uid && pre.users@.dom().contains(o) ==> #[trigger] post.users@[o] == pre.users@[o])
    &&& user_moved(post.users@[uid], user, rid)
    &&& if members.len() == pre.rooms@[rid].room_size {
        join_filled(pre, post, user, rid)
    } else {
        join_unfilled(pre, post, user, rid)
    }
}

/// The room did not fill: the roster grows, everyone already present is
/// told `UserJoined`, the caller is told `RoomCreated` with the roster.
pub open spec fn join_unfilled(pre: Store, post: Store, user: User, rid: Seq<char>) -> bool {
    let uid = user.user_id@;
    let members = join_members(pre, rid, uid);
    let recs = join_records(post, members);
    &&& post.rooms@.dom() == pre.rooms@.dom().insert(rid)
    &&& (forall|o: Seq<char>|
        o != rid && pre.rooms@.dom().contains(o) ==> #[trigger] post.rooms@[o] == pre.rooms@[o])
    &&& post.rooms@[rid].room_id@ == rid
    &&& post.rooms@[rid].room_size == pre.rooms@[rid].room_size
    &&& post.rooms@[rid].member_ids() == members
    &&& post.games == pre.games
    &&& post.game_seq == pre.game_seq
    &&& (forall|j: int|
        0 <= j < members.len() - 1 ==> sent_user_joined(
            pre.sessions,
            post.sessions,
            #[trigger] members[j],
            rid,
            recs,
        ))
    &&& sent_room_created(pre.sessions, post.sessions, uid, rid, recs)
    &&& (forall|o: Seq<char>|
        !members.contains(o) ==> #[trigger] session_untouched(pre.sessions, post.sessions, o))
}

/// The room filled: a fresh game is persisted for the final roster, every
/// member is told `AllUsersJoined`, and the room is cleared (common room)
/// or deleted (private room).
pub open spec fn join_filled(pre: Store, post: Store, user: User, rid: Seq<char>) -> bool {
    let uid = user.user_id@;
    let members = join_members(pre, rid, uid);
    let recs = join_records(post, members);
    let gid = ident::spec_game_id(pre.game_seq as nat);
    &&& if rid == COMMON_ROOM_KEY@ {
        &&& post.rooms@.dom() == pre.rooms@.dom().insert(rid)
        &&& (forall|o: Seq<char>|
            o != rid && pre.rooms@.dom().contains(o) ==> #[trigger] post.rooms@[o]
                == pre.rooms@[o])
        &&& post.rooms@[rid].room_id@ == rid
        &&& post.rooms@[rid].room_size == pre.rooms@[rid].room_size
        &&& post.rooms@[rid].member_ids() == Seq::<Seq<char>>::empty()
    } else {
        post.rooms@ == pre.rooms@.remove(rid)
    }
    &&& post.games@.dom() == pre.games@.dom().insert(gid)
    &&& (forall|o: Seq<char>|
        o != gid && pre.games@.dom().contains(o) ==> #[trigger] post.games@[o] == pre.games@[o])
    &&& post.games@[gid].game_id@ == gid
    &&& ids_of(post.games@[gid].users_in_game@) == members
    &&& post.games@[gid].game_status is Init
    &&& post.games@[gid].prompt@ == GAME_PROMPT@
    &&& (if pre.game_seq < u64::MAX {
        post.game_seq == pre.game_seq + 1
    } else {
        post.game_seq == pre.game_seq
    })
    &&& (forall|j: int|
        0 <= j < members.len() ==> sent_all_users_joined(
            pre.sessions,
            post.sessions,
            #[trigger] members[j],
            rid,
            recs,
        ))
    &&& (forall|o: Seq<char>|
        !members.contains(o) ==> #[trigger] session_untouched(pre.sessions, post.sessions, o))
}

/// The join-room arm: the caller enters `room_id` (the common room when
/// the request named none). Rejected when the room does not exist, when
/// the caller already resides in a room, or when the room is at capacity;
/// otherwise the caller becomes a member and the roster is announced —
/// and if the caller was the last free seat, the game starts.
pub fn join_room(store: &mut Store, user: User, room_id: String) -> (r: Result<(), ApiError>)
    requires
        old(store).inv(),
        old(store).users@.dom().contains(user.user_id@),
        old(store).users@[user.user_id@] == user,
        old(store).sessions.contains(user.user_id@),
    ensures
        final(store).inv(),
        join_outcome(*old(store), *final(store), user, room_id@, r),
{
    let ghost pre = *old(store);
    let ghost uid = user.user_id@;
    let ghost rid = room_id@;

    let mut room = match store.find_room(&room_id) {
        Ok(room) => room,
        Err(_) => {
            return Err(ApiError::RoomNotFound { room_id });
        },
    };

    if room.contains_user(&user.user_id) {
        return Err(
            ApiError::BadRequest {
                message: String::from_str("User trying to join the same room"),
            },
        );
    }

    let resides = match &user.room_id {
        Some(current) => {
            if *current == room_id {
                false
            } else {
                match store.find_room(current) {
                    Ok(other) => other.contains_user(&user.user_id),
                    Err(_) => false,
                }
            }
        },
        None => false,
    };
    if resides {
        return Err(
            ApiError::BadRequest { message: String::from_str("User already resides in a room") },
        );
    }

    if room.users.len() == room.room_size as usize {
        return Err(
            ApiError::BadRequest {
                message: String::from_str("Maximum capacity has been reached for the room"),
            },
        );
    }

    let room_size_after = room.add_user(user.user_id.clone());
    let ghost members = join_members(pre, rid, uid);
    proof {
        assert(room.member_ids() =~= members);
    }

    let mut user_db = user.clone();
    user_db.assign_room_id(room_id.clone());
    proof {
        lemma_no_residency(*store, user);
        assert(store.user_room_consistent(user_db));
    }
    match store.insert_user(user_db) {
        Ok(_) => {},
        Err(_) => {
            proof {
                assert(false);
            }
            return Err(ApiError::InternalServerError);
        },
    }

    let targets = clone_strings(&room.users);
    proof {
        assert(ids_of(targets@) =~= members);
        assert forall|j: int| 0 <= j < targets@.len() implies store.users@.dom().contains(
            #[trigger] ids_of(targets@)[j],
        ) by {
            if j < targets@.len() - 1 {
                assert(pre.member_ok(rid, j));
            }
        }
        assert forall|j: int| 0 <= j < targets@.len() implies store.users@.dom().contains(
            #[trigger] targets@[j]@,
        ) by {
            assert(targets@[j]@ == ids_of(targets@)[j]);
        }
    }
    let all_users = match store.get_multiple_users(clone_strings(&room.users)) {
        Ok(v) => v,
        Err(_) => {
            proof {
                assert(false);
            }
            return Err(ApiError::InternalServerError);
        },
    };
    let ghost recs = all_users@;
    proof {
        assert forall|j: int| 0 <= j < members.len() implies recs[j] == store.users@[#[trigger]
        members[j]] by {
            assert(all_users@[j] == store.users@[targets@[j]@]);
        }
    }

    if room_size_after == room.room_size as usize {
        join_fill(store, room, targets, all_users, room_id, Ghost(pre), Ghost(user))
    } else {
        join_announce(store, room, targets, all_users, user.user_id, room_id, Ghost(pre), Ghost(user))
    }
}

/// The store right after the caller's record moved into the room:
/// everything as in `pre` but the caller's user record.
spec fn join_mid_state(mid: Store, pre: Store, user: User, rid: Seq<char>) -> bool {
    let uid = user.user_id@;
    &&& mid.inv()
    &&& pre.inv()
    &&& mid.rooms == pre.rooms
    &&& mid.games == pre.games
    &&& mid.sessions == pre.sessions
    &&& mid.game_seq == pre.game_seq
    &&& mid.users@.dom() == pre.users@.dom().insert(uid)
    &&& (forall|o: Seq<char>|
        o != uid && pre.users@.dom().contains(o) ==> #[trigger] mid.users@[o] == pre.users@[o])
    &&& user_moved(mid.users@[uid], user, rid)
}

/// What the fan-out helpers take over from `join_room`: the target list
/// and roster match the joined room, whose identifier is `room_id`.
spec fn join_payload_ok(
    mid: Store,
    pre: Store,
    user: User,
    room: Room,
    targets: Seq<String>,
    all_users: Seq<User>,
    room_id: String,
) -> bool {
    let uid = user.user_id@;
    let rid = room_id@;
    let members = join_members(pre, rid, uid);
    &&& pre.rooms@.dom().contains(rid)
    &&& !pre.rooms@[rid].member_ids().contains(uid)
    &&& pre.rooms@[rid].member_ids().len() < pre.rooms@[rid].room_size
    &&& room.room_id@ == rid
    &&& room.room_size == pre.rooms@[rid].room_size
    &&& room.member_ids() == members
    &&& room.wf()
    &&& ids_of(targets) == members
    &&& all_users.len() == members.len()
    &&& (forall|j: int|
        0 <= j < members.len() ==> mid.users@.dom().contains(#[trigger] members[j])
            && all_users[j] == mid.users@[members[j]])
}

/// The filled-room arm: persist the game, announce `AllUsersJoined` to
/// every member, then clear the common room or delete the private one.
fn join_fill(
    store: &mut Store,
    room: Room,
    targets: Vec<String>,
    all_users: Vec<User>,
    room_id: String,
    Ghost(pre): Ghost<Store>,
    Ghost(user): Ghost<User>,
) -> (r: Result<(), ApiError>)
    requires
        join_mid_state(*old(store), pre, user, room_id@),
        join_payload_ok(*old(store), pre, user, room, targets@, all_users@, room_id),
        targets@.len() == pre.rooms@[room_id@].room_size,
    ensures
        final(store).inv(),
        r is Ok,
        final(store).users == old(store).users,
        join_filled(pre, *final(store), user, room_id@),
{
    let ghost uid = user.user_id@;
    let ghost rid = room_id@;
    let ghost members = join_members(pre, rid, uid);
    let ghost recs = all_users@;

    let gid = store.next_game_id();
    let game = Game::new(gid, &all_users, game_prompt());
    proof {
        assert(ids_of(game.users_in_game@) =~= members) by {
            assert forall|j: int| 0 <= j < members.len() implies ids_of(game.users_in_game@)[j]
                == members[j] by {
                assert(game.users_in_game@[j] == all_users@[j].user_id);
                assert(all_users@[j] == old(store).users@[members[j]]);
            }
        }
    }
    match store.insert_game(game) {
        Ok(_) => {},
        Err(_) => {
            proof {
                assert(false);
            }
            return Err(ApiError::InternalServerError);
        },
    }

    let ghost base = *store;
    let n = targets.len();
    let mut i: usize = 0;
    while i < n
        invariant
            store.inv(),
            n == targets@.len(),
            i <= n,
            store.users == base.users,
            store.rooms == base.rooms,
            store.games == base.games,
            store.game_seq == base.game_seq,
            join_payload_ok(base, pre, user, room, targets@, all_users@, room_id),
            members == join_members(pre, room_id@, user.user_id@),
            recs == all_users@,
            rid == room_id@,
            uid == user.user_id@,
            distinct_seqs(members),
            forall|j: int|
                0 <= j < i ==> sent_all_users_joined(
                    base.sessions,
                    store.sessions,
                    #[trigger] members[j],
                    room_id@,
                    recs,
                ),
            forall|o: Seq<char>|
                !members.take(i as int).contains(o) ==> #[trigger] session_untouched(
                    base.sessions,
                    store.sessions,
                    o,
                ),
        decreases n - i,
    {
        let message = RoomMessage::AllUsersJoined {
            room_id: room_id.clone(),
            users: clone_users(&all_users),
        };
        let ghost gmsg = message;
        let ghost prev = *store;
        store.send_message_to_user(&targets[i], message);
        proof {
            let m = members[i as int];
            assert(targets@[i as int]@ == m);
            assert(msg_all_users_joined(gmsg, rid, recs));
            assert(!members.take(i as int).contains(m));
            assert(session_untouched(base.sessions, prev.sessions, m));
            if base.sessions.contains(m) && base.sessions.at(m).queue@.len()
                < SESSION_QUEUE_CAPACITY {
                assert(store.sessions.at(m).queue@.take(
                    base.sessions.at(m).queue@.len() as int,
                ) =~= base.sessions.at(m).queue@);
            }
            assert(sent_all_users_joined(base.sessions, store.sessions, m, rid, recs));
            assert forall|j: int| 0 <= j < i + 1 implies sent_all_users_joined(
                base.sessions,
                store.sessions,
                #[trigger] members[j],
                rid,
                recs,
            ) by {
                if j < i {
                    assert(members[j] != m);
                    assert(sent_all_users_joined(base.sessions, prev.sessions, members[j], rid, recs));
                    assert(store.sessions.contains(members[j]) == prev.sessions.contains(
                        members[j],
                    ));
                    assert(prev.sessions.contains(members[j]) ==> store.sessions.at(members[j])
                        == prev.sessions.at(members[j]));
                }
            }
            assert(members.take(i + 1) =~= members.take(i as int).push(m));
            assert forall|o: Seq<char>| !members.take(i + 1).contains(o) implies #[trigger] session_untouched(
                base.sessions,
                store.sessions,
                o,
            ) by {
                assert(!members.take(i as int).contains(o)) by {
                    if members.take(i as int).contains(o) {
                        let k = choose|k: int|
                            0 <= k < i && members.take(i as int)[k] == o;
                        assert(members.take(i + 1)[k] == o);
                    }
                }
                assert(o != m) by {
                    if o == m {
                        assert(members.take(i + 1)[i as int] == o);
                    }
                }
                assert(session_untouched(base.sessions, prev.sessions, o));
                assert(store.sessions.contains(o) == prev.sessions.contains(o));
                assert(prev.sessions.contains(o) ==> store.sessions.at(o) == prev.sessions.at(o));
            }
        }
        i += 1;
    }
    proof {
        assert(members.take(n as int) =~= members);
    }

    if room_id == common_room_id() {
        let mut cleared = room;
        cleared.users = Vec::new();
        proof {
            assert(cleared.member_ids() =~= Seq::<Seq<char>>::empty());
        }
        match store.insert_room(cleared) {
            Ok(_) => {},
            Err(_) => {
                proof {
                    assert(false);
                }
                return Err(ApiError::InternalServerError);
            },
        }
    } else {
        match store.delete_room(&room_id) {
            Ok(_) => {},
            Err(_) => {
                proof {
                    assert(false);
                }
                return Err(ApiError::InternalServerError);
            },
        }
    }
    proof {
        assert(recs =~= join_records(*store, members)) by {
            assert forall|j: int| 0 <= j < members.len() implies recs[j] == join_records(
                *store,
                members,
            )[j] by {
                assert(all_users@[j] == old(store).users@[members[j]]);
            }
        }
    }
    Ok(())
}

/// The not-yet-full arm: persist the grown room, announce `UserJoined` to
/// everyone already present, and `RoomCreated` (the roster) to the caller.
fn join_announce(
    store: &mut Store,
    room: Room,
    targets: Vec<String>,
    all_users: Vec<User>,
    caller_id: String,
    room_id: String,
    Ghost(pre): Ghost<Store>,
    Ghost(user): Ghost<User>,
) -> (r: Result<(), ApiError>)
    requires
        join_mid_state(*old(store), pre, user, room_id@),
        join_payload_ok(*old(store), pre, user, room, targets@, all_users@, room_id),
        targets@.len() != pre.rooms@[room_id@].room_size,
        caller_id == user.user_id,
        pre.sessions.contains(user.user_id@),
    ensures
        final(store).inv(),
        r is Ok,
        final(store).users == old(store).users,
        join_unfilled(pre, *final(store), user, room_id@),
{
    let ghost uid = user.user_id@;
    let ghost rid = room_id@;
    let ghost members = join_members(pre, rid, uid);
    let ghost recs = all_users@;

    proof {
        assert forall|i: int| 0 <= i < room.member_ids().len() implies #[trigger] store.member_entry_ok(
            room,
            i,
        ) by {
            if i < room.member_ids().len() - 1 {
                assert(pre.member_ok(rid, i));
                assert(pre.rooms@[rid].member_ids()[i] == members[i]);
            }
        }
    }
    match store.insert_room(room) {
        Ok(_) => {},
        Err(_) => {
            proof {
                assert(false);
            }
            return Err(ApiError::InternalServerError);
        },
    }

    let ghost base = *store;
    proof {
        assert(members[members.len() - 1] == uid);
    }
    let n = targets.len();
    let mut i: usize = 0;
    while i < n
        invariant
            store.inv(),
            n == targets@.len(),
            i <= n,
            store.users == base.users,
            store.rooms == base.rooms,
            store.games == base.games,
            store.game_seq == base.game_seq,
            join_payload_ok(base, pre, user, room, targets@, all_users@, room_id),
            members == join_members(pre, room_id@, user.user_id@),
            recs == all_users@,
            rid == room_id@,
            uid == user.user_id@,
            distinct_seqs(members),
            caller_id == user.user_id,
            forall|j: int|
                0 <= j < i && members[j] != user.user_id@ ==> sent_user_joined(
                    base.sessions,
                    store.sessions,
                    #[trigger] members[j],
                    room_id@,
                    recs,
                ),
            forall|o: Seq<char>|
                !members.take(i as int).contains(o) || o == user.user_id@
                    ==> #[trigger] session_untouched(base.sessions, store.sessions, o),
        decreases n - i,
    {
        if targets[i] == caller_id {
            proof {
                assert(targets@[i as int]@ == members[i as int]);
                assert(members.take(i + 1) =~= members.take(i as int).push(members[i as int]));
                assert forall|o: Seq<char>|
                    !members.take(i + 1).contains(o) || o == uid implies #[trigger] session_untouched(
                    base.sessions,
                    store.sessions,
                    o,
                ) by {
                    if o != uid {
                        assert(!members.take(i as int).contains(o)) by {
                            if members.take(i as int).contains(o) {
                                let k = choose|k: int|
                                    0 <= k < i && members.take(i as int)[k] == o;
                                assert(members.take(i + 1)[k] == o);
                            }
                        }
                    }
                }
            }
            i += 1;
            continue ;
        }
        let message = RoomMessage::UserJoined {
            room_id: room_id.clone(),
            users: clone_users(&all_users),
        };
        let ghost gmsg = message;
        let ghost prev = *store;
        store.send_message_to_user(&targets[i], message);
        proof {
            let m = members[i as int];
            assert(targets@[i as int]@ == m);
            assert(m != uid);
            assert(msg_user_joined(gmsg, rid, recs));
            assert(!members.take(i as int).contains(m));
            assert(session_untouched(base.sessions, prev.sessions, m));
            if base.sessions.contains(m) && base.sessions.at(m).queue@.len()
                < SESSION_QUEUE_CAPACITY {
                assert(store.sessions.at(m).queue@.take(
                    base.sessions.at(m).queue@.len() as int,
                ) =~= base.sessions.at(m).queue@);
            }
            assert(sent_user_joined(base.sessions, store.sessions, m, rid, recs));
            assert forall|j: int|
                0 <= j < i + 1 && members[j] != uid implies sent_user_joined(
                base.sessions,
                store.sessions,
                #[trigger] members[j],
                rid,
                recs,
            ) by {
                if j < i {
                    assert(members[j] != m);
                    assert(sent_user_joined(base.sessions, prev.sessions, members[j], rid, recs));
                    assert(store.sessions.contains(members[j]) == prev.sessions.contains(
                        members[j],
                    ));
                    assert(prev.sessions.contains(members[j]) ==> store.sessions.at(members[j])
                        == prev.sessions.at(members[j]));
                }
            }
            assert(members.take(i + 1) =~= members.take(i as int).push(m));
            assert forall|o: Seq<char>|
                !members.take(i + 1).contains(o) || o == uid implies #[trigger] session_untouched(
                base.sessions,
                store.sessions,
                o,
            ) by {
                if o == uid {
                    assert(session_untouched(base.sessions, prev.sessions, o));
                    assert(o != m);
                    assert(store.sessions.contains(o) == prev.sessions.contains(o));
                    assert(prev.sessions.contains(o) ==> store.sessions.at(o)
                        == prev.sessions.at(o));
                } else {
                    assert(!members.take(i as int).contains(o)) by {
                        if members.take(i as int).contains(o) {
                            let k = choose|k: int|
                                0 <= k < i && members.take(i as int)[k] == o;
                            assert(members.take(i + 1)[k] == o);
                        }
                    }
                    assert(o != m) by {
                        if o == m {
                            assert(members.take(i + 1)[i as int] == o);
                        }
                    }
                    assert(session_untouched(base.sessions, prev.sessions, o));
                    assert(store.sessions.contains(o) == prev.sessions.contains(o));
                    assert(prev.sessions.contains(o) ==> store.sessions.at(o)
                        == prev.sessions.at(o));
                }
            }
        }
        i += 1;
    }
    proof {
        assert(members.take(n as int) =~= members);
        assert(session_untouched(base.sessions, store.sessions, uid));
    }

    let message = RoomMessage::RoomCreated {
        room_id: room_id.clone(),
        users: clone_users(&all_users),
    };
    let ghost gmsg = message;
    let ghost before_self = *store;
    store.send_message_to_user(&caller_id, message);
    proof {
        assert(msg_room_created(gmsg, rid, recs));
        if base.sessions.contains(uid) && base.sessions.at(uid).queue@.len()
            < SESSION_QUEUE_CAPACITY {
            assert(store.sessions.at(uid).queue@.take(
                base.sessions.at(uid).queue@.len() as int,
            ) =~= base.sessions.at(uid).queue@);
        }
        assert(sent_room_created(base.sessions, store.sessions, uid, rid, recs));
        assert forall|j: int|
            0 <= j < members.len() - 1 implies sent_user_joined(
            base.sessions,
            store.sessions,
            #[trigger] members[j],
            rid,
            recs,
        ) by {
            assert(members[j] != uid);
            assert(sent_user_joined(base.sessions, before_self.sessions, members[j], rid, recs));
            assert(store.sessions.contains(members[j]) == before_self.sessions.contains(
                members[j],
            ));
            assert(before_self.sessions.contains(members[j]) ==> store.sessions.at(members[j])
                == before_self.sessions.at(members[j]));
        }
        assert forall|o: Seq<char>| !members.contains(o) implies #[trigger] session_untouched(
            base.sessions,
            store.sessions,
            o,
        ) by {
            assert(o != uid) by {
                if o == uid {
                    assert(members[members.len() - 1] == uid);
                }
            }
            assert(session_untouched(base.sessions, before_self.sessions, o));
            assert(store.sessions.contains(o) == before_self.sessions.contains(o));
            assert(before_self.sessions.contains(o) ==> store.sessions.at(o)
                == before_self.sessions.at(o));
        }
    }
    proof {
        assert(recs =~= join_records(*store, members)) by {
            assert forall|j: int| 0 <= j < members.len() implies recs[j] == join_records(
                *store,
                members,
            )[j] by {
                assert(all_users@[j] == old(store).users@[members[j]]);
            }
        }
    }
    Ok(())
}

/// The registry right after the caller's session was (re)inserted:
/// everything else as in `pre`, the caller's queue fresh and empty.
pub open spec fn channel_inserted(pre: Store, mid: Store, uid: Seq<char>) -> bool {
    &&& mid.users == pre.users
    &&& mid.rooms == pre.rooms
    &&& mid.games == pre.games
    &&& mid.game_seq == pre.game_seq
    &&& mid.inv()
    &&& mid.sessions.contains(uid)
    &&& mid.sessions.at(uid).queue@ == Seq::<RoomMessage>::empty()
    &&& mid.sessions.at(uid).delivered@ == Seq::<RoomMessage>::empty()
    &&& mid.sessions.at(uid).history@ == Seq::<RoomMessage>::empty()
    &&& same_except(pre.sessions, mid.sessions, uid)
}

/// A create-room call whose 6-digit room number `n` was drawn at random.
pub open spec fn created_random(
    pre: Store,
    mid: Store,
    post: Store,
    user: User,
    n: u64,
    r: Result<(), ApiError>,
) -> bool {
    &&& channel_inserted(pre, mid, user.user_id@)
    &&& 100000 <= n < 1000000
    &&& create_outcome(mid, post, user, spec_decimal(n as nat), r)
}

/// What `room_service` did: an invalid request kind changes nothing;
/// otherwise the caller's session is (re)registered and the create or
/// join arm runs against that intermediate state, on the named room, the
/// drawn 6-digit number, or the common room.
pub open spec fn room_service_outcome(
    pre: Store,
    post: Store,
    user: User,
    request: RoomServiceRequest,
    r: Result<(), ApiError>,
) -> bool {
    let uid = user.user_id@;
    if request.request_type == 1 {
        match request.room_id {
            Some(s) => exists|mid: Store| #[trigger]
                channel_inserted(pre, mid, uid) && create_outcome(mid, post, user, s@, r),
            None => exists|mid: Store, n: u64| #[trigger] created_random(pre, mid, post, user, n, r),
        }
    } else if request.request_type == 2 {
        match request.room_id {
            Some(s) => exists|mid: Store| #[trigger]
                channel_inserted(pre, mid, uid) && join_outcome(mid, post, user, s@, r),
            None => exists|mid: Store| #[trigger]
                channel_inserted(pre, mid, uid) && join_outcome(mid, post, user, COMMON_ROOM_KEY@, r),
        }
    } else {
        bad_request(r) && post == pre
    }
}

/// The room-coordinator entry point: decodes the request kind, registers
/// the caller's session (before anything can be enqueued for it, so no
/// self-addressed event is lost), and runs the create or join arm.
pub fn room_service(store: &mut Store, user: User, request: RoomServiceRequest) -> (r: Result<
    (),
    ApiError,
>)
    requires
        old(store).inv(),
        old(store).users@.dom().contains(user.user_id@),
        old(store).users@[user.user_id@] == user,
        user.user_id@ == request.client_id@,
    ensures
        final(store).inv(),
        room_service_outcome(*old(store), *final(store), user, request, r),
{
    let ghost pre = *old(store);
    let ghost uid = user.user_id@;

    let decoded = if request.request_type == 1 {
        RoomServiceRequestType::from_u8(1)
    } else if request.request_type == 2 {
        RoomServiceRequestType::from_u8(2)
    } else {
        None
    };
    let request_type = match decoded {
        Some(t) => t,
        None => {
            return Err(
                ApiError::BadRequest {
                    message: String::from_str("Received invalid request type"),
                },
            );
        },
    };

    match store.insert_channel(&request.client_id) {
        Ok(_) => {},
        Err(_) => {
            proof {
                assert(false);
            }
            return Err(ApiError::InternalServerError);
        },
    }
    let ghost mid = *store;
    proof {
        assert(channel_inserted(pre, mid, uid));
    }

    match request_type {
        RoomServiceRequestType::CreateRoom => {
            match request.room_id {
                Some(room_id) => {
                    let r = create_room(store, user, room_id);
                    proof {
                        assert(channel_inserted(pre, mid, uid) && create_outcome(
                            mid,
                            *store,
                            user,
                            request.room_id->Some_0@,
                            r,
                        ));
                    }
                    r
                },
                None => {
                    let n = ident::generate_room_number();
                    let room_id = crate::text::u64_to_string(n);
                    let r = create_room(store, user, room_id);
                    proof {
                        assert(created_random(pre, mid, *store, user, n, r));
                    }
                    r
                },
            }
        },
        RoomServiceRequestType::JoinRoom => {
            match request.room_id {
                Some(room_id) => {
                    let r = join_room(store, user, room_id);
                    proof {
                        assert(channel_inserted(pre, mid, uid) && join_outcome(
                            mid,
                            *store,
                            user,
                            request.room_id->Some_0@,
                            r,
                        ));
                    }
                    r
                },
                None => {
                    let r = join_room(store, user, common_room_id());
                    proof {
                        assert(channel_inserted(pre, mid, uid) && join_outcome(
                            mid,
                            *store,
                            user,
                            COMMON_ROOM_KEY@,
                            r,
                        ));
                    }
                    r
                },
            }
        },
    }
}

/// The authenticated entry point: resolves the request's `client_id` to a
/// stored user (`UserNotFound` otherwise) and runs the coordinator.
pub fn handle_room_service(store: &mut Store, request: RoomServiceRequest) -> (r: Result<
    (),
    ApiError,
>)
    requires
        old(store).inv(),
    ensures
        final(store).inv(),
        !old(store).users@.dom().contains(request.client_id@) ==> (r matches Err(e) && e matches
            ApiError::UserNotFound { user_id: u } && u@ == request.client_id@ && *final(store)
            == *old(store)),
        old(store).users@.dom().contains(request.client_id@) ==> room_service_outcome(
            *old(store),
            *final(store),
            old(store).users@[request.client_id@],
            request,
            r,
        ),
{
    let user_id = request.get_user_id();
    let user = match store.find_user(&user_id) {
        Ok(u) => u,
        Err(_) => {
            return Err(ApiError::UserNotFound { user_id });
        },
    };
    room_service(store, user, request)
}

/// The disconnecting user still resides in a live room, which cleanup
/// must repair.
pub open spec fn cleanup_room_case(pre: Store, uid: Seq<char>) -> bool {
    &&& pre.users@.dom().contains(uid)
    &&& pre.users@[uid].room_id matches Some(rr) && pre.in_room(rr@, uid)
}

/// What `disconnect` did: the session is gone; if the user resided in a
/// room, exactly that user left it; nothing else moved (the stored user
/// record keeps its stale room pointer, as a later join repairs it).
pub open spec fn disconnect_outcome(pre: Store, post: Store, uid: Seq<char>) -> bool {
    &&& !post.sessions.contains(uid)
    &&& same_except(pre.sessions, post.sessions, uid)
    &&& post.users == pre.users
    &&& post.games == pre.games
    &&& post.game_seq == pre.game_seq
    &&& if cleanup_room_case(pre, uid) {
        let rid = pre.users@[uid].room_id->Some_0@;
        &&& post.rooms@.dom() == pre.rooms@.dom().insert(rid)
        &&& (forall|o: Seq<char>|
            o != rid && pre.rooms@.dom().contains(o) ==> #[trigger] post.rooms@[o]
                == pre.rooms@[o])
        &&& post.rooms@[rid].room_id@ == rid
        &&& post.rooms@[rid].room_size == pre.rooms@[rid].room_size
        &&& member_removed(pre.rooms@[rid].member_ids(), post.rooms@[rid].member_ids(), uid)
    } else {
        post.rooms == pre.rooms
    }
}

/// Per-session cleanup, run when a client disconnects (or after the
/// stream closed on game start): removes the user from the room its
/// record points at, if it is still there, and deregisters the session.
pub fn disconnect(store: &mut Store, user_id: &String)
    requires
        old(store).inv(),
    ensures
        final(store).inv(),
        disconnect_outcome(*old(store), *final(store), user_id@),
{
    let ghost pre = *old(store);
    let ghost uid = user_id@;

    let stored_user = match store.find_user(user_id) {
        Ok(u) => Some(u),
        Err(_) => None,
    };
    let room_id_opt = match stored_user {
        Some(u) => u.room_id,
        None => None,
    };
    match room_id_opt {
        Some(room_id) => {
            match store.find_room(&room_id) {
                Ok(mut room) => {
                    if room.contains_user(user_id) {
                        let ghost pre_ids = room.member_ids();
                        room.remove_user(user_id.clone());
                        proof {
                            lemma_member_removed_facts(pre_ids, room.member_ids(), uid);
                            assert forall|i: int|
                                0 <= i < room.member_ids().len() implies #[trigger] store.member_entry_ok(
                                room,
                                i,
                            ) by {
                                let m = room.member_ids()[i];
                                assert(pre_ids.contains(m));
                                assert(pre.in_room(room_id@, m));
                                lemma_member_pointer(pre, room_id@, m);
                            }
                        }
                        match store.insert_room(room) {
                            Ok(_) => {},
                            Err(_) => {
                                proof {
                                    assert(false);
                                }
                                return ;
                            },
                        }
                        proof {
                            assert forall|rid2: Seq<char>| !store.in_room(rid2, uid) by {
                                if store.in_room(rid2, uid) {
                                    if rid2 == room_id@ {
                                        assert(!store.rooms@[rid2].member_ids().contains(uid));
                                    } else {
                                        assert(pre.in_room(rid2, uid));
                                        lemma_member_pointer(pre, rid2, uid);
                                    }
                                }
                            }
                        }
                    } else {
                        proof {
                            lemma_no_residency(pre, pre.users@[uid]);
                        }
                    }
                },
                Err(_) => {
                    proof {
                        lemma_no_residency(pre, pre.users@[uid]);
                    }
                },
            }
        },
        None => {
            proof {
                if pre.users@.dom().contains(uid) {
                    lemma_no_residency(pre, pre.users@[uid]);
                } else {
                    lemma_unknown_in_no_room(pre, uid);
                }
            }
        },
    }
    match store.remove_channel(user_id) {
        Ok(_) => {},
        Err(_) => {
            proof {
                assert(false);
            }
        },
    }
}

} // verus!
