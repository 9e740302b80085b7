//! The engine state: keyed stores for users, rooms and games, the session
//! registry, and the game sequence counter.
//!
//! `Store::inv` is the system invariant every operation preserves:
//! * every stored record is keyed by its own identifier,
//! * every room is well formed (capacity bound, no duplicate members),
//! * the common room always exists,
//! * every room member is a stored user whose `room_id` points back at
//!   that room (so nobody resides in two rooms), and has a registered
//!   session,
//! * the registry itself is well formed.

use vstd::hash_map::StringHashMap;
use vstd::prelude::*;

use crate::errors::DbError;
use crate::ident;
use crate::models::Game;
use crate::models::Room;
use crate::models::User;
use crate::session::same_except;
use crate::session::Session;
use crate::session::SessionMap;
use crate::session::SESSION_QUEUE_CAPACITY;
use crate::types::common_room_id;
use crate::types::RoomMessage;
use crate::types::COMMON_ROOM_KEY;
use crate::types::COMMON_ROOM_SIZE;

verus! {

/// The rooms, users, games and sessions this process serves.
pub struct Store {
    pub users: StringHashMap<User>,
    pub rooms: StringHashMap<Room>,
    pub games: StringHashMap<Game>,
    pub sessions: SessionMap,
    pub game_seq: u64,
}

/// `a` carries the same room data as `b` (the two may be distinct heap
/// values).
pub open spec fn room_like(a: Room, b: Room) -> bool {
    &&& a.room_id == b.room_id
    &&& a.room_size == b.room_size
    &&& a.users@ == b.users@
}

/// `a` carries the same game data as `b`.
pub open spec fn game_like(a: Game, b: Game) -> bool {
    &&& a.game_id == b.game_id
    &&& a.users_in_game@ == b.users_in_game@
    &&& a.game_status == b.game_status
    &&& a.prompt == b.prompt
}

impl Store {
    /// Member `i` of room `rid` is a stored user, points back at `rid`,
    /// and has a session.
    pub open spec fn member_ok(self, rid: Seq<char>, i: int) -> bool {
        let uid = self.rooms@[rid].member_ids()[i];
        &&& self.users@.dom().contains(uid)
        &&& self.users@[uid].room_id matches Some(r) && r@ == rid
        &&& self.sessions.contains(uid)
    }

    /// `uid` is a member of room `rid`.
    pub open spec fn in_room(self, rid: Seq<char>, uid: Seq<char>) -> bool {
        self.rooms@.dom().contains(rid) && self.rooms@[rid].member_ids().contains(uid)
    }

    /// `uid` is a member of no room at all.
    pub open spec fn in_no_room(self, uid: Seq<char>) -> bool {
        forall|rid: Seq<char>| !self.in_room(rid, uid)
    }

    /// Inserting `user` keeps every room member pointed at its room:
    /// wherever the user already resides, the record says so.
    pub open spec fn user_room_consistent(self, user: User) -> bool {
        forall|rid: Seq<char>| #[trigger]
            self.in_room(rid, user.user_id@) ==> (user.room_id matches Some(r) && r@ == rid)
    }

    /// Every member of `room` is a stored user pointing at `room`, with a
    /// session; holds of rooms about to be persisted.
    pub open spec fn room_insertable(self, room: Room) -> bool {
        forall|i: int|
            0 <= i < room.member_ids().len() ==> #[trigger] self.member_entry_ok(room, i)
    }

    /// Member `i` of `room` is a stored user pointing at `room`, with a
    /// session.
    pub open spec fn member_entry_ok(self, room: Room, i: int) -> bool {
        let uid = room.member_ids()[i];
        &&& self.users@.dom().contains(uid)
        &&& self.users@[uid].room_id matches Some(r) && r@ == room.room_id@
        &&& self.sessions.contains(uid)
    }

    /// The system invariant (see the module documentation).
    pub open spec fn inv(self) -> bool {
        &&& forall|uid: Seq<char>| #[trigger]
            self.users@.dom().contains(uid) ==> self.users@[uid].user_id@ == uid
        &&& forall|rid: Seq<char>| #[trigger]
            self.rooms@.dom().contains(rid) ==> self.rooms@[rid].room_id@ == rid
                && self.rooms@[rid].wf()
        &&& forall|gid: Seq<char>| #[trigger]
            self.games@.dom().contains(gid) ==> self.games@[gid].game_id@ == gid
        &&& self.rooms@.dom().contains(COMMON_ROOM_KEY@)
        &&& forall|rid: Seq<char>, i: int|
            self.rooms@.dom().contains(rid) && 0 <= i < self.rooms@[rid].member_ids().len()
                ==> #[trigger] self.member_ok(rid, i)
        &&& self.sessions.wf()
    }

    /// A fresh store: empty but for the common room, which exists from
    /// startup onward.
    pub fn new() -> (s: Store)
        ensures
            s.inv(),
            s.users@ == Map::<Seq<char>, User>::empty(),
            s.games@ == Map::<Seq<char>, Game>::empty(),
            s.rooms@ == Map::<Seq<char>, Room>::empty().insert(
                COMMON_ROOM_KEY@,
                s.rooms@[COMMON_ROOM_KEY@],
            ),
            s.rooms@[COMMON_ROOM_KEY@].room_id@ == COMMON_ROOM_KEY@,
            s.rooms@[COMMON_ROOM_KEY@].room_size == COMMON_ROOM_SIZE,
            s.rooms@[COMMON_ROOM_KEY@].users@ == Seq::<String>::empty(),
            forall|uid: Seq<char>| !s.sessions.contains(uid),
            s.game_seq == 0,
    {
        let mut rooms: StringHashMap<Room> = StringHashMap::new();
        let common = Room::new(common_room_id(), COMMON_ROOM_SIZE);
        rooms.insert(common.room_id.clone(), common);
        let s = Store {
            users: StringHashMap::new(),
            rooms,
            games: StringHashMap::new(),
            sessions: SessionMap::new(),
            game_seq: 0,
        };
        proof {
            assert forall|rid: Seq<char>, i: int|
                s.rooms@.dom().contains(rid) && 0 <= i < s.rooms@[rid].member_ids().len() implies #[trigger] s.member_ok(
                rid,
                i,
            ) by {}
        }
        s
    }

    /// Looks a user up by identifier; `NotFound` exactly when absent.
    pub fn find_user(&self, user_id: &String) -> (r: Result<User, DbError>)
        ensures
            self.users@.dom().contains(user_id@) ==> (r matches Ok(u) && u
                == self.users@[user_id@]),
            !self.users@.dom().contains(user_id@) ==> (r matches Err(e) && e is NotFound),
    {
        match self.users.get(user_id.as_str()) {
            Some(u) => Ok(u.clone()),
            None => Err(DbError::NotFound),
        }
    }

    /// Upserts a user record, keyed by its own identifier.
    pub fn insert_user(&mut self, user: User) -> (r: Result<User, DbError>)
        requires
            old(self).inv(),
            old(self).user_room_consistent(user),
        ensures
            final(self).inv(),
            final(self).users@ == old(self).users@.insert(user.user_id@, user),
            final(self).rooms == old(self).rooms,
            final(self).games == old(self).games,
            final(self).sessions == old(self).sessions,
            final(self).game_seq == old(self).game_seq,
            r matches Ok(u) && u == user,
    {
        let key = user.user_id.clone();
        let result = user.clone();
        self.users.insert(key, user);
        proof {
            assert forall|rid: Seq<char>, i: int|
                self.rooms@.dom().contains(rid) && 0 <= i
                    < self.rooms@[rid].member_ids().len() implies #[trigger] self.member_ok(
                rid,
                i,
            ) by {
                assert(old(self).member_ok(rid, i));
                let uid = self.rooms@[rid].member_ids()[i];
                if uid == user.user_id@ {
                    assert(old(self).in_room(rid, uid));
                }
            }
        }
        Ok(result)
    }

    /// Fetches the users for `user_ids`, in order; fails with
    /// `ParsingFailure` exactly when some identifier is absent.
    pub fn get_multiple_users(&self, user_ids: Vec<String>) -> (r: Result<Vec<User>, DbError>)
        ensures
            r matches Ok(v) ==> {
                &&& forall|j: int|
                    0 <= j < user_ids@.len() ==> self.users@.dom().contains(
                        #[trigger] user_ids@[j]@,
                    )
                &&& v@.len() == user_ids@.len()
                &&& forall|j: int|
                    0 <= j < user_ids@.len() ==> #[trigger] v@[j] == self.users@[user_ids@[j]@]
            },
            r matches Err(e) ==> e is ParsingFailure && exists|j: int|
                0 <= j < user_ids@.len() && !self.users@.dom().contains(#[trigger] user_ids@[j]@),
    {
        let n = user_ids.len();
        let mut result: Vec<User> = Vec::new();
        let mut i: usize = 0;
        while i < n
            invariant
                n == user_ids@.len(),
                i <= n,
                result@.len() == i,
                forall|j: int|
                    0 <= j < i ==> self.users@.dom().contains(#[trigger] user_ids@[j]@),
                forall|j: int| 0 <= j < i ==> #[trigger] result@[j] == self.users@[user_ids@[j]@],
            decreases n - i,
        {
            match self.users.get(user_ids[i].as_str()) {
                Some(u) => {
                    result.push(u.clone());
                },
                None => {
                    return Err(DbError::ParsingFailure);
                },
            }
            i += 1;
        }
        Ok(result)
    }

    /// Looks a room up by identifier; `NotFound` exactly when absent.
    pub fn find_room(&self, room_id: &String) -> (r: Result<Room, DbError>)
        ensures
            self.rooms@.dom().contains(room_id@) ==> (r matches Ok(room) && room_like(
                room,
                self.rooms@[room_id@],
            )),
            !self.rooms@.dom().contains(room_id@) ==> (r matches Err(e) && e is NotFound),
    {
        match self.rooms.get(room_id.as_str()) {
            Some(room) => Ok(room.clone()),
            None => Err(DbError::NotFound),
        }
    }

    /// Upserts a room, keyed by its own identifier. The room must be well
    /// formed and its members stored, pointed at it, and connected — the
    /// very invariants every persisted room enjoys.
    pub fn insert_room(&mut self, room: Room) -> (r: Result<Room, DbError>)
        requires
            old(self).inv(),
            room.wf(),
            old(self).room_insertable(room),
        ensures
            final(self).inv(),
            final(self).rooms@ == old(self).rooms@.insert(room.room_id@, room),
            final(self).users == old(self).users,
            final(self).games == old(self).games,
            final(self).sessions == old(self).sessions,
            final(self).game_seq == old(self).game_seq,
            r matches Ok(out) && room_like(out, room),
    {
        let key = room.room_id.clone();
        let result = room.clone();
        self.rooms.insert(key, room);
        proof {
            assert forall|rid: Seq<char>, i: int|
                self.rooms@.dom().contains(rid) && 0 <= i
                    < self.rooms@[rid].member_ids().len() implies #[trigger] self.member_ok(
                rid,
                i,
            ) by {
                if rid == room.room_id@ {
                    assert(old(self).member_entry_ok(room, i));
                } else {
                    assert(old(self).member_ok(rid, i));
                }
            }
        }
        Ok(result)
    }

    /// Deletes a room; idempotent. The common room is never deleted.
    pub fn delete_room(&mut self, room_id: &String) -> (r: Result<(), DbError>)
        requires
            old(self).inv(),
            room_id@ != COMMON_ROOM_KEY@,
        ensures
            final(self).inv(),
            final(self).rooms@ == old(self).rooms@.remove(room_id@),
            final(self).users == old(self).users,
            final(self).games == old(self).games,
            final(self).sessions == old(self).sessions,
            final(self).game_seq == old(self).game_seq,
            r is Ok,
    {
        self.rooms.remove(room_id.as_str());
        proof {
            assert forall|rid: Seq<char>, i: int|
                self.rooms@.dom().contains(rid) && 0 <= i
                    < self.rooms@[rid].member_ids().len() implies #[trigger] self.member_ok(
                rid,
                i,
            ) by {
                assert(old(self).member_ok(rid, i));
            }
        }
        Ok(())
    }

    /// Inserts a game, keyed by its own identifier.
    pub fn insert_game(&mut self, game: Game) -> (r: Result<Game, DbError>)
        requires
            old(self).inv(),
        ensures
            final(self).inv(),
            final(self).games@ == old(self).games@.insert(game.game_id@, game),
            final(self).users == old(self).users,
            final(self).rooms == old(self).rooms,
            final(self).sessions == old(self).sessions,
            final(self).game_seq == old(self).game_seq,
            r matches Ok(out) && game_like(out, game),
    {
        let key = game.game_id.clone();
        let result = Game {
            game_id: game.game_id.clone(),
            users_in_game: game.users_in_game.clone(),
            game_status: game.game_status,
            prompt: game.prompt.clone(),
        };
        proof {
            assert(result.users_in_game@ =~= game.users_in_game@);
        }
        self.games.insert(key, game);
        proof {
            assert forall|rid: Seq<char>, i: int|
                self.rooms@.dom().contains(rid) && 0 <= i
                    < self.rooms@[rid].member_ids().len() implies #[trigger] self.member_ok(
                rid,
                i,
            ) by {
                assert(old(self).member_ok(rid, i));
            }
        }
        Ok(result)
    }

    /// Looks a game up by identifier; `NotFound` exactly when absent.
    pub fn find_game(&self, game_id: &String) -> (r: Result<Game, DbError>)
        ensures
            self.games@.dom().contains(game_id@) ==> (r matches Ok(g) && game_like(
                g,
                self.games@[game_id@],
            )),
            !self.games@.dom().contains(game_id@) ==> (r matches Err(e) && e is NotFound),
    {
        match self.games.get(game_id.as_str()) {
            Some(g) => {
                let out = Game {
                    game_id: g.game_id.clone(),
                    users_in_game: g.users_in_game.clone(),
                    game_status: g.game_status,
                    prompt: g.prompt.clone(),
                };
                proof {
                    assert(out.users_in_game@ =~= g.users_in_game@);
                }
                Ok(out)
            },
            None => Err(DbError::NotFound),
        }
    }

    /// Registers a fresh session for `user_id`, replacing any previous
    /// one (a second call by the same user replaces its entry).
    pub fn insert_channel(&mut self, user_id: &String) -> (r: Result<(), DbError>)
        requires
            old(self).inv(),
        ensures
            final(self).inv(),
            final(self).sessions.contains(user_id@),
            final(self).sessions.at(user_id@).queue@ == Seq::<RoomMessage>::empty(),
            final(self).sessions.at(user_id@).delivered@ == Seq::<RoomMessage>::empty(),
            final(self).sessions.at(user_id@).history@ == Seq::<RoomMessage>::empty(),
            same_except(old(self).sessions, final(self).sessions, user_id@),
            final(self).users == old(self).users,
            final(self).rooms == old(self).rooms,
            final(self).games == old(self).games,
            final(self).game_seq == old(self).game_seq,
            r is Ok,
    {
        self.sessions.insert(user_id.clone(), Session::new());
        proof {
            self.lemma_sessions_kept(*old(self));
        }
        Ok(())
    }

    /// A reference to the session registered for `user_id`.
    pub fn get_channel(&self, user_id: &String) -> (r: Option<&Session>)
        requires
            self.inv(),
        ensures
            match r {
                Some(s) => self.sessions.contains(user_id@) && *s == self.sessions.at(user_id@),
                None => !self.sessions.contains(user_id@),
            },
    {
        self.sessions.get(user_id)
    }

    /// Deregisters `user_id`; idempotent. Only a user who resides in no
    /// room may lose its session (rooms never keep dead members).
    pub fn remove_channel(&mut self, user_id: &String) -> (r: Result<(), DbError>)
        requires
            old(self).inv(),
            old(self).in_no_room(user_id@),
        ensures
            final(self).inv(),
            !final(self).sessions.contains(user_id@),
            same_except(old(self).sessions, final(self).sessions, user_id@),
            final(self).users == old(self).users,
            final(self).rooms == old(self).rooms,
            final(self).games == old(self).games,
            final(self).game_seq == old(self).game_seq,
            r is Ok,
    {
        self.sessions.remove(user_id);
        proof {
            assert forall|rid: Seq<char>, i: int|
                self.rooms@.dom().contains(rid) && 0 <= i
                    < self.rooms@[rid].member_ids().len() implies #[trigger] self.member_ok(
                rid,
                i,
            ) by {
                assert(old(self).member_ok(rid, i));
                let uid = self.rooms@[rid].member_ids()[i];
                if uid == user_id@ {
                    assert(old(self).in_room(rid, uid));
                } else {
                    assert(self.sessions.contains(uid) == old(self).sessions.contains(uid));
                }
            }
        }
        Ok(())
    }

    /// Enqueues `message` for `user_id`; succeeds exactly when a session
    /// is registered and its queue has room. On failure every session is
    /// left as it was — the message is dropped.
    pub fn send_message_to_user(&mut self, user_id: &String, message: RoomMessage) -> (ok: bool)
        requires
            old(self).inv(),
        ensures
            final(self).inv(),
            ok == (old(self).sessions.contains(user_id@) && old(self).sessions.at(
                user_id@,
            ).queue@.len() < SESSION_QUEUE_CAPACITY),
            final(self).sessions.contains(user_id@) == old(self).sessions.contains(user_id@),
            ok ==> {
                &&& final(self).sessions.at(user_id@).queue@ == old(self).sessions.at(
                    user_id@,
                ).queue@.push(message)
                &&& final(self).sessions.at(user_id@).delivered@ == old(self).sessions.at(
                    user_id@,
                ).delivered@
                &&& final(self).sessions.at(user_id@).history@ == old(self).sessions.at(
                    user_id@,
                ).history@.push(message)
            },
            !ok && old(self).sessions.contains(user_id@) ==> final(self).sessions.at(user_id@)
                == old(self).sessions.at(user_id@),
            same_except(old(self).sessions, final(self).sessions, user_id@),
            final(self).users == old(self).users,
            final(self).rooms == old(self).rooms,
            final(self).games == old(self).games,
            final(self).game_seq == old(self).game_seq,
    {
        let ok = self.sessions.enqueue(user_id, message);
        proof {
            self.lemma_sessions_kept(*old(self));
        }
        ok
    }

    /// Takes the oldest undelivered message of `user_id`, if any; the
    /// outbound pump drains a session with this.
    pub fn take_message(&mut self, user_id: &String) -> (r: Option<RoomMessage>)
        requires
            old(self).inv(),
        ensures
            final(self).inv(),
            final(self).sessions.contains(user_id@) == old(self).sessions.contains(user_id@),
            match r {
                Some(m) => {
                    &&& old(self).sessions.contains(user_id@)
                    &&& old(self).sessions.at(user_id@).queue@.len() > 0
                    &&& m == old(self).sessions.at(user_id@).queue@[0]
                    &&& final(self).sessions.at(user_id@).queue@ == old(self).sessions.at(
                        user_id@,
                    ).queue@.skip(1)
                    &&& final(self).sessions.at(user_id@).delivered@ == old(self).sessions.at(
                        user_id@,
                    ).delivered@.push(m)
                    &&& final(self).sessions.at(user_id@).history@ == old(self).sessions.at(
                        user_id@,
                    ).history@
                },
                None => old(self).sessions.contains(user_id@) ==> old(self).sessions.at(
                    user_id@,
                ).queue@.len() == 0 && final(self).sessions.at(user_id@) == old(self).sessions.at(
                    user_id@,
                ),
            },
            same_except(old(self).sessions, final(self).sessions, user_id@),
            final(self).users == old(self).users,
            final(self).rooms == old(self).rooms,
            final(self).games == old(self).games,
            final(self).game_seq == old(self).game_seq,
    {
        let r = self.sessions.pop(user_id);
        proof {
            self.lemma_sessions_kept(*old(self));
        }
        r
    }

    /// Draws the next time-ordered game identifier and advances the
    /// sequence counter.
    pub fn next_game_id(&mut self) -> (id: String)
        requires
            old(self).inv(),
        ensures
            final(self).inv(),
            id@ == ident::spec_game_id(old(self).game_seq as nat),
            final(self).game_seq == if old(self).game_seq < u64::MAX {
                old(self).game_seq + 1
            } else {
                old(self).game_seq as int
            },
            final(self).users == old(self).users,
            final(self).rooms == old(self).rooms,
            final(self).games == old(self).games,
            final(self).sessions == old(self).sessions,
    {
        let id = ident::game_id_string(self.game_seq);
        if self.game_seq < u64::MAX {
            self.game_seq = self.game_seq + 1;
        }
        proof {
            assert forall|rid: Seq<char>, i: int|
                self.rooms@.dom().contains(rid) && 0 <= i
                    < self.rooms@[rid].member_ids().len() implies #[trigger] self.member_ok(
                rid,
                i,
            ) by {
                assert(old(self).member_ok(rid, i));
            }
        }
        id
    }

    /// The members-have-sessions invariant survives any session change
    /// that keeps every registered identifier registered.
    proof fn lemma_sessions_kept(self, pre: Store)
        requires
            pre.inv(),
            self.users == pre.users,
            self.rooms == pre.rooms,
            self.games == pre.games,
            self.sessions.wf(),
            forall|o: Seq<char>| #[trigger]
                pre.sessions.contains(o) ==> self.sessions.contains(o),
        ensures
            self.inv(),
    {
        assert forall|rid: Seq<char>, i: int|
            self.rooms@.dom().contains(rid) && 0 <= i
                < self.rooms@[rid].member_ids().len() implies #[trigger] self.member_ok(
            rid,
            i,
        ) by {
            assert(pre.member_ok(rid, i));
        }
    }
}

} // verus!
