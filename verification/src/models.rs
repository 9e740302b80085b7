//! Persisted entities: users, rooms and games.
//!
//! A `Room` keeps an ordered member list; its well-formedness (`Room::wf`)
//! is the pair of room invariants — no duplicate members, and never more
//! members than the capacity.

use vstd::prelude::*;

use crate::ident;

verus! {

/// The identifier views of a sequence of identifier strings.
pub open spec fn ids_of(s: Seq<String>) -> Seq<Seq<char>> {
    s.map_values(|x: String| x@)
}

/// No two elements are equal.
pub open spec fn distinct_seqs(ids: Seq<Seq<char>>) -> bool {
    forall|i: int, j: int| 0 <= i < j < ids.len() ==> ids[i] != ids[j]
}

/// Mapping the view over a pushed element distributes.
pub proof fn lemma_ids_push(s: Seq<String>, x: String)
    ensures
        ids_of(s.push(x)) == ids_of(s).push(x@),
{
    assert(ids_of(s.push(x)) =~= ids_of(s).push(x@));
}

/// Mapping the view over a removed element distributes.
pub proof fn lemma_ids_remove(s: Seq<String>, i: int)
    requires
        0 <= i < s.len(),
    ensures
        ids_of(s.remove(i)) == ids_of(s).remove(i),
{
    assert(ids_of(s.remove(i)) =~= ids_of(s).remove(i));
}

/// An element-wise copy of an identifier vector.
pub fn clone_strings(v: &Vec<String>) -> (r: Vec<String>)
    ensures
        r@ == v@,
{
    let n = v.len();
    let mut r: Vec<String> = Vec::new();
    let mut i: usize = 0;
    while i < n
        invariant
            n == v@.len(),
            i <= n,
            r@ == v@.take(i as int),
        decreases n - i,
    {
        r.push(v[i].clone());
        proof {
            assert(r@ =~= v@.take(i + 1));
        }
        i += 1;
    }
    proof {
        assert(v@.take(n as int) =~= v@);
    }
    r
}

/// An element-wise copy of a user vector.
pub fn clone_users(v: &Vec<User>) -> (r: Vec<User>)
    ensures
        r@ == v@,
{
    let n = v.len();
    let mut r: Vec<User> = Vec::new();
    let mut i: usize = 0;
    while i < n
        invariant
            n == v@.len(),
            i <= n,
            r@ == v@.take(i as int),
        decreases n - i,
    {
        r.push(v[i].clone());
        proof {
            assert(r@ =~= v@.take(i + 1));
        }
        i += 1;
    }
    proof {
        assert(v@.take(n as int) =~= v@);
    }
    r
}

/// `post_ids` is `pre_ids` with its first occurrence of `uid` removed:
/// everyone else keeps their place and order.
pub open spec fn member_removed(
    pre_ids: Seq<Seq<char>>,
    post_ids: Seq<Seq<char>>,
    uid: Seq<char>,
) -> bool {
    exists|i: int|
        0 <= i < pre_ids.len() && pre_ids[i] == uid && (forall|j: int|
            0 <= j < i ==> #[trigger] pre_ids[j] != uid) && post_ids == pre_ids.remove(i)
}

/// When the member list had no duplicates, removing `uid` leaves a list
/// without `uid`, one shorter, whose members all come from the old list.
pub proof fn lemma_member_removed_facts(
    pre_ids: Seq<Seq<char>>,
    post_ids: Seq<Seq<char>>,
    uid: Seq<char>,
)
    requires
        distinct_seqs(pre_ids),
        member_removed(pre_ids, post_ids, uid),
    ensures
        !post_ids.contains(uid),
        forall|k: int| 0 <= k < post_ids.len() ==> pre_ids.contains(#[trigger] post_ids[k]),
        post_ids.len() == pre_ids.len() - 1,
{
    let i = choose|i: int|
        0 <= i < pre_ids.len() && pre_ids[i] == uid && (forall|j: int|
            0 <= j < i ==> #[trigger] pre_ids[j] != uid) && post_ids == pre_ids.remove(i);
    assert(!post_ids.contains(uid)) by {
        if post_ids.contains(uid) {
            let k = choose|k: int| 0 <= k < post_ids.len() && post_ids[k] == uid;
            let pk = if k < i {
                k
            } else {
                k + 1
            };
            assert(pre_ids[pk] == uid && pre_ids[i] == uid && pk != i);
        }
    }
    assert forall|k: int| 0 <= k < post_ids.len() implies pre_ids.contains(
        #[trigger] post_ids[k],
    ) by {
        let pk = if k < i {
            k
        } else {
            k + 1
        };
        assert(pre_ids[pk] == post_ids[k]);
    }
}

/// A registered player. Created by the identity service and retained
/// across sessions; `room_id` points at the room the user last joined.
#[derive(Debug, PartialEq)]
pub struct User {
    pub user_id: String,
    pub user_name: String,
    pub games_played: u32,
    pub player_rank: u32,
    pub room_id: Option<String>,
    pub game_id: Option<String>,
}

impl Clone for User {
    fn clone(&self) -> (res: Self)
        ensures
            res == *self,
    {
        let res = User {
            user_id: self.user_id.clone(),
            user_name: self.user_name.clone(),
            games_played: self.games_played,
            player_rank: self.player_rank,
            room_id: self.room_id.clone(),
            game_id: self.game_id.clone(),
        };
        proof {
            assert(res.room_id == self.room_id);
            assert(res.game_id == self.game_id);
        }
        res
    }
}

impl User {
    /// A fresh user: generated identifier, generated non-empty display
    /// name, zeroed counters, no room and no game.
    pub fn new() -> (u: User)
        ensures
            exists|n: nat| u.user_id@ == ident::spec_user_id(n),
            u.user_name@.len() > 0,
            u.games_played == 0,
            u.player_rank == 0,
            u.room_id is None,
            u.game_id is None,
    {
        User {
            user_id: ident::generate_user_id(),
            user_name: ident::generate_name(),
            games_played: 0,
            player_rank: 0,
            room_id: None,
            game_id: None,
        }
    }

    /// Records that this user now resides in `room_id`.
    pub fn assign_room_id(&mut self, room_id: String)
        ensures
            final(self).room_id == Some(room_id),
            final(self).user_id == old(self).user_id,
            final(self).user_name == old(self).user_name,
            final(self).games_played == old(self).games_played,
            final(self).player_rank == old(self).player_rank,
            final(self).game_id == old(self).game_id,
    {
        self.room_id = Some(room_id);
    }
}

/// A room: capacity `room_size` and the ordered member list `users`.
#[derive(Debug, PartialEq)]
pub struct Room {
    pub room_id: String,
    pub room_size: u8,
    pub users: Vec<String>,
}

impl Clone for Room {
    fn clone(&self) -> (res: Self)
        ensures
            res.room_id == self.room_id,
            res.room_size == self.room_size,
            res.users@ == self.users@,
    {
        let users = self.users.clone();
        proof {
            assert(users@ =~= self.users@);
        }
        Room { room_id: self.room_id.clone(), room_size: self.room_size, users }
    }
}

impl Room {
    /// The member list as identifier views.
    pub open spec fn member_ids(self) -> Seq<Seq<char>> {
        ids_of(self.users@)
    }

    /// The room invariants: positive capacity, member list within
    /// capacity, and no duplicate members.
    pub open spec fn wf(self) -> bool {
        &&& self.room_size >= 1
        &&& self.users@.len() <= self.room_size
        &&& distinct_seqs(self.member_ids())
    }

    /// An empty room of capacity `room_size`.
    pub fn new(room_id: String, room_size: u8) -> (r: Room)
        requires
            room_size >= 1,
        ensures
            r.room_id == room_id,
            r.room_size == room_size,
            r.users@ == Seq::<String>::empty(),
            r.wf(),
    {
        let r = Room { room_id, room_size, users: Vec::new() };
        proof {
            assert(r.member_ids() =~= Seq::<Seq<char>>::empty());
        }
        r
    }

    /// Whether `user_id` is a member.
    pub fn contains_user(&self, user_id: &String) -> (r: bool)
        ensures
            r == self.member_ids().contains(user_id@),
    {
        let n = self.users.len();
        let mut i: usize = 0;
        while i < n
            invariant
                n == self.users@.len(),
                i <= n,
                forall|j: int| 0 <= j < i ==> self.member_ids()[j] != user_id@,
            decreases n - i,
        {
            if self.users[i] == *user_id {
                proof {
                    assert(self.member_ids()[i as int] == user_id@);
                }
                return true;
            }
            i += 1;
        }
        proof {
            assert forall|j: int| 0 <= j < self.member_ids().len() implies self.member_ids()[j]
                != user_id@ by {}
        }
        false
    }

    /// Appends a new member; returns the new member count.
    pub fn add_user(&mut self, user_id: String) -> (n: usize)
        requires
            !old(self).member_ids().contains(user_id@),
            old(self).users@.len() < old(self).room_size,
            old(self).wf(),
        ensures
            final(self).users@ == old(self).users@.push(user_id),
            final(self).member_ids() == old(self).member_ids().push(user_id@),
            final(self).room_id == old(self).room_id,
            final(self).room_size == old(self).room_size,
            n == final(self).users@.len(),
            final(self).wf(),
    {
        proof {
            lemma_ids_push(self.users@, user_id);
        }
        self.users.push(user_id);
        proof {
            let ids = self.member_ids();
            assert forall|i: int, j: int| 0 <= i < j < ids.len() implies ids[i] != ids[j] by {
                if j == ids.len() - 1 {
                    assert(!old(self).member_ids().contains(ids[j]));
                }
            }
        }
        self.users.len()
    }

    /// Removes the first occurrence of `user_id_to_be_removed`, if any;
    /// returns the remaining member count.
    pub fn remove_user(&mut self, user_id_to_be_removed: String) -> (n: usize)
        ensures
            final(self).room_id == old(self).room_id,
            final(self).room_size == old(self).room_size,
            n == final(self).users@.len(),
            !old(self).member_ids().contains(user_id_to_be_removed@) ==> final(self).users@ == old(
                self,
            ).users@,
            old(self).member_ids().contains(user_id_to_be_removed@) ==> member_removed(
                old(self).member_ids(),
                final(self).member_ids(),
                user_id_to_be_removed@,
            ),
            old(self).wf() ==> final(self).wf(),
    {
        let n = self.users.len();
        let mut i: usize = 0;
        let mut position: Option<usize> = None;
        while i < n
            invariant
                n == self.users@.len(),
                i <= n,
                *self == *old(self),
                match position {
                    Some(p) => {
                        &&& p < i
                        &&& self.member_ids()[p as int] == user_id_to_be_removed@
                        &&& forall|j: int|
                            0 <= j < p ==> self.member_ids()[j] != user_id_to_be_removed@
                    },
                    None => forall|j: int|
                        0 <= j < i ==> self.member_ids()[j] != user_id_to_be_removed@,
                },
            decreases n - i,
        {
            if position.is_none() && self.users[i] == user_id_to_be_removed {
                position = Some(i);
                proof {
                    assert(self.member_ids()[i as int] == user_id_to_be_removed@);
                }
            }
            i += 1;
        }
        if let Some(index) = position {
            proof {
                lemma_ids_remove(self.users@, index as int);
            }
            self.users.remove(index);
            proof {
                assert(member_removed(
                    old(self).member_ids(),
                    self.member_ids(),
                    user_id_to_be_removed@,
                )) by {
                    assert(old(self).member_ids()[index as int] == user_id_to_be_removed@);
                    assert(self.member_ids() == old(self).member_ids().remove(index as int));
                }
                if old(self).wf() {
                    let pre = old(self).member_ids();
                    let post = self.member_ids();
                    assert forall|a: int, b: int| 0 <= a < b < post.len() implies post[a]
                        != post[b] by {
                        if a < index {
                            assert(post[a] == pre[a]);
                        } else {
                            assert(post[a] == pre[a + 1]);
                        }
                        if b < index {
                            assert(post[b] == pre[b]);
                        } else {
                            assert(post[b] == pre[b + 1]);
                        }
                    }
                }
            }
        }
        self.users.len()
    }
}

/// The lifecycle state of a game.
#[derive(Debug, PartialEq, Eq, Structural, Clone, Copy)]
pub enum GameStatus {
    Init,
    InProgress,
    End,
}

/// A game created when a room fills: its participants, status and prompt.
#[derive(Debug, PartialEq)]
pub struct Game {
    pub game_id: String,
    pub users_in_game: Vec<String>,
    pub game_status: GameStatus,
    pub prompt: String,
}

impl Game {
    /// A game in its initial state, keyed by `game_id`, with the given
    /// participants.
    pub fn new(game_id: String, users: &Vec<User>, prompt: String) -> (g: Game)
        ensures
            g.game_id == game_id,
            g.users_in_game@ == users@.map_values(|u: User| u.user_id),
            g.game_status is Init,
            g.prompt == prompt,
    {
        let n = users.len();
        let mut users_in_game: Vec<String> = Vec::new();
        let mut i: usize = 0;
        while i < n
            invariant
                n == users@.len(),
                i <= n,
                users_in_game@ == users@.take(i as int).map_values(|u: User| u.user_id),
            decreases n - i,
        {
            users_in_game.push(users[i].user_id.clone());
            proof {
                assert(users_in_game@ =~= users@.take(i + 1).map_values(|u: User| u.user_id));
            }
            i += 1;
        }
        proof {
            assert(users@.take(n as int) =~= users@);
        }
        Game { game_id, users_in_game, game_status: GameStatus::Init, prompt }
    }
}

} // verus!
