//! The laws of the engine, stated and proved once for every state the
//! operations can reach.

use vstd::prelude::*;

use crate::errors::ApiError;
use crate::ident::spec_game_id;
use crate::ident::GAME_ID_DIGITS;
use crate::models::distinct_seqs;
use crate::models::User;
use crate::service::join_members;
use crate::service::join_ok;
use crate::service::lemma_member_pointer;
use crate::service::ping_outcome;
use crate::session::Session;
use crate::store::Store;
use crate::text::lemma_fixed_decimal_len;
use crate::text::lemma_fixed_decimal_order;
use crate::text::lex_before;
use crate::text::pow10;
use crate::text::spec_fixed_decimal;
use crate::types::PingRequest;
use crate::types::PingResponse;

verus! {

/// Membership bound and uniqueness: every persisted room holds at most
/// `room_size` members, and no member appears twice.
pub proof fn lemma_room_membership_invariants(s: Store, rid: Seq<char>)
    requires
        s.inv(),
        s.rooms@.dom().contains(rid),
    ensures
        s.rooms@[rid].users@.len() <= s.rooms@[rid].room_size,
        distinct_seqs(s.rooms@[rid].member_ids()),
{
}

/// Self-consistency of a join that left the room open: afterwards the
/// caller's stored record points at the room, the room exists, and the
/// caller is on its member list. (Once the room fills it is cleared or
/// deleted and the stored pointer goes stale until the next join.)
pub proof fn lemma_join_self_consistency(pre: Store, post: Store, user: User, rid: Seq<char>)
    requires
        pre.inv(),
        pre.rooms@.dom().contains(rid),
        join_ok(pre, post, user, rid),
        join_members(pre, rid, user.user_id@).len() != pre.rooms@[rid].room_size,
    ensures
        post.users@.dom().contains(user.user_id@),
        post.users@[user.user_id@].room_id matches Some(rr) && rr@ == rid,
        post.rooms@.dom().contains(rid),
        post.rooms@[rid].member_ids().contains(user.user_id@),
{
    assert(post.rooms@[rid].member_ids().last() == user.user_id@);
}

/// Registry/room agreement, at a quiescent point: every member of a
/// persisted room has a session registered under its identifier. (Between
/// a disconnect and the end of its cleanup the member is already gone
/// from the list, so the statement needs no settling window here.)
pub proof fn lemma_registry_room_agreement(s: Store, rid: Seq<char>, uid: Seq<char>)
    requires
        s.inv(),
        s.in_room(rid, uid),
    ensures
        s.sessions.contains(uid),
{
    lemma_member_pointer(s, rid, uid);
}

/// Order preservation, per session: what a session has delivered is
/// exactly the first part of what was enqueued, in enqueue order, and
/// what is still pending is exactly the rest — the stream delivers the
/// sink's sequence unchanged.
pub proof fn lemma_session_order_preservation(s: Session)
    requires
        s.wf(),
    ensures
        s.delivered@ == s.history@.take(s.delivered@.len() as int),
        s.queue@ == s.history@.skip(s.delivered@.len() as int),
{
    assert(s.delivered@ =~= s.history@.take(s.delivered@.len() as int));
    assert(s.queue@ =~= s.history@.skip(s.delivered@.len() as int));
}

/// Ping round trip: when a ping without an identifier issued the identity
/// `resp`, a ping that presents `resp.user_id` returns the equal record
/// and changes nothing.
pub proof fn lemma_ping_round_trip(
    pre: Store,
    post: Store,
    resp: PingResponse,
    post2: Store,
    r2: Result<PingResponse, ApiError>,
)
    requires
        ping_outcome(pre, post, PingRequest { user_id: None }, Ok(resp)),
        ping_outcome(post, post2, PingRequest { user_id: Some(resp.user_id) }, r2),
    ensures
        r2 matches Ok(resp2) && resp2.user_id == resp.user_id && resp2.user_name
            == resp.user_name,
        post2 == post,
{
}

/// Upsert/find round trip for users: after a user record is upserted, a
/// lookup under its identifier finds exactly that record (so `find_user`
/// after `upsert_user` returns an equal user).
pub proof fn lemma_upsert_user_find(pre: Store, post: Store, u: User)
    requires
        post.users@ == pre.users@.insert(u.user_id@, u),
    ensures
        post.users@.dom().contains(u.user_id@),
        post.users@[u.user_id@] == u,
{
}

/// Delete/find for rooms: after a room is deleted its identifier maps to
/// nothing (so `find_room` after `delete_room` reports not-found).
pub proof fn lemma_delete_room_find(pre: Store, post: Store, rid: Seq<char>)
    requires
        post.rooms@ == pre.rooms@.remove(rid),
    ensures
        !post.rooms@.dom().contains(rid),
{
}

/// Game identifiers are time ordered: a game with a smaller sequence
/// number has the lexicographically smaller identifier, so identifiers
/// sort by creation time.
pub proof fn lemma_game_ids_time_ordered(n1: u64, n2: u64)
    requires
        n1 < n2,
    ensures
        lex_before(spec_game_id(n1 as nat), spec_game_id(n2 as nat)),
{
    let w = GAME_ID_DIGITS as nat;
    assert(pow10(w) == 100000000000000000000) by {
        reveal_with_fuel(pow10, 21);
    }
    lemma_fixed_decimal_order(n1 as nat, n2 as nat, w);
    lemma_fixed_decimal_len(n1 as nat, w);
    lemma_fixed_decimal_len(n2 as nat, w);
    let a = spec_fixed_decimal(n1 as nat, w);
    let b = spec_fixed_decimal(n2 as nat, w);
    let ga = spec_game_id(n1 as nat);
    let gb = spec_game_id(n2 as nat);
    let p = "game-"@;
    let k = choose|k: int|
        0 <= k < a.len() && k < b.len() && a.take(k) == b.take(k) && (a[k] as int) < (b[k] as int);
    let m = p.len() + k;
    assert(ga.take(m) == gb.take(m)) by {
        assert forall|i: int| 0 <= i < m implies ga.take(m)[i] == gb.take(m)[i] by {
            if i >= p.len() {
                assert(a.take(k)[i - p.len()] == b.take(k)[i - p.len()]);
            }
        }
        assert(ga.take(m) =~= gb.take(m));
    }
    assert(ga[m] == a[k] && gb[m] == b[k]);
    assert(lex_before(ga, gb));
}

/// No multi-room residency: a user is a member of at most one room at a
/// time.
pub proof fn lemma_single_residency(s: Store, r1: Seq<char>, r2: Seq<char>, uid: Seq<char>)
    requires
        s.inv(),
        s.in_room(r1, uid),
        s.in_room(r2, uid),
    ensures
        r1 == r2,
{
    lemma_member_pointer(s, r1, uid);
    lemma_member_pointer(s, r2, uid);
}

} // verus!
