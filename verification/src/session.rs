//! The session registry: one bounded outbound message queue per connected
//! user.
//!
//! A `Session` carries the pending messages of one streaming call, plus
//! ghost bookkeeping: `history` is every message ever enqueued and
//! `delivered` every message already handed to the stream. The
//! well-formedness `history == delivered + queue` makes the per-session
//! ordering guarantee a theorem: messages leave the queue in exactly the
//! order they entered it (see `crate::laws`).

use vstd::prelude::*;

use crate::models::distinct_seqs;
use crate::types::RoomMessage;

verus! {

/// Maximum number of undelivered messages a session buffers; an enqueue
/// onto a full session fails and is dropped by the sender.
pub const SESSION_QUEUE_CAPACITY: usize = 128;

/// One connected session: the pending outbound messages, with ghost
/// delivery bookkeeping.
pub struct Session {
    /// Messages enqueued but not yet handed to the stream, oldest first.
    pub queue: Vec<RoomMessage>,
    /// Ghost: messages already handed to the stream, in delivery order.
    pub delivered: Ghost<Seq<RoomMessage>>,
    /// Ghost: every message ever enqueued, in enqueue order.
    pub history: Ghost<Seq<RoomMessage>>,
}

impl Session {
    /// Everything enqueued is what was delivered followed by what is
    /// still pending.
    pub open spec fn wf(self) -> bool {
        self.history@ == self.delivered@ + self.queue@
    }

    /// A fresh session with an empty queue and empty bookkeeping.
    pub fn new() -> (s: Session)
        ensures
            s.queue@ == Seq::<RoomMessage>::empty(),
            s.delivered@ == Seq::<RoomMessage>::empty(),
            s.history@ == Seq::<RoomMessage>::empty(),
            s.wf(),
    {
        let s = Session {
            queue: Vec::new(),
            delivered: Ghost(Seq::empty()),
            history: Ghost(Seq::empty()),
        };
        proof {
            assert(s.history@ =~= s.delivered@ + s.queue@);
        }
        s
    }

    /// Enqueues `m`: it becomes the newest pending message.
    fn push_msg(&mut self, m: RoomMessage)
        ensures
            final(self).queue@ == old(self).queue@.push(m),
            final(self).delivered@ == old(self).delivered@,
            final(self).history@ == old(self).history@.push(m),
            old(self).wf() ==> final(self).wf(),
    {
        self.queue.push(m);
        proof {
            if old(self).wf() {
                assert(old(self).history@.push(m) =~= old(self).delivered@ + old(
                    self,
                ).queue@.push(m));
            }
        }
        self.history = Ghost(self.history@.push(m));
    }

    /// Delivers the oldest pending message, if any.
    fn pop_msg(&mut self) -> (r: Option<RoomMessage>)
        ensures
            old(self).queue@.len() == 0 ==> r is None && *final(self) == *old(self),
            old(self).queue@.len() > 0 ==> {
                &&& r == Some(old(self).queue@[0])
                &&& final(self).queue@ == old(self).queue@.skip(1)
                &&& final(self).delivered@ == old(self).delivered@.push(old(self).queue@[0])
                &&& final(self).history@ == old(self).history@
            },
            old(self).wf() ==> final(self).wf(),
    {
        if self.queue.len() == 0 {
            None
        } else {
            let m = self.queue.remove(0);
            proof {
                assert(self.queue@ =~= old(self).queue@.skip(1));
                if old(self).wf() {
                    assert(old(self).history@ =~= old(self).delivered@.push(m)
                        + old(self).queue@.skip(1));
                }
            }
            self.delivered = Ghost(self.delivered@.push(m));
            Some(m)
        }
    }
}

struct SessionEntry {
    user_id: String,
    session: Session,
}

/// The process-local registry mapping a user identifier to its session.
pub struct SessionMap {
    entries: Vec<SessionEntry>,
}

/// Every identifier other than `uid` keeps its registration status and,
/// when registered, its session.
pub open spec fn same_except(pre: SessionMap, post: SessionMap, uid: Seq<char>) -> bool {
    forall|o: Seq<char>|
        o != uid ==> (#[trigger] post.contains(o)) == pre.contains(o) && (pre.contains(o)
            ==> post.at(o) == pre.at(o))
}

impl SessionMap {
    /// The registered identifiers, in registration order.
    pub closed spec fn key_seq(self) -> Seq<Seq<char>> {
        self.entries@.map_values(|e: SessionEntry| e.user_id@)
    }

    /// Whether `uid` has a registered session.
    pub closed spec fn contains(self, uid: Seq<char>) -> bool {
        exists|i: int|
            0 <= i < self.entries@.len() && self.entries@[i].user_id@ == uid
    }

    spec fn index_of(self, uid: Seq<char>) -> int {
        choose|i: int| 0 <= i < self.entries@.len() && self.entries@[i].user_id@ == uid
    }

    /// The session registered for `uid` (meaningful when `contains`).
    pub closed spec fn at(self, uid: Seq<char>) -> Session {
        self.entries@[self.index_of(uid)].session
    }

    /// Each identifier is registered at most once, and every session is
    /// well formed.
    pub closed spec fn wf(self) -> bool {
        &&& distinct_seqs(self.key_seq())
        &&& forall|i: int|
            0 <= i < self.entries@.len() ==> (#[trigger] self.entries@[i]).session.wf()
    }

    proof fn lemma_index(self, i: int)
        requires
            distinct_seqs(self.key_seq()),
            0 <= i < self.entries@.len(),
        ensures
            self.contains(self.entries@[i].user_id@),
            self.index_of(self.entries@[i].user_id@) == i,
    {
        let uid = self.entries@[i].user_id@;
        assert(self.contains(uid));
        let j = self.index_of(uid);
        assert(0 <= j < self.entries@.len() && self.entries@[j].user_id@ == uid);
        assert(self.key_seq()[i] == uid && self.key_seq()[j] == uid);
        if i != j {
            assert(false);
        }
    }

    /// An empty registry.
    pub fn new() -> (m: SessionMap)
        ensures
            forall|uid: Seq<char>| !m.contains(uid),
            m.wf(),
    {
        SessionMap { entries: Vec::new() }
    }

    fn find_index(&self, user_id: &String) -> (r: Option<usize>)
        ensures
            match r {
                Some(i) => i < self.entries@.len() && self.entries@[i as int].user_id@
                    == user_id@,
                None => !self.contains(user_id@),
            },
    {
        let n = self.entries.len();
        let mut i: usize = 0;
        while i < n
            invariant
                n == self.entries@.len(),
                i <= n,
                forall|j: int| 0 <= j < i ==> self.entries@[j].user_id@ != user_id@,
            decreases n - i,
        {
            if self.entries[i].user_id == *user_id {
                return Some(i);
            }
            i += 1;
        }
        None
    }

    /// Registers `session` for `user_id`, replacing any existing entry.
    pub fn insert(&mut self, user_id: String, session: Session)
        requires
            old(self).wf(),
            session.wf(),
        ensures
            final(self).wf(),
            final(self).contains(user_id@),
            final(self).at(user_id@) == session,
            same_except(*old(self), *final(self), user_id@),
    {
        let ghost uid = user_id@;
        let entry = SessionEntry { user_id, session };
        match self.find_index(&entry.user_id) {
            Some(i) => {
                self.entries.set(i, entry);
                proof {
                    assert(forall|j: int|
                        0 <= j < old(self).entries@.len() && j != i ==> #[trigger] self.entries@[j]
                            == old(self).entries@[j]);
                    self.lemma_update_session_ok(*old(self), i as int, uid);
                    assert(self.at(uid) == session);
                }
            },
            None => {
                self.entries.push(entry);
                proof {
                    assert(self.entries@.take(old(self).entries@.len() as int) =~= old(
                        self,
                    ).entries@);
                    self.lemma_push_ok(*old(self), uid, session);
                }
            },
        }
    }

    proof fn lemma_push_ok(self, pre: SessionMap, uid: Seq<char>, session: Session)
        requires
            pre.wf(),
            session.wf(),
            !pre.contains(uid),
            self.entries@.len() == pre.entries@.len() + 1,
            self.entries@.take(pre.entries@.len() as int) == pre.entries@,
            self.entries@.last().user_id@ == uid,
            self.entries@.last().session == session,
        ensures
            self.wf(),
            self.contains(uid),
            self.at(uid) == session,
            same_except(pre, self, uid),
    {
        let n = pre.entries@.len() as int;
        assert forall|j: int| 0 <= j < n implies self.entries@[j] == pre.entries@[j] by {
            assert(self.entries@.take(n)[j] == self.entries@[j]);
        }
        assert(distinct_seqs(self.key_seq())) by {
            let ks = self.key_seq();
            assert forall|a: int, b: int| 0 <= a < b < ks.len() implies ks[a] != ks[b] by {
                if b < n {
                    assert(pre.key_seq()[a] == ks[a] && pre.key_seq()[b] == ks[b]);
                } else {
                    assert(ks[b] == uid);
                    if ks[a] == uid {
                        assert(pre.entries@[a].user_id@ == uid);
                        assert(pre.contains(uid));
                    }
                }
            }
        }
        self.lemma_index(n);
        assert forall|o: Seq<char>| o != uid implies (#[trigger] self.contains(o)) == pre.contains(
            o,
        ) && (pre.contains(o) ==> self.at(o) == pre.at(o)) by {
            if pre.contains(o) {
                let j = pre.index_of(o);
                pre.lemma_index(j);
                assert(self.entries@[j].user_id@ == o);
                self.lemma_index(j);
            }
            if self.contains(o) {
                let j = self.index_of(o);
                self.lemma_index(j);
                assert(j != n);
                assert(pre.entries@[j].user_id@ == o);
                pre.lemma_index(j);
            }
        }
    }

    /// Deregisters `user_id`; does nothing when absent.
    pub fn remove(&mut self, user_id: &String)
        requires
            old(self).wf(),
        ensures
            final(self).wf(),
            !final(self).contains(user_id@),
            same_except(*old(self), *final(self), user_id@),
    {
        match self.find_index(user_id) {
            Some(i) => {
                self.entries.remove(i);
                proof {
                    self.lemma_remove_ok(*old(self), i as int, user_id@);
                }
            },
            None => {},
        }
    }

    proof fn lemma_remove_ok(self, pre: SessionMap, i: int, uid: Seq<char>)
        requires
            pre.wf(),
            0 <= i < pre.entries@.len(),
            pre.entries@[i].user_id@ == uid,
            self.entries@ == pre.entries@.remove(i),
        ensures
            self.wf(),
            !self.contains(uid),
            same_except(pre, self, uid),
    {
        let n = self.entries@.len() as int;
        assert(distinct_seqs(self.key_seq())) by {
            let ks = self.key_seq();
            assert forall|a: int, b: int| 0 <= a < b < ks.len() implies ks[a] != ks[b] by {
                let pa = if a < i { a } else { a + 1 };
                let pb = if b < i { b } else { b + 1 };
                assert(ks[a] == pre.key_seq()[pa] && ks[b] == pre.key_seq()[pb]);
            }
        }
        assert(!self.contains(uid)) by {
            if self.contains(uid) {
                let j = self.index_of(uid);
                assert(self.entries@[j].user_id@ == uid);
                let pj = if j < i { j } else { j + 1 };
                assert(pre.key_seq()[pj] == uid && pre.key_seq()[i] == uid);
            }
        }
        assert forall|o: Seq<char>| o != uid implies (#[trigger] self.contains(o)) == pre.contains(
            o,
        ) && (pre.contains(o) ==> self.at(o) == pre.at(o)) by {
            if pre.contains(o) {
                let j = pre.index_of(o);
                pre.lemma_index(j);
                assert(j != i);
                let nj = if j < i { j } else { j - 1 };
                assert(self.entries@[nj] == pre.entries@[j]);
                self.lemma_index(nj);
            }
            if self.contains(o) {
                let j = self.index_of(o);
                self.lemma_index(j);
                let pj = if j < i { j } else { j + 1 };
                assert(pre.entries@[pj].user_id@ == o);
                pre.lemma_index(pj);
            }
        }
    }

    /// A reference to the session registered for `user_id`.
    pub fn get(&self, user_id: &String) -> (r: Option<&Session>)
        requires
            self.wf(),
        ensures
            match r {
                Some(s) => self.contains(user_id@) && *s == self.at(user_id@),
                None => !self.contains(user_id@),
            },
    {
        match self.find_index(user_id) {
            Some(i) => {
                proof {
                    self.lemma_index(i as int);
                }
                Some(&self.entries[i].session)
            },
            None => None,
        }
    }

    /// Enqueues `m` for `user_id`. Fails — leaving every session as it
    /// was — when no session is registered or the queue is full.
    pub fn enqueue(&mut self, user_id: &String, m: RoomMessage) -> (ok: bool)
        requires
            old(self).wf(),
        ensures
            final(self).wf(),
            ok == (old(self).contains(user_id@) && old(self).at(user_id@).queue@.len()
                < SESSION_QUEUE_CAPACITY),
            final(self).contains(user_id@) == old(self).contains(user_id@),
            ok ==> {
                &&& final(self).at(user_id@).queue@ == old(self).at(user_id@).queue@.push(m)
                &&& final(self).at(user_id@).delivered@ == old(self).at(user_id@).delivered@
                &&& final(self).at(user_id@).history@ == old(self).at(user_id@).history@.push(m)
            },
            !ok && old(self).contains(user_id@) ==> final(self).at(user_id@) == old(self).at(
                user_id@,
            ),
            same_except(*old(self), *final(self), user_id@),
    {
        match self.find_index(user_id) {
            Some(i) => {
                proof {
                    self.lemma_index(i as int);
                }
                if self.entries[i].session.queue.len() >= SESSION_QUEUE_CAPACITY {
                    return false;
                }
                let mut entry = SessionEntry { user_id: String::new(), session: Session::new() };
                self.entries.set_and_swap(i, &mut entry);
                entry.session.push_msg(m);
                self.entries.set(i, entry);
                proof {
                    assert(self.entries@ =~= old(self).entries@.update(i as int, entry));
                    self.lemma_update_session_ok(*old(self), i as int, user_id@);
                }
                true
            },
            None => false,
        }
    }

    /// Takes the oldest pending message of `user_id`, if any.
    pub fn pop(&mut self, user_id: &String) -> (r: Option<RoomMessage>)
        requires
            old(self).wf(),
        ensures
            final(self).wf(),
            final(self).contains(user_id@) == old(self).contains(user_id@),
            match r {
                Some(m) => {
                    &&& old(self).contains(user_id@)
                    &&& old(self).at(user_id@).queue@.len() > 0
                    &&& m == old(self).at(user_id@).queue@[0]
                    &&& final(self).at(user_id@).queue@ == old(self).at(user_id@).queue@.skip(1)
                    &&& final(self).at(user_id@).delivered@ == old(self).at(
                        user_id@,
                    ).delivered@.push(m)
                    &&& final(self).at(user_id@).history@ == old(self).at(user_id@).history@
                },
                None => {
                    &&& (old(self).contains(user_id@) ==> old(self).at(user_id@).queue@.len() == 0
                        && final(self).at(user_id@) == old(self).at(user_id@))
                },
            },
            same_except(*old(self), *final(self), user_id@),
    {
        match self.find_index(user_id) {
            Some(i) => {
                proof {
                    self.lemma_index(i as int);
                }
                let mut entry = SessionEntry { user_id: String::new(), session: Session::new() };
                self.entries.set_and_swap(i, &mut entry);
                let r = entry.session.pop_msg();
                self.entries.set(i, entry);
                proof {
                    assert(self.entries@ =~= old(self).entries@.update(i as int, entry));
                    self.lemma_update_session_ok(*old(self), i as int, user_id@);
                }
                r
            },
            None => None,
        }
    }

    proof fn lemma_update_session_ok(self, pre: SessionMap, i: int, uid: Seq<char>)
        requires
            pre.wf(),
            0 <= i < pre.entries@.len(),
            pre.entries@[i].user_id@ == uid,
            self.entries@.len() == pre.entries@.len(),
            self.entries@[i].user_id@ == uid,
            self.entries@[i].session.wf(),
            forall|j: int|
                0 <= j < pre.entries@.len() && j != i ==> #[trigger] self.entries@[j]
                    == pre.entries@[j],
        ensures
            self.wf(),
            self.contains(uid),
            pre.contains(uid),
            self.at(uid) == self.entries@[i].session,
            pre.at(uid) == pre.entries@[i].session,
            same_except(pre, self, uid),
    {
        assert(self.key_seq() =~= pre.key_seq());
        self.lemma_index(i);
        pre.lemma_index(i);
        assert forall|o: Seq<char>| o != uid implies (#[trigger] self.contains(o)) == pre.contains(
            o,
        ) && (pre.contains(o) ==> self.at(o) == pre.at(o)) by {
            if pre.contains(o) {
                let j = pre.index_of(o);
                pre.lemma_index(j);
                assert(self.entries@[j].user_id@ == o);
                self.lemma_index(j);
            }
            if self.contains(o) {
                let j = self.index_of(o);
                self.lemma_index(j);
                assert(pre.entries@[j].user_id@ == o);
                pre.lemma_index(j);
            }
        }
    }
}

} // verus!
