//! The shared registry of live sessions: insertion under a fresh unique id,
//! removal by stable id, and fan-out delivery to every session but one.

use vstd::prelude::*;

use crate::session::{activated, with_delivery, Session, SessionModel, SessionState};

verus! {

/// No two sessions of `s` carry the same id.
pub open spec fn ids_unique(s: Seq<SessionModel>) -> bool {
    forall|i: int, j: int| 0 <= i < j < s.len() ==> s[i].id != s[j].id
}

/// Some session of `s` carries `id`.
pub open spec fn has_session_id(s: Seq<SessionModel>, id: u64) -> bool {
    exists|i: int| 0 <= i < s.len() && s[i].id == id
}

/// An index of `s` whose session carries `id`; under [`ids_unique`] it is
/// the only one.
pub open spec fn index_of_id(s: Seq<SessionModel>, id: u64) -> int {
    choose|i: int| 0 <= i < s.len() && s[i].id == id
}

/// The display name registered under `id`.
pub open spec fn name_of(s: Seq<SessionModel>, id: u64) -> Seq<char> {
    s[index_of_id(s, id)].name
}

/// `s` without the session registered under `id`; `s` itself when no
/// session carries `id`.
pub open spec fn remove_id(s: Seq<SessionModel>, id: u64) -> Seq<SessionModel> {
    if has_session_id(s, id) {
        s.remove(index_of_id(s, id))
    } else {
        s
    }
}

/// Every session of `s` with `msg` appended to its write buffer, except the
/// one registered under `origin`, which is left untouched.
pub open spec fn deliver_except(s: Seq<SessionModel>, msg: Seq<char>, origin: u64) -> Seq<
    SessionModel,
> {
    Seq::new(
        s.len(),
        |i: int|
            if s[i].id == origin {
                s[i]
            } else {
                with_delivery(s[i], msg)
            },
    )
}

/// Removing an id is idempotent: once the session carrying `id` is gone —
/// or was never there — removing `id` again changes nothing, so a second
/// remove of the same id leaves the registry exactly as the first did.
pub proof fn lemma_remove_idempotent(s: Seq<SessionModel>, id: u64)
    requires
        ids_unique(s),
    ensures
        remove_id(remove_id(s, id), id) == remove_id(s, id),
{
    if has_session_id(s, id) {
        let i = index_of_id(s, id);
        assert(0 <= i < s.len() && s[i].id == id);
        let s1 = s.remove(i);
        assert forall|k: int| 0 <= k < s1.len() implies (#[trigger] s1[k]).id != id by {
            if k < i {
                assert(s1[k] == s[k]);
                assert(s[k].id != s[i].id);
            } else {
                assert(s1[k] == s[k + 1]);
                assert(s[k + 1].id != s[i].id);
            }
        }
        assert(!has_session_id(s1, id));
    }
}

/// The registry of live sessions. Structural changes go through
/// [`Registry::register`] and [`Registry::remove`]; content changes to the
/// write buffers go through [`Registry::broadcast`] and
/// [`Registry::drain_outputs`].
pub struct Registry {
    pub sessions: Vec<Session>,
    pub next_id: u64,
}

impl Registry {
    /// The registered sessions as a sequence of mathematical values, in
    /// insertion order.
    pub open spec fn model(self) -> Seq<SessionModel> {
        self.sessions@.map_values(|s: Session| s@)
    }

    /// The registry's invariant: ids are unique, every registered session is
    /// active, and every id was drawn from the counter, so the counter never
    /// hands one out twice.
    pub open spec fn wf(self) -> bool {
        &&& ids_unique(self.model())
        &&& forall|i: int|
            0 <= i < self.model().len() ==> (#[trigger] self.model()[i]).state
                == SessionState::Active
        &&& forall|i: int| 0 <= i < self.model().len() ==> (#[trigger] self.model()[i]).id < self.next_id
    }

    /// An empty registry.
    pub fn new() -> (r: Registry)
        ensures
            r.wf(),
            r.model() == Seq::<SessionModel>::empty(),
            r.next_id == 0,
    {
        let r = Registry { sessions: Vec::new(), next_id: 0 };
        proof {
            assert(r.model() =~= Seq::<SessionModel>::empty());
        }
        r
    }

    /// How many sessions are registered.
    pub fn count(&self) -> (n: usize)
        ensures
            n == self.model().len(),
    {
        self.sessions.len()
    }

    /// Whether some session is registered under `id`.
    pub fn has_id(&self, id: u64) -> (r: bool)
        ensures
            r == has_session_id(self.model(), id),
    {
        match self.find_index(id) {
            Some(_) => true,
            None => false,
        }
    }

    /// The position of the session registered under `id`, if any.
    pub(crate) fn find_index(&self, id: u64) -> (r: Option<usize>)
        ensures
            match r {
                Some(i) => i < self.model().len() && self.model()[i as int].id == id,
                None => !has_session_id(self.model(), id),
            },
    {
        let n = self.sessions.len();
        let mut k: usize = 0;
        while k < n
            invariant
                n == self.sessions@.len(),
                k <= n,
                forall|j: int| 0 <= j < k ==> (#[trigger] self.model()[j]).id != id,
            decreases n - k,
        {
            if self.sessions[k].id == id {
                return Some(k);
            }
            k += 1;
        }
        None
    }

    /// Admits a session that has completed its handshake: assigns the next
    /// unused id, activates the session, and appends it. The returned id is
    /// carried by no other registered session, now or until this one is
    /// removed, because the counter only grows.
    pub fn register(&mut self, session: Session) -> (id: u64)
        requires
            old(self).wf(),
            session@.state == SessionState::Handshaking,
            old(self).next_id < u64::MAX,
        ensures
            final(self).wf(),
            id == old(self).next_id,
            !has_session_id(old(self).model(), id),
            final(self).model() == old(self).model().push(activated(session@, id)),
            final(self).next_id == id + 1,
    {
        let ghost m0 = self.model();
        let ghost sm = session@;
        let id = self.next_id;
        let mut s = session;
        s.id = id;
        s.state = SessionState::Active;
        self.sessions.push(s);
        self.next_id = id + 1;
        proof {
            assert(s@ =~= activated(sm, id));
            assert(self.model() =~= m0.push(activated(sm, id)));
            let m1 = self.model();
            assert forall|i: int| 0 <= i < m1.len() implies (#[trigger] m1[i]).id < self.next_id
                && m1[i].state == SessionState::Active by {
                if i < m0.len() {
                    assert(m1[i] == m0[i]);
                }
            }
            assert forall|i: int, j: int| 0 <= i < j < m1.len() implies m1[i].id != m1[j].id by {
                if j < m0.len() {
                    assert(m0[i].id != m0[j].id);
                } else {
                    assert(m1[i] == m0[i]);
                    assert(m0[i].id < id);
                }
            }
            assert(!has_session_id(m0, id));
        }
        id
    }

    /// Removes the session registered under `id` if one is present; removing
    /// an absent id changes nothing, so a second remove of the same id is a
    /// no-op.
    pub fn remove(&mut self, id: u64)
        requires
            old(self).wf(),
        ensures
            final(self).wf(),
            final(self).next_id == old(self).next_id,
            final(self).model() == remove_id(old(self).model(), id),
            !has_session_id(final(self).model(), id),
    {
        let ghost m0 = self.model();
        match self.find_index(id) {
            None => {
                proof {
                    assert(remove_id(m0, id) == m0);
                }
            },
            Some(i) => {
                self.sessions.remove(i);
                proof {
                    assert(has_session_id(m0, id));
                    let j = index_of_id(m0, id);
                    assert(0 <= j < m0.len() && m0[j].id == id);
                    assert(j == i);
                    assert(self.model() =~= m0.remove(i as int));
                    let m1 = self.model();
                    assert(m1.len() == m0.len() - 1);
                    assert forall|k: int| 0 <= k < m1.len() implies #[trigger] m1[k] == (if k < i {
                        m0[k]
                    } else {
                        m0[k + 1]
                    }) by {}
                    assert forall|k: int| 0 <= k < m1.len() implies (#[trigger] m1[k]).id != id by {
                        if k < i {
                            assert(m0[k].id != m0[j].id);
                        } else {
                            assert(m0[k + 1].id != m0[j].id);
                        }
                    }
                    assert(!has_session_id(m1, id));
                    assert forall|p: int, q: int| 0 <= p < q < m1.len() implies m1[p].id
                        != m1[q].id by {
                        let p0: int = if p < i {
                            p
                        } else {
                            p + 1
                        };
                        let q0: int = if q < i {
                            q
                        } else {
                            q + 1
                        };
                        assert(m1[p] == m0[p0] && m1[q] == m0[q0]);
                        assert(m0[p0].id != m0[q0].id);
                    }
                }
            },
        }
    }

    /// Appends `message` to the write buffer of every registered session
    /// except the one registered under `origin_id`, which receives nothing.
    pub fn broadcast(&mut self, message: &str, origin_id: u64)
        requires
            old(self).wf(),
        ensures
            final(self).wf(),
            final(self).next_id == old(self).next_id,
            final(self).model() == deliver_except(old(self).model(), message@, origin_id),
            forall|i: int|
                0 <= i < old(self).model().len() && (#[trigger] old(self).model()[i]).id
                    == origin_id ==> final(self).model()[i] == old(self).model()[i],
    {
        let ghost m0 = self.model();
        let ghost n0 = self.next_id;
        let n = self.sessions.len();
        let mut k: usize = 0;
        while k < n
            invariant
                n == self.sessions@.len(),
                k <= n,
                self.next_id == n0,
                self.model().len() == m0.len(),
                forall|i: int|
                    0 <= i < k ==> #[trigger] self.model()[i] == deliver_except(
                        m0,
                        message@,
                        origin_id,
                    )[i],
                forall|i: int| k <= i < n ==> #[trigger] self.model()[i] == m0[i],
            decreases n - k,
        {
            let ghost mk = self.model();
            if self.sessions[k].id != origin_id {
                let sref = &mut self.sessions[k];
                sref.write_buffer.append(message);
                proof {
                    assert(self.model() =~= mk.update(
                        k as int,
                        with_delivery(mk[k as int], message@),
                    ));
                    assert(self.model()[k as int] =~= with_delivery(m0[k as int], message@));
                }
            }
            k += 1;
        }
        proof {
            assert(self.model() =~= deliver_except(m0, message@, origin_id));
            let m1 = self.model();
            assert forall|i: int|
                0 <= i < m1.len() implies (#[trigger] m1[i]).id == m0[i].id && m1[i].state
                == m0[i].state by {}
        }
    }

    /// Hands out everything pending for the transports: one `(id, text)`
    /// pair per registered session, in registry order, and leaves every
    /// write buffer empty.
    pub fn drain_outputs(&mut self) -> (out: Vec<(u64, String)>)
        requires
            old(self).wf(),
        ensures
            final(self).wf(),
            final(self).next_id == old(self).next_id,
            out@.len() == old(self).model().len(),
            forall|i: int|
                0 <= i < out@.len() ==> (#[trigger] out@[i]).0 == old(self).model()[i].id
                    && out@[i].1@ == old(self).model()[i].write_buffer,
            final(self).model().len() == old(self).model().len(),
            forall|i: int|
                0 <= i < old(self).model().len() ==> #[trigger] final(self).model()[i]
                    == (SessionModel { write_buffer: Seq::empty(), ..old(self).model()[i] }),
    {
        let ghost m0 = self.model();
        let ghost n0 = self.next_id;
        let n = self.sessions.len();
        let mut out: Vec<(u64, String)> = Vec::new();
        let mut k: usize = 0;
        while k < n
            invariant
                n == self.sessions@.len(),
                k <= n,
                self.next_id == n0,
                self.model().len() == m0.len(),
                out@.len() == k,
                forall|i: int|
                    0 <= i < k ==> (#[trigger] out@[i]).0 == m0[i].id && out@[i].1@
                        == m0[i].write_buffer,
                forall|i: int|
                    0 <= i < k ==> #[trigger] self.model()[i] == (SessionModel {
                        write_buffer: Seq::empty(),
                        ..m0[i]
                    }),
                forall|i: int| k <= i < n ==> #[trigger] self.model()[i] == m0[i],
            decreases n - k,
        {
            let ghost mk = self.model();
            let sref = &mut self.sessions[k];
            let sid = sref.id;
            let pending = sref.flush_write_buffer();
            out.push((sid, pending));
            proof {
                assert(self.model() =~= mk.update(
                    k as int,
                    SessionModel { write_buffer: Seq::empty(), ..mk[k as int] },
                ));
                assert(self.model()[k as int] =~= SessionModel {
                    write_buffer: Seq::empty(),
                    ..m0[k as int]
                });
            }
            k += 1;
        }
        proof {
            let m1 = self.model();
            assert forall|i: int|
                0 <= i < m1.len() implies (#[trigger] m1[i]).id == m0[i].id && m1[i].state
                == m0[i].state by {}
        }
        out
    }
}

} // verus!
