//! One step of a session's worker: what a read from the transport leads to.
//! A line is framed and fanned out; a disconnect removes the session and
//! announces its departure; an empty read changes nothing.

use vstd::prelude::*;

use crate::messages::{chat_frame, chat_frame_text, depart_notice, depart_notice_text};
use crate::registry::{
    deliver_except, has_session_id, index_of_id, name_of, remove_id, Registry,
};
use crate::session::{with_buffers_cleared, with_delivery, SessionModel};

verus! {

/// What one blocking read of a session's transport yielded: the peer closed
/// the connection (or the read failed, which counts the same), a line of
/// text arrived, or nothing new was available.
pub enum ReadEvent {
    Disconnected,
    Line(String),
    Empty,
}

/// The registered sessions after a line from `origin` was handled: every
/// other session has the framed line appended to its write buffer, and the
/// originator's buffers are cleared.
pub open spec fn step_line(s: Seq<SessionModel>, origin: u64, line: Seq<char>) -> Seq<
    SessionModel,
> {
    let framed = chat_frame_text(name_of(s, origin), line);
    Seq::new(
        s.len(),
        |i: int|
            if s[i].id == origin {
                with_buffers_cleared(s[i])
            } else {
                with_delivery(s[i], framed)
            },
    )
}

/// The registered sessions after `origin` disconnected: its entry is gone
/// and every remaining session has the departure notice pending.
pub open spec fn step_disconnect(s: Seq<SessionModel>, origin: u64) -> Seq<SessionModel> {
    deliver_except(remove_id(s, origin), depart_notice_text(name_of(s, origin)), origin)
}

/// Handles what one read of the session registered under `session_id`
/// yielded, and says whether that session's worker should keep running.
///
/// A line is framed as `"<name>: <line>\n"` and becomes pending for every
/// other session, never for the originator, whose buffers are cleared. A
/// disconnect removes the session — its id is then registered no more — and
/// makes `"<name> has left\n"` pending for every remaining session. An empty
/// read, and any event for an id that is not registered, changes nothing.
pub fn worker_step(reg: &mut Registry, session_id: u64, event: ReadEvent) -> (alive: bool)
    requires
        old(reg).wf(),
    ensures
        final(reg).wf(),
        final(reg).next_id == old(reg).next_id,
        (event matches ReadEvent::Empty ==> final(reg).model() == old(reg).model() && alive),
        !has_session_id(old(reg).model(), session_id) ==> final(reg).model() == old(reg).model()
            && (alive == (event matches ReadEvent::Empty)),
        (event matches ReadEvent::Line(line) ==> has_session_id(old(reg).model(), session_id)
            ==> final(reg).model() == step_line(old(reg).model(), session_id, line@) && alive),
        (event matches ReadEvent::Disconnected ==> has_session_id(old(reg).model(), session_id)
            ==> final(reg).model() == step_disconnect(old(reg).model(), session_id) && !alive
            && !has_session_id(final(reg).model(), session_id)),
{
    match event {
        ReadEvent::Empty => true,
        ReadEvent::Line(line) => {
            let found = reg.find_index(session_id);
            match found {
                None => false,
                Some(i) => {
                    let ghost m0 = reg.model();
                    let name = reg.sessions[i].name.clone();
                    proof {
                        assert(m0[i as int].id == session_id);
                        assert(index_of_id(m0, session_id) == i) by {
                            let j = index_of_id(m0, session_id);
                            assert(0 <= j < m0.len() && m0[j].id == session_id);
                        }
                    }
                    let framed = chat_frame(name.as_str(), line.as_str());
                    reg.broadcast(framed.as_str(), session_id);
                    let sref = &mut reg.sessions[i];
                    sref.clear_buffers();
                    proof {
                        let mid = deliver_except(m0, framed@, session_id);
                        assert(reg.sessions@.len() == m0.len());
                        assert(reg.model() =~= mid.update(
                            i as int,
                            with_buffers_cleared(mid[i as int]),
                        ));
                        assert(with_buffers_cleared(mid[i as int]) =~= with_buffers_cleared(
                            m0[i as int],
                        ));
                        assert forall|k: int|
                            0 <= k < m0.len() && k != i implies #[trigger] m0[k].id
                            != session_id by {}
                        assert(reg.model() =~= step_line(m0, session_id, line@));
                    }
                    true
                },
            }
        },
        ReadEvent::Disconnected => {
            let found = reg.find_index(session_id);
            match found {
                None => false,
                Some(i) => {
                    let ghost m0 = reg.model();
                    let name = reg.sessions[i].name.clone();
                    proof {
                        assert(m0[i as int].id == session_id);
                        assert(index_of_id(m0, session_id) == i) by {
                            let j = index_of_id(m0, session_id);
                            assert(0 <= j < m0.len() && m0[j].id == session_id);
                        }
                    }
                    let notice = depart_notice(name.as_str());
                    reg.remove(session_id);
                    reg.broadcast(notice.as_str(), session_id);
                    proof {
                        assert(notice@ == depart_notice_text(name_of(m0, session_id)));
                        let m1 = remove_id(m0, session_id);
                        let m2 = reg.model();
                        assert forall|k: int|
                            0 <= k < m2.len() implies (#[trigger] m2[k]).id == m1[k].id by {}
                        assert(!has_session_id(m2, session_id));
                    }
                    false
                },
            }
        },
    }
}

} // verus!
