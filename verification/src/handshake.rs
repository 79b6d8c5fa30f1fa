//! The naming exchange that precedes admission to the registry: a received
//! line is trimmed, its length checked against the open interval (4, 25),
//! and on success the session is named, registered, and announced.

use vstd::prelude::*;

use crate::messages::{
    invalid_name_prompt, invalid_name_text, join_notice, join_notice_text, success_message,
    success_text,
};
use crate::registry::{deliver_except, has_session_id, Registry};
use crate::session::{with_delivery, Session, SessionModel, SessionState};

verus! {

/// Whitespace for the purposes of line trimming: blanks, tabs and the line
/// endings a telnet-style client sends.
pub open spec fn is_space_char(c: char) -> bool {
    c == ' ' || c == '\t' || c == '\r' || c == '\n'
}

/// `s` without its leading whitespace.
pub open spec fn trim_front(s: Seq<char>) -> Seq<char>
    decreases s.len(),
{
    if s.len() > 0 && is_space_char(s[0]) {
        trim_front(s.drop_first())
    } else {
        s
    }
}

/// `s` without its trailing whitespace.
pub open spec fn trim_back(s: Seq<char>) -> Seq<char>
    decreases s.len(),
{
    if s.len() > 0 && is_space_char(s[s.len() - 1]) {
        trim_back(s.drop_last())
    } else {
        s
    }
}

/// `s` without leading and trailing whitespace.
pub open spec fn trimmed(s: Seq<char>) -> Seq<char> {
    trim_back(trim_front(s))
}

/// A name length is acceptable when it lies strictly between 4 and 25;
/// exactly 4 and exactly 25 are rejected.
pub open spec fn valid_name_len(n: nat) -> bool {
    4 < n < 25
}

fn is_space(c: char) -> (r: bool)
    ensures
        r == is_space_char(c),
{
    c == ' ' || c == '\t' || c == '\r' || c == '\n'
}

proof fn lemma_trim_front_skip(s: Seq<char>, i: int)
    requires
        0 <= i <= s.len(),
        forall|k: int| 0 <= k < i ==> is_space_char(#[trigger] s[k]),
    ensures
        trim_front(s) == trim_front(s.skip(i)),
    decreases i,
{
    if i > 0 {
        assert(is_space_char(s[0]));
        assert(s.drop_first() =~= s.skip(1));
        lemma_trim_front_skip(s.skip(1), i - 1);
        assert(s.skip(1).skip(i - 1) =~= s.skip(i));
    } else {
        assert(s.skip(0) =~= s);
    }
}

proof fn lemma_trim_back_take(s: Seq<char>, e: int)
    requires
        0 <= e <= s.len(),
        forall|k: int| e <= k < s.len() ==> is_space_char(#[trigger] s[k]),
    ensures
        trim_back(s) == trim_back(s.take(e)),
    decreases s.len() - e,
{
    if e < s.len() {
        assert(is_space_char(s[s.len() - 1]));
        assert(s.drop_last() =~= s.take(s.len() - 1));
        lemma_trim_back_take(s.take(s.len() - 1), e);
        assert(s.take(s.len() - 1).take(e) =~= s.take(e));
    } else {
        assert(s.take(e) =~= s);
    }
}

/// Strips leading and trailing whitespace from one received line.
pub fn trim_line(s: &str) -> (r: String)
    ensures
        r@ == trimmed(s@),
{
    let n = s.unicode_len();
    let mut start: usize = 0;
    while start < n && is_space(s.get_char(start))
        invariant
            n == s@.len(),
            start <= n,
            forall|k: int| 0 <= k < start ==> is_space_char(#[trigger] s@[k]),
        decreases n - start,
    {
        start += 1;
    }
    if start == n {
        proof {
            lemma_trim_front_skip(s@, n as int);
            assert(s@.skip(n as int) =~= Seq::<char>::empty());
        }
        return String::new();
    }
    let mut end: usize = n;
    while end > start && is_space(s.get_char(end - 1))
        invariant
            n == s@.len(),
            start < n,
            !is_space_char(s@[start as int]),
            start <= end <= n,
            forall|k: int| end <= k < n ==> is_space_char(#[trigger] s@[k]),
        decreases end,
    {
        end -= 1;
    }
    proof {
        if end == start {
            assert(is_space_char(s@[start as int]));
        }
    }
    let t = s.substring_char(start, end);
    let r = t.to_owned();
    proof {
        let u = s@.skip(start as int);
        lemma_trim_front_skip(s@, start as int);
        assert(u[0] == s@[start as int]);
        assert(trim_front(u) == u);
        let e: int = end - start;
        assert forall|k: int| e <= k < u.len() implies is_space_char(#[trigger] u[k]) by {
            assert(u[k] == s@[start + k]);
        }
        lemma_trim_back_take(u, e);
        assert(u.take(e) =~= s@.subrange(start as int, end as int));
        assert(u.take(e)[e - 1] == s@[end - 1]);
        assert(!is_space_char(u.take(e)[e - 1]));
        assert(trim_back(u.take(e)) == u.take(e));
    }
    r
}

/// Whether `name` has an acceptable length.
pub fn name_length_ok(name: &str) -> (r: bool)
    ensures
        r == valid_name_len(name@.len()),
{
    let n = name.unicode_len();
    4 < n && n < 25
}

/// What one handshake line led to: admission under a fresh id, or the
/// session handed back to await another attempt.
pub enum HandshakeResult {
    Accepted(u64),
    Rejected(Session),
}

/// The value of the session as [`handshake_line`] admits it: named with the
/// trimmed line, acknowledged in its write buffer, active under `id`.
pub open spec fn admitted(m: SessionModel, t: Seq<char>, id: u64) -> SessionModel {
    SessionModel {
        id,
        name: t,
        read_buffer: m.read_buffer,
        write_buffer: m.write_buffer + success_text(),
        state: SessionState::Active,
    }
}

/// Handles one line received during a session's handshake. The trimmed line
/// is accepted as a name exactly when its length lies strictly between 4 and
/// 25: the session is then acknowledged, registered under the next unused
/// id, and a join notice becomes pending for every other session. Any other
/// line leaves the registry untouched; the retry prompt becomes pending for
/// the session and it awaits another attempt.
pub fn handshake_line(reg: &mut Registry, session: Session, line: &str) -> (r: HandshakeResult)
    requires
        old(reg).wf(),
        session@.state == SessionState::Handshaking,
        old(reg).next_id < u64::MAX,
    ensures
        final(reg).wf(),
        valid_name_len(trimmed(line@).len()) <==> (r matches HandshakeResult::Accepted(_)),
        (r matches HandshakeResult::Accepted(id) ==> {
            &&& id == old(reg).next_id
            &&& !has_session_id(old(reg).model(), id)
            &&& final(reg).next_id == id + 1
            &&& final(reg).model() == deliver_except(
                old(reg).model(),
                join_notice_text(trimmed(line@)),
                id,
            ).push(admitted(session@, trimmed(line@), id))
        }),
        (r matches HandshakeResult::Rejected(s2) ==> {
            &&& s2@ == with_delivery(session@, invalid_name_text())
            &&& s2@.state == SessionState::Handshaking
            &&& *final(reg) == *old(reg)
        }),
{
    let trimmed_name = trim_line(line);
    if name_length_ok(trimmed_name.as_str()) {
        let ghost m0 = reg.model();
        let ghost sm = session@;
        let name_copy = trimmed_name.clone();
        let mut s = session;
        let _renamed = s.set_name(trimmed_name);
        let ack = success_message();
        s.fill_write_buffer(ack.as_str());
        let id = reg.register(s);
        let notice = join_notice(name_copy.as_str());
        reg.broadcast(notice.as_str(), id);
        proof {
            let t = trimmed(line@);
            let m1 = m0.push(admitted(sm, t, id));
            assert(s@ =~= SessionModel {
                name: t,
                write_buffer: sm.write_buffer + success_text(),
                ..sm
            });
            assert(reg.model() =~= deliver_except(m1, join_notice_text(t), id));
            assert forall|i: int| 0 <= i < m0.len() implies (#[trigger] m1[i]) == m0[i]
                && m1[i].id != id by {}
            assert(reg.model() =~= deliver_except(m0, join_notice_text(t), id).push(
                admitted(sm, t, id),
            ));
        }
        HandshakeResult::Accepted(id)
    } else {
        let mut s = session;
        let prompt = invalid_name_prompt();
        s.fill_write_buffer(prompt.as_str());
        HandshakeResult::Rejected(s)
    }
}

} // verus!
