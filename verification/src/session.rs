//! One client's live connection: its identity, its lifecycle state, and the
//! buffers that hold text read from and text pending for its transport.

use vstd::prelude::*;

verus! {

/// The lifecycle of one connection: it connects, names itself during the
/// handshake, chats while active, and is closed on disconnect.
#[derive(PartialEq, Eq, Structural, Clone, Copy, Debug)]
pub enum SessionState {
    Connecting,
    Handshaking,
    Active,
    Closed,
}

/// The mathematical value of a [`Session`]: every field as a plain value,
/// with the buffers as character sequences.
#[verifier::ext_equal]
pub struct SessionModel {
    pub id: u64,
    pub name: Seq<char>,
    pub read_buffer: Seq<char>,
    pub write_buffer: Seq<char>,
    pub state: SessionState,
}

/// `m` with `msg` appended to its write buffer: the effect of one delivery.
pub open spec fn with_delivery(m: SessionModel, msg: Seq<char>) -> SessionModel {
    SessionModel { write_buffer: m.write_buffer + msg, ..m }
}

/// `m` with both buffers emptied: the state after a worker has handled one line.
pub open spec fn with_buffers_cleared(m: SessionModel) -> SessionModel {
    SessionModel { read_buffer: Seq::empty(), write_buffer: Seq::empty(), ..m }
}

/// `m` admitted to the registry under `id`: named, numbered and active.
pub open spec fn activated(m: SessionModel, id: u64) -> SessionModel {
    SessionModel { id, state: SessionState::Active, ..m }
}

/// One client's connection: its assigned id, display name, buffered inbound
/// and outbound text, and lifecycle state. The raw transport itself is an
/// outside collaborator; callers move text between it and these buffers.
pub struct Session {
    pub id: u64,
    pub name: String,
    pub read_buffer: String,
    pub write_buffer: String,
    pub state: SessionState,
}

impl View for Session {
    type V = SessionModel;

    open spec fn view(&self) -> SessionModel {
        SessionModel {
            id: self.id,
            name: self.name@,
            read_buffer: self.read_buffer@,
            write_buffer: self.write_buffer@,
            state: self.state,
        }
    }
}

impl Session {
    /// A fresh, unnamed session that has just connected.
    pub fn new() -> (s: Session)
        ensures
            s@ == (SessionModel {
                id: 0,
                name: Seq::empty(),
                read_buffer: Seq::empty(),
                write_buffer: Seq::empty(),
                state: SessionState::Connecting,
            }),
    {
        let s = Session {
            id: 0,
            name: String::new(),
            read_buffer: String::new(),
            write_buffer: String::new(),
            state: SessionState::Connecting,
        };
        proof {
            assert(s@ =~= SessionModel {
                id: 0,
                name: Seq::empty(),
                read_buffer: Seq::empty(),
                write_buffer: Seq::empty(),
                state: SessionState::Connecting,
            });
        }
        s
    }

    /// Appends outbound text; it stays pending until the buffer is flushed.
    pub fn fill_write_buffer(&mut self, text: &str)
        ensures
            final(self)@ == with_delivery(old(self)@, text@),
    {
        self.write_buffer.append(text);
        proof {
            assert(final(self)@ =~= with_delivery(old(self)@, text@));
        }
    }

    /// Yields everything pending for the transport and empties the buffer.
    /// The caller hands the result to the transport; a failed transport write
    /// is a disconnect and is handled like one.
    pub fn flush_write_buffer(&mut self) -> (pending: String)
        ensures
            pending@ == old(self)@.write_buffer,
            final(self)@ == (SessionModel { write_buffer: Seq::empty(), ..old(self)@ }),
    {
        let pending = self.write_buffer.clone();
        self.write_buffer = String::new();
        proof {
            assert(final(self)@ =~= SessionModel { write_buffer: Seq::empty(), ..old(self)@ });
        }
        pending
    }

    /// Appends one inbound chunk, kept until the worker consumes it.
    pub fn store_read_chunk(&mut self, chunk: &str)
        ensures
            final(self)@ == (SessionModel {
                read_buffer: old(self)@.read_buffer + chunk@,
                ..old(self)@
            }),
    {
        self.read_buffer.append(chunk);
        proof {
            assert(final(self)@ =~= SessionModel {
                read_buffer: old(self)@.read_buffer + chunk@,
                ..old(self)@
            });
        }
    }

    /// Discards buffered inbound text once it has been consumed.
    pub fn clear_read_buffer(&mut self)
        ensures
            final(self)@ == (SessionModel { read_buffer: Seq::empty(), ..old(self)@ }),
    {
        self.read_buffer = String::new();
        proof {
            assert(final(self)@ =~= SessionModel { read_buffer: Seq::empty(), ..old(self)@ });
        }
    }

    /// One-time name assignment: succeeds exactly when the session is still
    /// in its handshake; any later (or earlier) attempt changes nothing.
    pub fn set_name(&mut self, name: String) -> (ok: bool)
        ensures
            ok == (old(self)@.state == SessionState::Handshaking),
            ok ==> final(self)@ == (SessionModel { name: name@, ..old(self)@ }),
            !ok ==> *final(self) == *old(self),
    {
        if self.state == SessionState::Handshaking {
            self.name = name;
            proof {
                assert(final(self)@ =~= SessionModel { name: name@, ..old(self)@ });
            }
            true
        } else {
            false
        }
    }

    /// Starts the naming exchange: the greeting prompt becomes pending and
    /// the session waits for a name.
    pub fn begin_handshake(&mut self)
        requires
            old(self)@.state == SessionState::Connecting,
        ensures
            final(self)@ == (SessionModel {
                state: SessionState::Handshaking,
                write_buffer: old(self)@.write_buffer + crate::messages::greeting_text(),
                ..old(self)@
            }),
    {
        let prompt = crate::messages::greeting();
        self.write_buffer.append(prompt.as_str());
        self.state = SessionState::Handshaking;
        proof {
            assert(final(self)@ =~= SessionModel {
                state: SessionState::Handshaking,
                write_buffer: old(self)@.write_buffer + crate::messages::greeting_text(),
                ..old(self)@
            });
        }
    }

    /// Empties both buffers at once, as the worker does after it has
    /// handled one line.
    pub fn clear_buffers(&mut self)
        ensures
            final(self)@ == with_buffers_cleared(old(self)@),
    {
        self.read_buffer = String::new();
        self.write_buffer = String::new();
        proof {
            assert(final(self)@ =~= with_buffers_cleared(old(self)@));
        }
    }

    /// Records that the transport failed; a closed session is never
    /// registered and is reaped by its worker.
    pub fn mark_closed(&mut self)
        ensures
            final(self)@ == (SessionModel { state: SessionState::Closed, ..old(self)@ }),
    {
        self.state = SessionState::Closed;
        proof {
            assert(final(self)@ =~= SessionModel { state: SessionState::Closed, ..old(self)@ });
        }
    }
}

} // verus!
