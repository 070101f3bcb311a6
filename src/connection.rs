//! One connection's state machine: it awaits a handshake, then dispatches
//! command frames into the activity store until it ends. The caller reads
//! frames from the stream, hands each to `on_frame`, performs the step that
//! comes back, and calls `close` when the stream ends or fails.
use vstd::prelude::*;
use vstd::utf8::*;

use crate::activity::{command_of, handshake_identity, parse_command, parse_handshake, ActivityView};
use crate::frame::{encode_frame, frame_bytes, FrameError, Message, MAX_PAYLOAD_LEN};
use crate::json::{json_of, JsonModel};
use crate::store::ActivityStore;

verus! {

/// The opcode of a handshake frame.
pub const OP_HANDSHAKE: u32 = 0;

/// The opcode of a command frame, in either direction.
pub const OP_DISPATCH: u32 = 1;

/// The payload of the acknowledgment sent after a handshake.
pub const READY_PAYLOAD: &'static str = "{\"cmd\":\"DISPATCH\",\"data\":{\"user\":{\"id\":\"1\"}},\"evt\":\"READY\"}";

/// Where a connection stands.
#[derive(Clone, Copy, Debug, PartialEq, Eq, Structural)]
pub enum Phase {
    AwaitingHandshake,
    Active,
    Terminated,
}

/// Why a connection ended with an error.
#[derive(Clone, Copy, Debug, PartialEq, Eq, Structural)]
pub enum ConnectionError {
    /// A frame could not be read or written.
    Frame(FrameError),
    /// The first frame was not a handshake.
    HandshakeNotReceived,
    /// A command frame's payload had the wrong shape.
    MalformedCommand,
}

/// What the caller does after a frame.
#[derive(Debug)]
pub enum Step {
    /// Send these bytes; the connection goes on.
    Reply(Vec<u8>),
    /// An activity was stored; the connection goes on.
    Stored,
    /// The frame was not acted on; the connection goes on.
    Ignored,
    /// The connection has ended, with this error.
    Close(ConnectionError),
}

pub ghost enum StepView {
    Reply(Seq<u8>),
    Stored,
    Ignored,
    Close(ConnectionError),
}

impl View for Step {
    type V = StepView;

    open spec fn view(&self) -> StepView {
        match self {
            Step::Reply(b) => StepView::Reply(b@),
            Step::Stored => StepView::Stored,
            Step::Ignored => StepView::Ignored,
            Step::Close(e) => StepView::Close(*e),
        }
    }
}

/// A connection as mathematics, together with the store it writes to.
pub ghost struct Session {
    pub phase: Phase,
    pub identity: Seq<char>,
    pub store: Map<Seq<char>, ActivityView>,
}

/// The bytes of the acknowledgment frame.
pub open spec fn ready_bytes() -> Seq<u8> {
    frame_bytes(OP_DISPATCH, encode_utf8(READY_PAYLOAD@))
}

/// A session after its connection ends: the identity's record leaves the
/// store if the handshake had been made.
pub open spec fn closed(s: Session) -> Session {
    Session {
        phase: Phase::Terminated,
        identity: s.identity,
        store: if s.phase == Phase::Active {
            s.store.remove(s.identity)
        } else {
            s.store
        },
    }
}

/// What one frame does to a session that has not ended, and the step that
/// the caller performs.
pub open spec fn on_frame_spec(s: Session, opcode: u32, payload: JsonModel) -> (Session, StepView) {
    if s.phase == Phase::AwaitingHandshake {
        if opcode == OP_HANDSHAKE {
            (
                Session { phase: Phase::Active, identity: handshake_identity(payload), store: s.store },
                StepView::Reply(ready_bytes()),
            )
        } else {
            (closed(s), StepView::Close(ConnectionError::HandshakeNotReceived))
        }
    } else if opcode == OP_DISPATCH {
        match command_of(payload) {
            None => (closed(s), StepView::Close(ConnectionError::MalformedCommand)),
            Some(c) => if c.cmd == "SET_ACTIVITY"@ {
                (
                    Session { store: s.store.insert(s.identity, c.activity), ..s },
                    StepView::Stored,
                )
            } else {
                (s, StepView::Ignored)
            },
        }
    } else {
        (s, StepView::Ignored)
    }
}

/// A connection whose first frame is not a handshake gets no reply, never
/// becomes active, and leaves the store as it was.
pub proof fn lemma_handshake_first(s: Session, opcode: u32, payload: JsonModel)
    requires
        s.phase == Phase::AwaitingHandshake,
        opcode != OP_HANDSHAKE,
    ensures
        on_frame_spec(s, opcode, payload).1 == StepView::Close(ConnectionError::HandshakeNotReceived),
        on_frame_spec(s, opcode, payload).0.phase == Phase::Terminated,
        on_frame_spec(s, opcode, payload).0.store == s.store,
{
}

/// Once a connection that made its handshake ends, whether the stream closed
/// or a frame ended it, the store holds no record for its identity.
pub proof fn lemma_removed_on_termination(s: Session, opcode: u32, payload: JsonModel)
    requires
        s.phase == Phase::Active,
    ensures
        !closed(s).store.contains_key(s.identity),
        on_frame_spec(s, opcode, payload).1 is Close ==> !on_frame_spec(
            s,
            opcode,
            payload,
        ).0.store.contains_key(s.identity),
        on_frame_spec(s, opcode, payload).1 is Close ==> on_frame_spec(s, opcode, payload).0.phase
            == Phase::Terminated,
{
}

/// A command other than `SET_ACTIVITY` leaves an active connection as it was,
/// and a `SET_ACTIVITY` that follows still stores its activity.
pub proof fn lemma_unknown_command_tolerated(s: Session, first: JsonModel, second: JsonModel)
    requires
        s.phase == Phase::Active,
        command_of(first) is Some,
        command_of(first)->Some_0.cmd != "SET_ACTIVITY"@,
        command_of(second) is Some,
        command_of(second)->Some_0.cmd == "SET_ACTIVITY"@,
    ensures
        on_frame_spec(s, OP_DISPATCH, first) == (s, StepView::Ignored),
        on_frame_spec(s, OP_DISPATCH, second) == (
            Session {
                store: s.store.insert(s.identity, command_of(second)->Some_0.activity),
                ..s
            },
            StepView::Stored,
        ),
{
}

/// The handshake alone is answered: an active connection never replies,
/// whatever frame it takes.
pub proof fn lemma_active_never_replies(s: Session, opcode: u32, payload: JsonModel)
    requires
        s.phase == Phase::Active,
    ensures
        !(on_frame_spec(s, opcode, payload).1 is Reply),
{
}

proof fn lemma_utf8_len_bound(cs: Seq<char>)
    ensures
        encode_utf8(cs).len() <= 4 * cs.len(),
    decreases cs.len(),
{
    if cs.len() > 0 {
        lemma_utf8_len_bound(cs.drop_first());
    }
}

/// The acknowledgment frame sent after a handshake.
pub fn ready_frame() -> (r: Vec<u8>)
    ensures
        r@ == ready_bytes(),
{
    proof {
        reveal_strlit("{\"cmd\":\"DISPATCH\",\"data\":{\"user\":{\"id\":\"1\"}},\"evt\":\"READY\"}");
        lemma_utf8_len_bound(READY_PAYLOAD@);
    }
    match encode_frame(OP_DISPATCH, READY_PAYLOAD) {
        Ok(bytes) => bytes,
        Err(_) => Vec::new(),
    }
}

/// One connection's state and the identity it declared.
#[derive(Debug)]
pub struct Connection {
    phase: Phase,
    identity: String,
}

impl Connection {
    pub closed spec fn phase_spec(&self) -> Phase {
        self.phase
    }

    pub closed spec fn identity_spec(&self) -> Seq<char> {
        self.identity@
    }

    /// This connection together with the store.
    pub open spec fn session(&self, store: Map<Seq<char>, ActivityView>) -> Session {
        Session { phase: self.phase_spec(), identity: self.identity_spec(), store }
    }

    /// A connection that awaits its handshake.
    pub fn new() -> (r: Connection)
        ensures
            r.phase_spec() == Phase::AwaitingHandshake,
            r.identity_spec() == Seq::<char>::empty(),
    {
        Connection { phase: Phase::AwaitingHandshake, identity: String::new() }
    }

    pub fn phase(&self) -> (r: Phase)
        ensures
            r == self.phase_spec(),
    {
        self.phase
    }

    /// The identity declared in the handshake (empty before it).
    pub fn identity(&self) -> (r: &String)
        ensures
            r@ == self.identity_spec(),
    {
        &self.identity
    }

    /// Ends the connection: its identity's record leaves the store if the
    /// handshake had been made. Ending an ended connection changes nothing.
    pub fn close(&mut self, store: &mut ActivityStore)
        requires
            old(store).wf(),
        ensures
            final(store).wf(),
            old(self).phase_spec() != Phase::Terminated ==> final(self).session(final(store)@)
                == closed(old(self).session(old(store)@)),
            old(self).phase_spec() == Phase::Terminated ==> final(self).session(final(store)@)
                == old(self).session(old(store)@),
    {
        if self.phase == Phase::Active {
            store.remove(&self.identity);
        }
        self.phase = Phase::Terminated;
    }

    /// Takes one frame of a connection that has not ended.
    pub fn on_frame(&mut self, store: &mut ActivityStore, message: &Message) -> (r: Step)
        requires
            old(self).phase_spec() != Phase::Terminated,
            old(store).wf(),
            old(store)@.dom().len() < usize::MAX,
        ensures
            final(store).wf(),
            (final(self).session(final(store)@), r@) == on_frame_spec(
                old(self).session(old(store)@),
                message.opcode,
                json_of(message.payload),
            ),
    {
        if self.phase == Phase::AwaitingHandshake {
            if message.opcode == OP_HANDSHAKE {
                self.identity = parse_handshake(&message.payload);
                self.phase = Phase::Active;
                Step::Reply(ready_frame())
            } else {
                self.close(store);
                Step::Close(ConnectionError::HandshakeNotReceived)
            }
        } else if message.opcode == OP_DISPATCH {
            match parse_command(&message.payload) {
                None => {
                    self.close(store);
                    Step::Close(ConnectionError::MalformedCommand)
                },
                Some(c) => {
                    let set_activity = "SET_ACTIVITY".to_owned();
                    if c.cmd == set_activity {
                        store.upsert(self.identity.clone(), c.activity);
                        Step::Stored
                    } else {
                        Step::Ignored
                    }
                },
            }
        } else {
            Step::Ignored
        }
    }
}

} // verus!
