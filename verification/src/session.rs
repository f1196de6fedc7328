//! One connection's outbound side: the opening handshake, the heartbeats that
//! follow it, and the queue from which a single writer takes the frames.
//!
//! The session decides; whoever runs it reads the socket, keeps the timer and
//! writes what the queue hands out.

use crate::json::{json_model, json_parsed, parse_value, JsonModel};
use crate::protocol::{
    greeting_of, heartbeat_model, lemma_heartbeat_frame, read_hello, OutboundFrame,
    OutboundFrameView, ProtocolError,
};
use crate::sequence_tracker::{last_received, SequenceTracker};
use vstd::prelude::*;

verus! {

/// How far the handshake has come.
#[derive(Debug, Clone, Copy, PartialEq, Eq, Structural)]
pub enum HandshakeState {
    /// Nothing was received yet.
    AwaitingHello,
    /// The greeting was accepted and the identify frame is queued.
    Identified,
    /// The heartbeat scheduler runs.
    Done,
}

/// The values of a sequence of frames, element by element.
pub open spec fn frame_views(frames: Seq<OutboundFrame>) -> Seq<OutboundFrameView> {
    Seq::new(frames.len(), |i: int| frames[i]@)
}

/// Whether a record of queued frames is one that a handshake allows: nothing
/// before the greeting; after it one identify frame, first, and only
/// heartbeats behind it, none of them before the scheduler was started.
pub open spec fn handshake_ordered(
    state: HandshakeState,
    submitted: Seq<OutboundFrameView>,
) -> bool {
    match state {
        HandshakeState::AwaitingHello => submitted.len() == 0,
        HandshakeState::Identified => submitted.len() == 1 && submitted[0] is Identify,
        HandshakeState::Done => {
            &&& submitted.len() >= 1
            &&& submitted[0] is Identify
            &&& forall|i: int| 1 <= i < submitted.len() ==> #[trigger] submitted[i] is Heartbeat
        },
    }
}

/// The outbound side of one connection.
pub struct Session {
    state: HandshakeState,
    heartbeat_interval: u64,
    closed: bool,
    outbound: Vec<OutboundFrame>,
    submitted: Ghost<Seq<OutboundFrameView>>,
}

impl Session {
    /// How far the handshake has come.
    pub closed spec fn state(&self) -> HandshakeState {
        self.state
    }

    /// The time between two heartbeats, in milliseconds, once the greeting
    /// has named it.
    pub closed spec fn interval(&self) -> u64 {
        self.heartbeat_interval
    }

    /// Whether the writer has gone and the queue takes no more frames.
    pub closed spec fn is_closed(&self) -> bool {
        self.closed
    }

    /// The frames that wait for the writer, oldest first.
    pub closed spec fn pending(&self) -> Seq<OutboundFrameView> {
        frame_views(self.outbound@)
    }

    /// Every frame that was ever queued, oldest first.
    pub closed spec fn submitted(&self) -> Seq<OutboundFrameView> {
        self.submitted@
    }

    /// What holds of every session: the waiting frames are the latest of
    /// those queued, in the same order, and what was queued follows the
    /// handshake.
    pub open spec fn wf(&self) -> bool {
        &&& self.pending().len() <= self.submitted().len()
        &&& self.pending() == self.submitted().skip(
            self.submitted().len() - self.pending().len(),
        )
        &&& handshake_ordered(self.state(), self.submitted())
    }

    /// A session on which nothing has happened yet.
    pub fn new() -> (session: Session)
        ensures
            session.wf(),
            session.state() == HandshakeState::AwaitingHello,
            session.interval() == 0,
            !session.is_closed(),
            session.pending().len() == 0,
            session.submitted().len() == 0,
    {
        let session = Session {
            state: HandshakeState::AwaitingHello,
            heartbeat_interval: 0,
            closed: false,
            outbound: Vec::new(),
            submitted: Ghost(Seq::empty()),
        };
        assert(session.pending() =~= session.submitted().skip(0));
        session
    }

    pub fn handshake_state(&self) -> (state: HandshakeState)
        ensures
            state == self.state(),
    {
        self.state
    }

    pub fn heartbeat_interval(&self) -> (milliseconds: u64)
        ensures
            milliseconds == self.interval(),
    {
        self.heartbeat_interval
    }

    pub fn closed(&self) -> (closed: bool)
        ensures
            closed == self.is_closed(),
    {
        self.closed
    }

    /// The number of frames that wait for the writer.
    pub fn pending_len(&self) -> (n: usize)
        ensures
            n == self.pending().len(),
    {
        self.outbound.len()
    }

    fn enqueue(&mut self, frame: OutboundFrame)
        requires
            old(self).pending().len() <= old(self).submitted().len(),
            old(self).pending() == old(self).submitted().skip(
                old(self).submitted().len() - old(self).pending().len(),
            ),
        ensures
            final(self).state() == old(self).state(),
            final(self).interval() == old(self).interval(),
            final(self).is_closed() == old(self).is_closed(),
            final(self).pending() == old(self).pending().push(frame@),
            final(self).submitted() == old(self).submitted().push(frame@),
            final(self).pending() == final(self).submitted().skip(
                final(self).submitted().len() - final(self).pending().len(),
            ),
    {
        let ghost pending = self.pending();
        let ghost submitted = self.submitted();
        self.submitted = Ghost(submitted.push(frame@));
        self.outbound.push(frame);
        assert(self.pending() =~= pending.push(frame@));
        assert(self.pending() =~= self.submitted().skip(
            self.submitted().len() - self.pending().len(),
        ));
    }

    /// The writer's step: takes the oldest waiting frame off the queue.
    /// Frames leave in the order in which they were queued.
    pub fn next_outbound(&mut self) -> (frame: Option<OutboundFrame>)
        requires
            old(self).wf(),
        ensures
            final(self).wf(),
            final(self).state() == old(self).state(),
            final(self).interval() == old(self).interval(),
            final(self).is_closed() == old(self).is_closed(),
            final(self).submitted() == old(self).submitted(),
            match frame {
                Some(taken) => old(self).pending().len() > 0 && taken@ == old(self).pending()[0]
                    && final(self).pending() == old(self).pending().skip(1),
                None => old(self).pending().len() == 0 && final(self).pending().len() == 0,
            },
    {
        if self.outbound.len() == 0 {
            return None;
        }
        let ghost pending = self.pending();
        let frame = self.outbound.remove(0);
        assert(self.pending() =~= pending.skip(1));
        assert(self.pending() =~= self.submitted().skip(
            self.submitted().len() - self.pending().len(),
        ));
        Some(frame)
    }

    /// Marks the queue as closed, as the writer does when a write has failed.
    /// What still waits stays; nothing more is queued.
    pub fn close(&mut self)
        requires
            old(self).wf(),
        ensures
            final(self).wf(),
            final(self).is_closed(),
            final(self).state() == old(self).state(),
            final(self).interval() == old(self).interval(),
            final(self).pending() == old(self).pending(),
            final(self).submitted() == old(self).submitted(),
    {
        self.closed = true;
    }
}

/// Queues the identify frame, the one frame of the handshake. It is queued
/// only on a session that still awaits the greeting and whose queue is open;
/// the result tells whether it was.
pub fn send_identity(session: &mut Session, authorization_token: &str, os: &str) -> (sent: bool)
    requires
        old(session).wf(),
    ensures
        final(session).wf(),
        sent == (old(session).state() == HandshakeState::AwaitingHello
            && !old(session).is_closed()),
        final(session).is_closed() == old(session).is_closed(),
        final(session).interval() == old(session).interval(),
        sent ==> final(session).state() == HandshakeState::Identified,
        sent ==> final(session).submitted() == seq![
            (OutboundFrameView::Identify { token: authorization_token@, os: os@ }),
        ],
        sent ==> final(session).pending() == final(session).submitted(),
        !sent ==> final(session).state() == old(session).state(),
        !sent ==> final(session).submitted() == old(session).submitted(),
        !sent ==> final(session).pending() == old(session).pending(),
{
    if session.closed {
        return false;
    }
    match session.state {
        HandshakeState::AwaitingHello => {},
        _ => {
            return false;
        },
    }
    let frame = OutboundFrame::Identify {
        token: authorization_token.to_owned(),
        os: os.to_owned(),
    };
    assert(session.pending() =~= Seq::empty());
    session.enqueue(frame);
    session.state = HandshakeState::Identified;
    assert(session.submitted() =~= seq![
        OutboundFrameView::Identify { token: authorization_token@, os: os@ },
    ]);
    assert(session.pending() =~= session.submitted());
    true
}

/// Starts the heartbeat scheduler: on a session that has identified itself it
/// completes the handshake and yields the time to wait between heartbeats, in
/// milliseconds. On any other session it changes nothing and yields none.
pub fn send_heartbeats(session: &mut Session) -> (interval: Option<u64>)
    requires
        old(session).wf(),
    ensures
        final(session).wf(),
        final(session).is_closed() == old(session).is_closed(),
        final(session).interval() == old(session).interval(),
        final(session).submitted() == old(session).submitted(),
        final(session).pending() == old(session).pending(),
        interval == (if old(session).state() == HandshakeState::Identified {
            Some(old(session).interval())
        } else {
            None
        }),
        final(session).state() == (if old(session).state() == HandshakeState::Identified {
            HandshakeState::Done
        } else {
            old(session).state()
        }),
{
    match session.state {
        HandshakeState::Identified => {
            session.state = HandshakeState::Done;
            Some(session.heartbeat_interval)
        },
        _ => None,
    }
}

/// The scheduler's step: queues one heartbeat that carries what the tracker
/// holds now, or `null` where it has not seen a sequence value yet. Nothing
/// is queued before the scheduler was started or once the queue is closed;
/// the result tells the scheduler whether to go on.
pub fn send_heartbeat(session: &mut Session, sequence_tracker: &SequenceTracker) -> (sent: bool)
    requires
        old(session).wf(),
    ensures
        final(session).wf(),
        sent == (old(session).state() == HandshakeState::Done && !old(session).is_closed()),
        final(session).state() == old(session).state(),
        final(session).is_closed() == old(session).is_closed(),
        final(session).interval() == old(session).interval(),
        sent ==> final(session).submitted() == old(session).submitted().push(
            (OutboundFrameView::Heartbeat { sequence: last_received(sequence_tracker@) }),
        ),
        sent ==> final(session).pending() == old(session).pending().push(
            (OutboundFrameView::Heartbeat { sequence: last_received(sequence_tracker@) }),
        ),
        !sent ==> final(session).submitted() == old(session).submitted(),
        !sent ==> final(session).pending() == old(session).pending(),
{
    if session.closed {
        return false;
    }
    match session.state {
        HandshakeState::Done => {},
        _ => {
            return false;
        },
    }
    session.enqueue(OutboundFrame::Heartbeat { sequence: sequence_tracker.last() });
    true
}

/// Why a handshake did not take place.
#[derive(Debug, Clone, Copy, PartialEq, Eq, Structural)]
pub enum HandshakeError {
    /// The session does not await a greeting: its handshake was made before.
    NotAwaitingHello,
    /// The first frame was refused.
    Protocol(ProtocolError),
    /// The identify frame could not be queued: the writer has gone.
    QueueClosed,
}

impl HandshakeError {
    /// The error in words.
    pub fn message(&self) -> (text: &'static str)
        ensures
            text@ == match *self {
                HandshakeError::NotAwaitingHello => "handshake already made"@,
                HandshakeError::Protocol(error) => match error {
                    ProtocolError::UnexpectedOpcode => "unexpected opening opcode"@,
                    ProtocolError::MissingHeartbeatInterval =>
                        "hello frame without heartbeat interval"@,
                },
                HandshakeError::QueueClosed => "outbound queue closed"@,
            },
    {
        match self {
            HandshakeError::NotAwaitingHello => "handshake already made",
            HandshakeError::Protocol(error) => error.message(),
            HandshakeError::QueueClosed => "outbound queue closed",
        }
    }
}

/// What a first frame amounts to, as parsed or `None` where it could not be:
/// a frame that cannot be read carries no greeting.
pub open spec fn handshake_of(first_frame: Option<JsonModel>) -> Result<u64, ProtocolError> {
    match first_frame {
        Some(frame) => greeting_of(frame),
        None => Err(ProtocolError::UnexpectedOpcode),
    }
}

/// How a handshake ends, given the session's state, whether its queue is
/// closed, and what the first frame amounts to: with the time between
/// heartbeats in milliseconds, or with the first reason that applies.
pub open spec fn handshake_outcome(
    state: HandshakeState,
    closed: bool,
    greeting: Result<u64, ProtocolError>,
) -> Result<u64, HandshakeError> {
    if state != HandshakeState::AwaitingHello {
        Err(HandshakeError::NotAwaitingHello)
    } else {
        match greeting {
            Err(error) => Err(HandshakeError::Protocol(error)),
            Ok(interval) => if closed {
                Err(HandshakeError::QueueClosed)
            } else {
                Ok(interval)
            },
        }
    }
}

/// The first step of the handshake, on a first frame that is already parsed:
/// accepts a greeting, notes the time between heartbeats that it names and
/// queues the identify frame. Where the handshake fails the session stays as
/// it was.
pub fn greet(
    session: &mut Session,
    first_frame: &serde_json::Value,
    authorization_token: &str,
    os: &str,
) -> (outcome: Result<u64, HandshakeError>)
    requires
        old(session).wf(),
    ensures
        final(session).wf(),
        outcome == handshake_outcome(
            old(session).state(),
            old(session).is_closed(),
            greeting_of(json_model(*first_frame)),
        ),
        final(session).is_closed() == old(session).is_closed(),
        match outcome {
            Ok(interval) => {
                &&& final(session).state() == HandshakeState::Identified
                &&& final(session).interval() == interval
                &&& final(session).submitted() == seq![
                    (OutboundFrameView::Identify { token: authorization_token@, os: os@ }),
                ]
                &&& final(session).pending() == final(session).submitted()
            },
            Err(_) => {
                &&& final(session).state() == old(session).state()
                &&& final(session).interval() == old(session).interval()
                &&& final(session).submitted() == old(session).submitted()
                &&& final(session).pending() == old(session).pending()
            },
        },
{
    match session.state {
        HandshakeState::AwaitingHello => {},
        _ => {
            return Err(HandshakeError::NotAwaitingHello);
        },
    }
    match read_hello(first_frame) {
        Ok(interval) => {
            if session.closed {
                return Err(HandshakeError::QueueClosed);
            }
            session.heartbeat_interval = interval;
            let sent = send_identity(session, authorization_token, os);
            assert(sent);
            Ok(interval)
        },
        Err(error) => Err(HandshakeError::Protocol(error)),
    }
}

/// The handshake: reads the first frame of a connection, accepts a greeting,
/// queues the identify frame and then starts the heartbeat scheduler with the
/// time the greeting names, which it yields. A frame that cannot be read or
/// is no greeting, or a greeting without that time, fails the handshake, and
/// so does a queue that is closed or a session whose handshake was made
/// before; the session then stays as it was.
pub fn handle_connection(
    session: &mut Session,
    first_frame: &str,
    authorization_token: &str,
    os: &str,
) -> (outcome: Result<u64, HandshakeError>)
    requires
        old(session).wf(),
    ensures
        final(session).wf(),
        outcome == handshake_outcome(
            old(session).state(),
            old(session).is_closed(),
            handshake_of(json_parsed(first_frame@)),
        ),
        final(session).is_closed() == old(session).is_closed(),
        match outcome {
            Ok(interval) => {
                &&& final(session).state() == HandshakeState::Done
                &&& final(session).interval() == interval
                &&& final(session).submitted() == seq![
                    (OutboundFrameView::Identify { token: authorization_token@, os: os@ }),
                ]
                &&& final(session).pending() == final(session).submitted()
            },
            Err(_) => {
                &&& final(session).state() == old(session).state()
                &&& final(session).interval() == old(session).interval()
                &&& final(session).submitted() == old(session).submitted()
                &&& final(session).pending() == old(session).pending()
            },
        },
{
    match parse_value(first_frame) {
        Some(frame) => match greet(session, &frame, authorization_token, os) {
            Ok(interval) => {
                let started = send_heartbeats(session);
                assert(started == Some(interval));
                Ok(interval)
            },
            Err(error) => Err(error),
        },
        None => {
            match session.state {
                HandshakeState::AwaitingHello => Err(
                    HandshakeError::Protocol(ProtocolError::UnexpectedOpcode),
                ),
                _ => Err(HandshakeError::NotAwaitingHello),
            }
        },
    }
}

/// In every session the identify frame is the first frame queued and the only
/// one of its kind: whatever stands behind it is a heartbeat.
pub proof fn lemma_identify_comes_first(session: Session, i: int)
    requires
        session.wf(),
        0 <= i < session.submitted().len(),
    ensures
        session.submitted()[i] is Identify <==> i == 0,
        session.submitted()[i] is Heartbeat <==> i > 0,
{
}

/// A heartbeat carries what the tracker holds when the heartbeat is made: the
/// highest sequence value received so far. (Before any was received it
/// carries `null`.)
pub proof fn lemma_heartbeat_carries_sequence(held: u64)
    requires
        held > 0,
    ensures
        heartbeat_model(last_received(held)).unsigned_of("d"@) == Some(held),
{
    lemma_heartbeat_frame(last_received(held));
}

/// The writer sees the frames in the order in which they were queued: a frame
/// that waits behind another was queued after it.
pub proof fn lemma_queue_keeps_order(session: Session, i: int)
    requires
        session.wf(),
        0 <= i < session.pending().len(),
    ensures
        session.pending()[i] == session.submitted()[session.submitted().len()
            - session.pending().len() + i],
{
}

} // verus!
