//! One client connection that carries messages: its two buffers, and the
//! state machine that says what to do next with its socket, the codec and
//! the handlers.

use crate::server::buffer::{
    lemma_discard_shifts, lemma_resync_progress, resync_point, zeros, Buffer, BufferView,
};
use crate::server::connection_state::{
    ConnectionState, ConnectionStateView, StreamMode, MAX_MESSAGE_LENGTH,
};
use crate::server::message::ParseOutcome;
use vstd::prelude::*;

verus! {

/// The size of the receive buffer and of the send buffer, in bytes.
pub const BUFFER_SIZE: usize = 2048;

/// The room that the send buffer has before a handler is called: enough for
/// the longest answer.
pub const REPLY_ROOM: usize = MAX_MESSAGE_LENGTH;

/// What a read from the socket, or a write to it, came to.
#[derive(PartialEq, Eq, Structural, Clone, Copy, Debug)]
pub enum Transfer {
    /// This many bytes were moved.
    Done(usize),
    /// The socket would block.
    NotReady,
    /// A failure that ends the connection.
    Failed,
}

/// How a poll of a connection ends.
#[derive(PartialEq, Eq, Structural, Clone, Copy, Debug)]
pub enum Finish {
    /// Nothing more can be done before the socket is ready again.
    NotReady,
    /// The client closed the connection; `truncated` tells whether it left
    /// the start of a message behind.
    Closed { truncated: bool },
    /// The connection failed and is to be closed.
    Failed,
}

/// What happened outside since the last step.
#[derive(PartialEq, Eq, Structural, Clone, Copy, Debug)]
pub enum Event {
    /// The connection is polled, or is to go on after `Resynced` or
    /// `Output`.
    Polled,
    /// The codec has looked at the unparsed bytes.
    Parsed(ParseOutcome),
    /// The unsent bytes were offered to the socket, to make room before the
    /// message of `consumed` bytes is handled.
    Drained { consumed: usize, sent: Transfer },
    /// The handlers have seen the message of `consumed` bytes, and have
    /// written an answer of `reply` bytes into the reply room, or none.
    Dispatched { consumed: usize, reply: Option<usize> },
    /// The refusal of the message of `consumed` bytes was written into the
    /// reply room, in `reply` bytes, or did not fit.
    Refused { consumed: usize, reply: Option<usize> },
    /// The socket was read into the receive room.
    Received(Transfer),
    /// The unsent bytes were offered to the socket.
    Flushed(Transfer),
}

/// What to do next.
#[derive(PartialEq, Eq, Debug)]
pub enum Step {
    /// Let the codec look at the unparsed bytes.
    Parse,
    /// Offer the unsent bytes to the socket.
    Drain { consumed: usize },
    /// Hand the message at the front of the unparsed bytes to the handlers,
    /// with the reply room for their answer.
    Dispatch { consumed: usize },
    /// Write the refusal into the reply room.
    Nope { consumed: usize },
    /// These bytes were dropped as unreadable. Report them, then go on.
    Resynced { dropped: Vec<u8> },
    /// Read from the socket into the receive room.
    Read,
    /// These bytes are output of a client whose standard streams the
    /// connection carries. Show them, then go on.
    Output { bytes: Vec<u8> },
    /// Offer the unsent bytes to the socket, so that the task wakes when it
    /// can take more.
    Flush,
    /// The poll is over.
    Finished(Finish),
}

/// A `Step` as a value.
pub enum StepView {
    Parse,
    Drain { consumed: usize },
    Dispatch { consumed: usize },
    Nope { consumed: usize },
    Resynced { dropped: Seq<u8> },
    Read,
    Output { bytes: Seq<u8> },
    Flush,
    Finished(Finish),
}

impl View for Step {
    type V = StepView;

    open spec fn view(&self) -> StepView {
        match self {
            Step::Parse => StepView::Parse,
            Step::Drain { consumed } => StepView::Drain { consumed: *consumed },
            Step::Dispatch { consumed } => StepView::Dispatch { consumed: *consumed },
            Step::Nope { consumed } => StepView::Nope { consumed: *consumed },
            Step::Resynced { dropped } => StepView::Resynced { dropped: dropped@ },
            Step::Read => StepView::Read,
            Step::Output { bytes } => StepView::Output { bytes: bytes@ },
            Step::Flush => StepView::Flush,
            Step::Finished(finish) => StepView::Finished(*finish),
        }
    }
}

/// A connection as a value.
pub struct ConnectionView {
    pub state: ConnectionStateView,
    pub recv: BufferView,
    pub send: BufferView,
}

impl ConnectionView {
    pub open spec fn wf(self) -> bool {
        &&& self.recv.wf()
        &&& self.send.wf()
        &&& self.recv.bytes.len() == BUFFER_SIZE
        &&& self.send.bytes.len() == BUFFER_SIZE
    }

    /// Whether `event` can have happened: no more bytes were moved or used
    /// than there were, and the codec found neither a message nor a fault in
    /// no bytes at all.
    pub open spec fn admits(self, event: Event) -> bool {
        match event {
            Event::Polled => true,
            Event::Parsed(outcome) => match outcome {
                ParseOutcome::Message { consumed } => 0 < consumed <= self.recv.fill,
                ParseOutcome::UnexpectedEof => true,
                ParseOutcome::Malformed => self.recv.fill > 0,
            },
            Event::Drained { consumed, sent } => {
                &&& consumed <= self.recv.fill
                &&& sent matches Transfer::Done(count) ==> count <= self.send.fill
            },
            Event::Dispatched { consumed, reply } => {
                &&& consumed <= self.recv.fill
                &&& reply matches Some(count) ==> count <= self.send.bytes.len() - self.send.fill
            },
            Event::Refused { consumed, reply } => {
                &&& consumed <= self.recv.fill
                &&& reply matches Some(count) ==> count <= self.send.bytes.len() - self.send.fill
            },
            Event::Received(read) => read matches Transfer::Done(count) ==> count
                <= self.recv.bytes.len() - self.recv.fill,
            Event::Flushed(sent) => sent matches Transfer::Done(count) ==> count <= self.send.fill,
        }
    }

    /// Goes on with what was received. While the connection carries
    /// messages, the codec looks at it. Once it carries a client's standard
    /// streams, all of it is output, and without any the socket is read.
    pub open spec fn resume(self) -> (ConnectionView, StepView) {
        match self.state.stream_mode {
            StreamMode::Message => (self, StepView::Parse),
            StreamMode::Stdio => if self.recv.fill > 0 {
                (
                    ConnectionView { recv: self.recv.discard(self.recv.fill), ..self },
                    StepView::Output { bytes: self.recv.filled() },
                )
            } else {
                (self, StepView::Read)
            },
        }
    }

    /// Drops the message of `consumed` bytes, which has its answer, and goes
    /// on.
    pub open spec fn settle(self, consumed: int) -> (ConnectionView, StepView) {
        (ConnectionView { recv: self.recv.discard(consumed), ..self }).resume()
    }

    /// Before a message is handled: the handlers are called once the send
    /// buffer has room for the longest answer, and until then it is drained.
    pub open spec fn make_room(self, consumed: usize) -> StepView {
        if self.send.bytes.len() - self.send.fill < REPLY_ROOM {
            StepView::Drain { consumed }
        } else {
            StepView::Dispatch { consumed }
        }
    }

    /// Gets past bytes that are no message.
    pub open spec fn resync(self) -> (ConnectionView, StepView) {
        (
            ConnectionView {
                recv: self.recv.discard(resync_point(self.recv.filled())),
                ..self
            },
            StepView::Resynced {
                dropped: self.recv.filled().subrange(0, resync_point(self.recv.filled())),
            },
        )
    }

    /// The connection and the next step after `event`.
    pub open spec fn step(self, event: Event) -> (ConnectionView, StepView) {
        match event {
            Event::Polled => self.resume(),
            Event::Parsed(outcome) => match outcome {
                ParseOutcome::Message { consumed } => (self, self.make_room(consumed)),
                ParseOutcome::UnexpectedEof => if self.recv.bytes.len() - self.recv.fill > 0 {
                    (self, StepView::Read)
                } else {
                    self.resync()
                },
                ParseOutcome::Malformed => self.resync(),
            },
            Event::Drained { consumed, sent } => match sent {
                Transfer::Done(count) => {
                    let drained = ConnectionView { send: self.send.discard(count as int), ..self };
                    if count == 0 {
                        (drained, StepView::Finished(Finish::NotReady))
                    } else {
                        (drained, drained.make_room(consumed))
                    }
                },
                Transfer::NotReady => (self, StepView::Finished(Finish::NotReady)),
                Transfer::Failed => (self, StepView::Finished(Finish::Failed)),
            },
            Event::Dispatched { consumed, reply } => match reply {
                Some(count) => (ConnectionView {
                    send: self.send.advance(count as int),
                    ..self
                }).settle(consumed as int),
                None => (self, StepView::Nope { consumed }),
            },
            Event::Refused { consumed, reply } => match reply {
                Some(count) => (ConnectionView {
                    send: self.send.advance(count as int),
                    ..self
                }).settle(consumed as int),
                None => self.settle(consumed as int),
            },
            Event::Received(read) => match read {
                Transfer::Done(count) => if count == 0 {
                    (self, StepView::Finished(Finish::Closed { truncated: self.recv.fill > 0 }))
                } else {
                    (ConnectionView { recv: self.recv.advance(count as int), ..self }).resume()
                },
                Transfer::NotReady => if self.send.fill > 0 {
                    (self, StepView::Flush)
                } else {
                    (self, StepView::Finished(Finish::NotReady))
                },
                Transfer::Failed => (self, StepView::Finished(Finish::Failed)),
            },
            Event::Flushed(sent) => match sent {
                Transfer::Done(count) => (
                    ConnectionView { send: self.send.discard(count as int), ..self },
                    StepView::Finished(Finish::NotReady),
                ),
                Transfer::NotReady => (self, StepView::Finished(Finish::NotReady)),
                Transfer::Failed => (self, StepView::Finished(Finish::Failed)),
            },
        }
    }
}

/// Whatever happens, the buffers keep their size and are filled no further
/// than that, and the state is left to the handlers. The handlers are only
/// called with room for the longest answer, and the codec is only asked
/// while the connection carries messages. Getting past unreadable bytes
/// shortens what is left of them.
pub proof fn lemma_step(connection: ConnectionView, event: Event)
    requires
        connection.wf(),
        connection.admits(event),
    ensures
        connection.step(event).0.wf(),
        connection.step(event).0.state == connection.state,
        connection.step(event).1 is Dispatch ==> connection.step(event).0.send.bytes.len()
            - connection.step(event).0.send.fill >= REPLY_ROOM,
        connection.step(event).1 is Parse ==> connection.state.stream_mode is Message,
        connection.step(event).1 matches StepView::Resynced { dropped } ==> dropped.len() > 0
            && connection.step(event).0.recv.fill == connection.recv.fill - dropped.len(),
{
    lemma_resync_progress(connection.recv.filled());
}

/// A client connection that carries messages.
pub struct Connection {
    state: ConnectionState,
    recv: Buffer,
    send: Buffer,
}

impl View for Connection {
    type V = ConnectionView;

    closed spec fn view(&self) -> ConnectionView {
        ConnectionView { state: self.state@, recv: self.recv@, send: self.send@ }
    }
}

impl Connection {
    /// Both buffers have their size, and are filled no further than that.
    pub open spec fn wf(&self) -> bool {
        self@.wf()
    }

    /// A connection that was just accepted: it carries messages, and its
    /// buffers are empty.
    pub open spec fn new_view(id: u32) -> ConnectionView {
        ConnectionView {
            state: ConnectionState::new_view(id),
            recv: BufferView { bytes: zeros(BUFFER_SIZE as int), fill: 0 },
            send: BufferView { bytes: zeros(BUFFER_SIZE as int), fill: 0 },
        }
    }

    /// The connection with number `id`, with empty buffers.
    pub fn new(id: u32) -> (connection: Connection)
        ensures
            connection.wf(),
            connection@ == Connection::new_view(id),
    {
        Connection {
            state: ConnectionState::new(id),
            recv: Buffer::new(BUFFER_SIZE),
            send: Buffer::new(BUFFER_SIZE),
        }
    }

    pub fn id(&self) -> (id: u32)
        ensures
            id == self@.state.id,
    {
        self.state.id()
    }

    pub fn state(&self) -> (state: &ConnectionState)
        ensures
            state@ == self@.state,
    {
        &self.state
    }

    /// The state, for the handlers to change.
    pub fn state_mut(&mut self) -> (state: &mut ConnectionState)
        ensures
            state@ == old(self)@.state,
            final(self)@ == (ConnectionView { state: final(state)@, ..old(self)@ }),
    {
        &mut self.state
    }

    /// The bytes that were received and not yet read as messages.
    pub fn unparsed(&self) -> (bytes: &[u8])
        requires
            self.wf(),
        ensures
            bytes@ == self@.recv.filled(),
    {
        self.recv.filled()
    }

    /// The room of the receive buffer, for the socket to be read into.
    pub fn receive_room(&mut self) -> (room: &mut [u8])
        requires
            old(self).wf(),
        ensures
            room@ == old(self)@.recv.unfilled(),
            final(room)@.len() == room@.len(),
            final(self)@ == (ConnectionView {
                recv: BufferView {
                    bytes: old(self)@.recv.filled() + final(room)@,
                    fill: old(self)@.recv.fill,
                },
                ..old(self)@
            }),
    {
        self.recv.unfilled_mut()
    }

    /// The bytes that wait to be sent.
    pub fn unsent(&self) -> (bytes: &[u8])
        requires
            self.wf(),
        ensures
            bytes@ == self@.send.filled(),
    {
        self.send.filled()
    }

    /// The room of the send buffer, for an answer to be written into.
    pub fn reply_room(&mut self) -> (room: &mut [u8])
        requires
            old(self).wf(),
        ensures
            room@ == old(self)@.send.unfilled(),
            final(room)@.len() == room@.len(),
            final(self)@ == (ConnectionView {
                send: BufferView {
                    bytes: old(self)@.send.filled() + final(room)@,
                    fill: old(self)@.send.fill,
                },
                ..old(self)@
            }),
    {
        self.send.unfilled_mut()
    }

    /// What the handlers work with, all at once: the unparsed bytes, at
    /// whose front the message stands, the state, and the reply room.
    pub fn handler_parts(&mut self) -> (parts: (&[u8], &mut ConnectionState, &mut [u8]))
        requires
            old(self).wf(),
        ensures
            parts.0@ == old(self)@.recv.filled(),
            parts.1@ == old(self)@.state,
            parts.2@ == old(self)@.send.unfilled(),
            final(parts.2)@.len() == parts.2@.len(),
            final(self)@ == (ConnectionView {
                state: final(parts.1)@,
                recv: old(self)@.recv,
                send: BufferView {
                    bytes: old(self)@.send.filled() + final(parts.2)@,
                    fill: old(self)@.send.fill,
                },
            }),
    {
        (self.recv.filled(), &mut self.state, self.send.unfilled_mut())
    }

    /// Whether `event` can have happened. `step` takes no other.
    pub fn admits(&self, event: Event) -> (admitted: bool)
        requires
            self.wf(),
        ensures
            admitted == self@.admits(event),
    {
        match event {
            Event::Polled => true,
            Event::Parsed(outcome) => match outcome {
                ParseOutcome::Message { consumed } => {
                    0 < consumed && consumed <= self.recv.filled_len()
                },
                ParseOutcome::UnexpectedEof => true,
                ParseOutcome::Malformed => self.recv.filled_len() > 0,
            },
            Event::Drained { consumed, sent } => {
                consumed <= self.recv.filled_len() && match sent {
                    Transfer::Done(count) => count <= self.send.filled_len(),
                    _ => true,
                }
            },
            Event::Dispatched { consumed, reply } | Event::Refused { consumed, reply } => {
                consumed <= self.recv.filled_len() && match reply {
                    Some(count) => count <= self.send.unfilled_len(),
                    None => true,
                }
            },
            Event::Received(read) => match read {
                Transfer::Done(count) => count <= self.recv.unfilled_len(),
                _ => true,
            },
            Event::Flushed(sent) => match sent {
                Transfer::Done(count) => count <= self.send.filled_len(),
                _ => true,
            },
        }
    }

    /// Takes what happened and says what to do next. A poll starts with
    /// `Polled` and goes on, each step answered by its event, until a step
    /// is `Finished`.
    pub fn step(&mut self, event: Event) -> (step: Step)
        requires
            old(self).wf(),
            old(self)@.admits(event),
        ensures
            final(self).wf(),
            (final(self)@, step@) == old(self)@.step(event),
            final(self)@.state == old(self)@.state,
            step is Dispatch ==> final(self)@.send.bytes.len() - final(self)@.send.fill
                >= REPLY_ROOM,
            step is Parse ==> final(self)@.state.stream_mode is Message,
            step matches Step::Resynced { dropped } ==> dropped@.len() > 0,
    {
        match event {
            Event::Polled => self.resume(),
            Event::Parsed(outcome) => match outcome {
                ParseOutcome::Message { consumed } => self.make_room(consumed),
                ParseOutcome::UnexpectedEof => if self.recv.unfilled_len() > 0 {
                    Step::Read
                } else {
                    Step::Resynced { dropped: self.recv.resync() }
                },
                ParseOutcome::Malformed => Step::Resynced { dropped: self.recv.resync() },
            },
            Event::Drained { consumed, sent } => match sent {
                Transfer::Done(count) => {
                    self.send.discard(count);
                    if count == 0 {
                        Step::Finished(Finish::NotReady)
                    } else {
                        self.make_room(consumed)
                    }
                },
                Transfer::NotReady => Step::Finished(Finish::NotReady),
                Transfer::Failed => Step::Finished(Finish::Failed),
            },
            Event::Dispatched { consumed, reply } => match reply {
                Some(count) => {
                    self.send.advance(count);
                    self.settle(consumed)
                },
                None => Step::Nope { consumed },
            },
            Event::Refused { consumed, reply } => {
                if let Some(count) = reply {
                    self.send.advance(count);
                }
                self.settle(consumed)
            },
            Event::Received(read) => match read {
                Transfer::Done(count) => if count == 0 {
                    Step::Finished(Finish::Closed { truncated: self.recv.filled_len() > 0 })
                } else {
                    self.recv.advance(count);
                    self.resume()
                },
                Transfer::NotReady => if self.send.filled_len() > 0 {
                    Step::Flush
                } else {
                    Step::Finished(Finish::NotReady)
                },
                Transfer::Failed => Step::Finished(Finish::Failed),
            },
            Event::Flushed(sent) => match sent {
                Transfer::Done(count) => {
                    self.send.discard(count);
                    Step::Finished(Finish::NotReady)
                },
                Transfer::NotReady => Step::Finished(Finish::NotReady),
                Transfer::Failed => Step::Finished(Finish::Failed),
            },
        }
    }

    fn resume(&mut self) -> (step: Step)
        requires
            old(self).wf(),
        ensures
            final(self).wf(),
            (final(self)@, step@) == old(self)@.resume(),
    {
        match self.state.stream_mode() {
            StreamMode::Message => Step::Parse,
            StreamMode::Stdio => if self.recv.filled_len() > 0 {
                let bytes = vstd::slice::slice_to_vec(self.recv.filled());
                self.recv.discard(self.recv.filled_len());
                Step::Output { bytes }
            } else {
                Step::Read
            },
        }
    }

    fn settle(&mut self, consumed: usize) -> (step: Step)
        requires
            old(self).wf(),
            consumed <= old(self)@.recv.fill,
        ensures
            final(self).wf(),
            (final(self)@, step@) == old(self)@.settle(consumed as int),
    {
        self.recv.discard(consumed);
        self.resume()
    }

    fn make_room(&self, consumed: usize) -> (step: Step)
        requires
            self.wf(),
        ensures
            step@ == self@.make_room(consumed),
    {
        if self.send.unfilled_len() < REPLY_ROOM {
            Step::Drain { consumed }
        } else {
            Step::Dispatch { consumed }
        }
    }
}

} // verus!
