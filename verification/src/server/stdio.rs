//! The connection that carries the standard streams of the client program:
//! what the client writes goes into the document, and what the user has
//! typed goes to the client.

use crate::model::document::{utf8_lossy, Document, DocumentView};
use crate::server::buffer::{tail_mut, zeros};
use crate::server::connection::{Finish, Transfer};
use vstd::prelude::*;
use vstd::utf8::*;

verus! {

/// The size of the buffer that the client's output is read into.
pub const READ_BUFFER_SIZE: usize = 1024;

/// What happened outside since the last step.
#[derive(PartialEq, Eq, Structural, Clone, Copy, Debug)]
pub enum StdioEvent {
    /// The connection is polled.
    Polled,
    /// The socket was read into the read room.
    Received(Transfer),
    /// The unsent input was offered to the socket.
    Sent(Transfer),
}

/// What to do next.
#[derive(PartialEq, Eq, Structural, Clone, Copy, Debug)]
pub enum StdioStep {
    /// Read from the socket into the read room.
    Read,
    /// Offer the unsent input to the socket.
    Write,
    /// The poll is over. `Closed` says that the client has closed its
    /// output.
    Finished(Finish),
}

/// The connection as a value.
pub struct StdioView {
    pub read_buffer: Seq<u8>,
    pub write_buffer: Seq<u8>,
    /// Whether something was moved in this round, so that another round is
    /// worth trying.
    pub restart: bool,
}

impl StdioView {
    pub open spec fn wf(self) -> bool {
        self.read_buffer.len() == READ_BUFFER_SIZE
    }

    /// Whether `event` can have happened: no more bytes were moved than
    /// there was room for, or than were there.
    pub open spec fn admits(self, event: StdioEvent) -> bool {
        match event {
            StdioEvent::Polled => true,
            StdioEvent::Received(read) => read matches Transfer::Done(count) ==> count
                <= self.read_buffer.len(),
            StdioEvent::Sent(sent) => sent matches Transfer::Done(count) ==> count
                <= self.write_buffer.len(),
        }
    }

    /// After the reading: input that waits is offered to the socket.
    pub open spec fn offer_input(self) -> (StdioView, StdioStep) {
        if self.write_buffer.len() > 0 {
            (self, StdioStep::Write)
        } else {
            self.end_round()
        }
    }

    /// After reading and writing: where something was moved, the next round
    /// starts at once.
    pub open spec fn end_round(self) -> (StdioView, StdioStep) {
        if self.restart {
            (StdioView { restart: false, ..self }, StdioStep::Read)
        } else {
            (self, StdioStep::Finished(Finish::NotReady))
        }
    }

    /// The connection and the next step after `event`.
    pub open spec fn step(self, event: StdioEvent) -> (StdioView, StdioStep) {
        match event {
            StdioEvent::Polled => (StdioView { restart: false, ..self }, StdioStep::Read),
            StdioEvent::Received(read) => match read {
                Transfer::Done(count) => if count == 0 {
                    (self, StdioStep::Finished(Finish::Closed { truncated: false }))
                } else {
                    (StdioView { restart: true, ..self }).offer_input()
                },
                Transfer::NotReady => self.offer_input(),
                Transfer::Failed => (self, StdioStep::Finished(Finish::Failed)),
            },
            StdioEvent::Sent(sent) => match sent {
                Transfer::Done(count) => (StdioView {
                    write_buffer: self.write_buffer.subrange(
                        count as int,
                        self.write_buffer.len() as int,
                    ),
                    restart: true,
                    ..self
                }).end_round(),
                Transfer::NotReady => self.end_round(),
                Transfer::Failed => (self, StdioStep::Finished(Finish::Failed)),
            },
        }
    }

    /// The output that `event` brought, if it brought any.
    pub open spec fn output(self, event: StdioEvent) -> Option<Seq<u8>> {
        match event {
            StdioEvent::Received(Transfer::Done(count)) => if count > 0 {
                Some(self.read_buffer.subrange(0, count as int))
            } else {
                None
            },
            _ => None,
        }
    }
}

/// Whatever happens, the read buffer keeps its size, and the input that
/// waits is what waited before, without what the socket took from its
/// front. A poll only ends without waiting when the client has closed its
/// output or the socket has failed.
pub proof fn lemma_step(stdio: StdioView, event: StdioEvent)
    requires
        stdio.wf(),
        stdio.admits(event),
    ensures
        stdio.step(event).0.wf(),
        stdio.step(event).0.read_buffer == stdio.read_buffer,
        stdio.step(event).0.write_buffer == (match event {
            StdioEvent::Sent(Transfer::Done(count)) => stdio.write_buffer.subrange(
                count as int,
                stdio.write_buffer.len() as int,
            ),
            _ => stdio.write_buffer,
        }),
        stdio.step(event).1 is Write ==> stdio.step(event).0.write_buffer.len() > 0,
        stdio.step(event).1 == StdioStep::Finished(Finish::Closed { truncated: false })
            <==> event == StdioEvent::Received(Transfer::Done(0)),
        stdio.step(event).1 == StdioStep::Finished(Finish::Failed) <==> (event
            == StdioEvent::Received(Transfer::Failed) || event == StdioEvent::Sent(
            Transfer::Failed,
        )),
{
}

/// A connection that receives text from a client program's standard output
/// and sends text to its standard input.
pub struct Stdio {
    read_buffer: Vec<u8>,
    write_buffer: Vec<u8>,
    restart: bool,
}

impl View for Stdio {
    type V = StdioView;

    closed spec fn view(&self) -> StdioView {
        StdioView {
            read_buffer: self.read_buffer@,
            write_buffer: self.write_buffer@,
            restart: self.restart,
        }
    }
}

impl Stdio {
    /// The read buffer has its size.
    pub open spec fn wf(&self) -> bool {
        self@.wf()
    }

    /// The connection before anything was moved.
    pub open spec fn new_view() -> StdioView {
        StdioView {
            read_buffer: zeros(READ_BUFFER_SIZE as int),
            write_buffer: Seq::<u8>::empty(),
            restart: false,
        }
    }

    /// The connection before anything was moved.
    pub fn new() -> (stdio: Stdio)
        ensures
            stdio.wf(),
            stdio@ == Stdio::new_view(),
    {
        let stdio = Stdio {
            read_buffer: vec![0u8; READ_BUFFER_SIZE],
            write_buffer: Vec::new(),
            restart: false,
        };
        assert(stdio.read_buffer@ =~= zeros(READ_BUFFER_SIZE as int));
        stdio
    }

    /// Takes a line that the user has completed. It goes to the client as
    /// it is, behind what already waits.
    pub fn add_user_input(&mut self, t: &str)
        ensures
            final(self)@ == (StdioView {
                write_buffer: old(self)@.write_buffer + encode_utf8(t@),
                ..old(self)@
            }),
    {
        self.write_buffer.extend_from_slice(t.as_bytes());
        assert(self.write_buffer@ =~= old(self)@.write_buffer + encode_utf8(t@));
    }

    /// The room for the socket to be read into.
    pub fn read_room(&mut self) -> (room: &mut [u8])
        ensures
            room@ == old(self)@.read_buffer,
            final(room)@.len() == room@.len(),
            final(self)@ == (StdioView { read_buffer: final(room)@, ..old(self)@ }),
    {
        tail_mut(&mut self.read_buffer, 0)
    }

    /// The input that waits to be sent.
    pub fn unsent(&self) -> (bytes: &[u8])
        ensures
            bytes@ == self@.write_buffer,
    {
        self.write_buffer.as_slice()
    }

    /// Whether `event` can have happened. `step` takes no other.
    pub fn admits(&self, event: StdioEvent) -> (admitted: bool)
        ensures
            admitted == self@.admits(event),
    {
        match event {
            StdioEvent::Polled => true,
            StdioEvent::Received(read) => match read {
                Transfer::Done(count) => count <= self.read_buffer.len(),
                _ => true,
            },
            StdioEvent::Sent(sent) => match sent {
                Transfer::Done(count) => count <= self.write_buffer.len(),
                _ => true,
            },
        }
    }

    /// Takes what happened and says what to do next. A poll starts with
    /// `Polled` and goes on, each step answered by its event, until a step
    /// is `Finished`. Output that was received goes to the last section of
    /// the document, and `needs_redraw` is then set.
    pub fn step(
        &mut self,
        document: &mut Document,
        needs_redraw: &mut bool,
        event: StdioEvent,
    ) -> (step: StdioStep)
        requires
            old(self).wf(),
            old(self)@.admits(event),
            old(document).wf(),
        ensures
            final(self).wf(),
            final(document).wf(),
            (final(self)@, step) == old(self)@.step(event),
            final(document)@ == (match old(self)@.output(event) {
                Some(bytes) => old(document)@.append_output(encode_utf8(utf8_lossy(bytes))),
                None => old(document)@,
            }),
            *final(needs_redraw) == (*old(needs_redraw) || old(self)@.output(event) is Some),
    {
        match event {
            StdioEvent::Polled => {
                self.restart = false;
                StdioStep::Read
            },
            StdioEvent::Received(read) => match read {
                Transfer::Done(count) => {
                    if count == 0 {
                        return StdioStep::Finished(Finish::Closed { truncated: false });
                    }
                    let bytes = vstd::slice::slice_subrange(self.read_buffer.as_slice(), 0, count);
                    document.append_raw_output(bytes);
                    self.restart = true;
                    *needs_redraw = true;
                    self.offer_input()
                },
                Transfer::NotReady => self.offer_input(),
                Transfer::Failed => StdioStep::Finished(Finish::Failed),
            },
            StdioEvent::Sent(sent) => match sent {
                Transfer::Done(count) => {
                    self.write_buffer = self.write_buffer.split_off(count);
                    self.restart = true;
                    self.end_round()
                },
                Transfer::NotReady => self.end_round(),
                Transfer::Failed => StdioStep::Finished(Finish::Failed),
            },
        }
    }

    fn offer_input(&mut self) -> (step: StdioStep)
        requires
            old(self).wf(),
        ensures
            final(self).wf(),
            (final(self)@, step) == old(self)@.offer_input(),
    {
        if self.write_buffer.len() > 0 {
            StdioStep::Write
        } else {
            self.end_round()
        }
    }

    fn end_round(&mut self) -> (step: StdioStep)
        requires
            old(self).wf(),
        ensures
            final(self).wf(),
            (final(self)@, step) == old(self)@.end_round(),
    {
        if self.restart {
            self.restart = false;
            StdioStep::Read
        } else {
            StdioStep::Finished(Finish::NotReady)
        }
    }
}

} // verus!
