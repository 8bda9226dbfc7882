//! The I/O side: the server that accepts the connections of the client
//! programs, and the buffers and state machines of these connections.

pub mod buffer;
pub mod connection;
pub mod connection_state;
pub mod message;
pub mod stdio;
pub mod term_handler;

use self::connection::{Connection, ConnectionView, Finish};
use self::stdio::{Stdio, StdioView};
use vstd::prelude::*;
use vstd::utf8::*;

verus! {

/// What the window tells the I/O side.
#[derive(PartialEq, Eq, Debug)]
pub enum Event {
    /// The user has completed this line.
    UserInput(String),
}

/// What the I/O side tells the window.
#[derive(PartialEq, Eq, Structural, Clone, Copy, Debug)]
pub enum OutgoingEvent {
    /// The document has changed: draw it.
    RedrawWindow,
}

/// What came of the attempt to accept a connection.
#[derive(PartialEq, Eq, Structural, Clone, Copy, Debug)]
pub enum Accept {
    /// A client has connected.
    Connected,
    /// No client waits.
    NotReady,
    /// The listening socket failed.
    Failed,
}

/// What the channel from the window had.
#[derive(PartialEq, Eq, Debug)]
pub enum Channel {
    /// This event.
    Event(Event),
    /// Nothing yet.
    NotReady,
    /// Nothing any more: the window is gone.
    Closed,
    /// The channel failed.
    Failed,
}

/// A `Channel` as a value, with the line as UTF-8 bytes.
pub enum ChannelView {
    UserInput(Seq<u8>),
    NotReady,
    Closed,
    Failed,
}

impl View for Channel {
    type V = ChannelView;

    open spec fn view(&self) -> ChannelView {
        match self {
            Channel::Event(Event::UserInput(line)) => ChannelView::UserInput(encode_utf8(line@)),
            Channel::NotReady => ChannelView::NotReady,
            Channel::Closed => ChannelView::Closed,
            Channel::Failed => ChannelView::Failed,
        }
    }
}

/// What happened outside since the last step.
#[derive(PartialEq, Eq, Debug)]
pub enum ServerEvent {
    /// The server is polled.
    Polled,
    /// The listening socket was asked for a connection.
    Accepted(Accept),
    /// The new connection has its place.
    Adopted,
    /// The connection with the standard streams was polled; `needs_redraw`
    /// says whether it has changed the document.
    StdioPolled { finish: Finish, needs_redraw: bool },
    /// The window has been told.
    Emitted,
    /// The connection that was to be polled was polled.
    ConnectionPolled(Finish),
    /// The channel from the window was asked for an event.
    ChannelPolled(Channel),
}

/// A `ServerEvent` as a value.
pub enum ServerEventView {
    Polled,
    Accepted(Accept),
    Adopted,
    StdioPolled { finish: Finish, needs_redraw: bool },
    Emitted,
    ConnectionPolled(Finish),
    ChannelPolled(ChannelView),
}

impl View for ServerEvent {
    type V = ServerEventView;

    open spec fn view(&self) -> ServerEventView {
        match self {
            ServerEvent::Polled => ServerEventView::Polled,
            ServerEvent::Accepted(accept) => ServerEventView::Accepted(*accept),
            ServerEvent::Adopted => ServerEventView::Adopted,
            ServerEvent::StdioPolled { finish, needs_redraw } => ServerEventView::StdioPolled {
                finish: *finish,
                needs_redraw: *needs_redraw,
            },
            ServerEvent::Emitted => ServerEventView::Emitted,
            ServerEvent::ConnectionPolled(finish) => ServerEventView::ConnectionPolled(*finish),
            ServerEvent::ChannelPolled(channel) => ServerEventView::ChannelPolled(channel@),
        }
    }
}

/// What a new connection is for.
#[derive(PartialEq, Eq, Structural, Clone, Copy, Debug)]
pub enum Role {
    /// It carries the standard streams of the client program. The first
    /// connection does.
    Stdio,
    /// It carries messages, and has this number.
    Messages { id: u32 },
}

/// How a poll of the server ends.
#[derive(PartialEq, Eq, Structural, Clone, Copy, Debug)]
pub enum ServerFinish {
    /// Nothing more can be done before a socket or the channel is ready.
    NotReady,
    /// The server is done: the client program has closed its output, or the
    /// window is gone.
    Done,
    /// The server failed.
    Failed,
}

/// What to do next.
#[derive(PartialEq, Eq, Structural, Clone, Copy, Debug)]
pub enum ServerStep {
    /// Ask the listening socket for a connection.
    Accept,
    /// Keep the new connection's socket for this role.
    Adopt(Role),
    /// Poll the connection with the standard streams.
    PollStdio,
    /// Tell the window this.
    Emit(OutgoingEvent),
    /// Poll the connection at this place.
    PollConnection { index: usize },
    /// Ask the channel from the window for an event.
    PollChannel,
    /// The poll is over.
    Finished(ServerFinish),
}

/// The server as a value.
pub struct ServerView {
    pub stdio: Option<StdioView>,
    pub connections: Seq<ConnectionView>,
    pub next_connection_id: u32,
    /// The place of the connection that is polled next in this poll.
    pub cursor: int,
}

impl ServerView {
    /// The connections are well-formed and have numbers of their own, all
    /// of them from 1 up and given out by this server. The connection with
    /// the standard streams is there once a client has connected.
    pub open spec fn wf(self) -> bool {
        &&& self.stdio is Some <==> self.next_connection_id > 0
        &&& self.stdio matches Some(stdio) ==> stdio.wf()
        &&& 0 <= self.cursor <= self.connections.len()
        &&& forall|i: int|
            0 <= i < self.connections.len() ==> (#[trigger] self.connections[i]).wf()
        &&& forall|i: int|
            0 <= i < self.connections.len() ==> 0 < (#[trigger] self.connections[i]).state.id
                < self.next_connection_id
        &&& forall|i: int, j: int|
            0 <= i < j < self.connections.len() ==> (#[trigger] self.connections[i]).state.id != (
            #[trigger] self.connections[j]).state.id
    }

    /// Whether `event` can have happened.
    pub open spec fn admits(self, event: ServerEventView) -> bool {
        match event {
            ServerEventView::Accepted(Accept::Connected) => self.next_connection_id < u32::MAX,
            ServerEventView::ConnectionPolled(_) => self.cursor < self.connections.len(),
            _ => true,
        }
    }

    /// A poll starts by looking for a new client.
    pub open spec fn start(self) -> (ServerView, ServerStep) {
        (ServerView { cursor: 0, ..self }, ServerStep::Accept)
    }

    /// A new client has connected: the first one brings the standard
    /// streams of the client program, every later one carries messages and
    /// gets the next number.
    pub open spec fn adopt(self) -> (ServerView, ServerStep) {
        if self.next_connection_id == 0 {
            (
                ServerView { stdio: Some(Stdio::new_view()), next_connection_id: 1, ..self },
                ServerStep::Adopt(Role::Stdio),
            )
        } else {
            (
                ServerView {
                    connections: self.connections.push(
                        Connection::new_view(self.next_connection_id),
                    ),
                    next_connection_id: (self.next_connection_id + 1) as u32,
                    ..self
                },
                ServerStep::Adopt(Role::Messages { id: self.next_connection_id }),
            )
        }
    }

    /// After the listening socket: the standard streams, once there are
    /// any.
    pub open spec fn after_accept(self) -> (ServerView, ServerStep) {
        if self.stdio is Some {
            (self, ServerStep::PollStdio)
        } else {
            self.poll_connections()
        }
    }

    /// The connections that carry messages are polled one after the other,
    /// and behind the last one the channel from the window.
    pub open spec fn poll_connections(self) -> (ServerView, ServerStep) {
        if self.cursor < self.connections.len() {
            (self, ServerStep::PollConnection { index: self.cursor as usize })
        } else {
            (self, ServerStep::PollChannel)
        }
    }

    /// The server with `line` on its way to the client program, if there is
    /// one.
    pub open spec fn with_input(self, line: Seq<u8>) -> ServerView {
        match self.stdio {
            Some(stdio) => ServerView {
                stdio: Some(StdioView { write_buffer: stdio.write_buffer + line, ..stdio }),
                ..self
            },
            None => self,
        }
    }

    /// The server and the next step after `event`.
    pub open spec fn step(self, event: ServerEventView) -> (ServerView, ServerStep) {
        match event {
            ServerEventView::Polled => self.start(),
            ServerEventView::Accepted(accept) => match accept {
                Accept::Connected => self.adopt(),
                Accept::NotReady => self.after_accept(),
                Accept::Failed => (self, ServerStep::Finished(ServerFinish::Failed)),
            },
            ServerEventView::Adopted => self.after_accept(),
            ServerEventView::StdioPolled { finish, needs_redraw } => match finish {
                Finish::NotReady => if needs_redraw {
                    (self, ServerStep::Emit(OutgoingEvent::RedrawWindow))
                } else {
                    self.poll_connections()
                },
                Finish::Closed { truncated } => (self, ServerStep::Finished(ServerFinish::Done)),
                Finish::Failed => (self, ServerStep::Finished(ServerFinish::Failed)),
            },
            ServerEventView::Emitted => self.poll_connections(),
            ServerEventView::ConnectionPolled(finish) => match finish {
                Finish::NotReady => (ServerView {
                    cursor: self.cursor + 1,
                    ..self
                }).poll_connections(),
                _ => (ServerView {
                    connections: self.connections.remove(self.cursor),
                    ..self
                }).poll_connections(),
            },
            ServerEventView::ChannelPolled(channel) => match channel {
                ChannelView::UserInput(line) => self.with_input(line).start(),
                ChannelView::NotReady => (self, ServerStep::Finished(ServerFinish::NotReady)),
                ChannelView::Closed => (self, ServerStep::Finished(ServerFinish::Done)),
                ChannelView::Failed => (self, ServerStep::Finished(ServerFinish::Failed)),
            },
        }
    }
}

/// Whatever happens, the server stays well-formed. Numbers are given out
/// from 1 up and never again: a connection that takes up messages gets one
/// that no connection before it had.
pub proof fn lemma_step(server: ServerView, event: ServerEventView)
    requires
        server.wf(),
        server.admits(event),
    ensures
        server.step(event).0.wf(),
        server.step(event).0.next_connection_id >= server.next_connection_id,
        server.step(event).1 matches ServerStep::Adopt(Role::Messages { id }) ==> 0 < id
            == server.next_connection_id < server.step(event).0.next_connection_id
            && server.step(event).0.connections == server.connections.push(
            Connection::new_view(id),
        ),
        server.step(event).1 is PollStdio ==> server.step(event).0.stdio is Some,
        server.step(event).1 matches ServerStep::PollConnection { index } ==> index
            < server.step(event).0.connections.len(),
{
}

/// The connections as values.
pub open spec fn views(connections: Seq<Connection>) -> Seq<ConnectionView> {
    Seq::new(connections.len(), |i: int| connections[i]@)
}

/// The server: the connection with the standard streams of the client
/// program, and the connections that carry messages.
pub struct Server {
    stdio: Option<Stdio>,
    connections: Vec<Connection>,
    next_connection_id: u32,
    cursor: usize,
}

impl View for Server {
    type V = ServerView;

    closed spec fn view(&self) -> ServerView {
        ServerView {
            stdio: match self.stdio {
                Some(stdio) => Some(stdio@),
                None => None,
            },
            connections: views(self.connections@),
            next_connection_id: self.next_connection_id,
            cursor: self.cursor as int,
        }
    }
}

impl Server {
    pub open spec fn wf(&self) -> bool {
        self@.wf()
    }

    /// A server that no client has connected to.
    pub fn new() -> (server: Server)
        ensures
            server.wf(),
            server@ == (ServerView {
                stdio: None,
                connections: Seq::<ConnectionView>::empty(),
                next_connection_id: 0,
                cursor: 0,
            }),
    {
        let server = Server {
            stdio: None,
            connections: Vec::new(),
            next_connection_id: 0,
            cursor: 0,
        };
        assert(server@.connections =~= Seq::<ConnectionView>::empty());
        server
    }

    /// How many connections carry messages.
    pub fn connection_count(&self) -> (count: usize)
        ensures
            count == self@.connections.len(),
    {
        self.connections.len()
    }

    /// The connection with the standard streams, once a client has
    /// connected.
    pub fn stdio_mut(&mut self) -> (stdio: Option<&mut Stdio>)
        ensures
            (match stdio {
                Some(stdio) => old(self)@.stdio == Some(stdio@) && final(self)@ == (ServerView {
                    stdio: Some(final(stdio)@),
                    ..old(self)@
                }),
                None => old(self)@.stdio is None && final(self)@ == old(self)@,
            }),
    {
        self.stdio.as_mut()
    }

    /// The connection at place `index`.
    pub fn connection_mut(&mut self, index: usize) -> (connection: &mut Connection)
        requires
            index < old(self)@.connections.len(),
        ensures
            connection@ == old(self)@.connections[index as int],
            final(self)@ == (ServerView {
                connections: old(self)@.connections.update(index as int, final(connection)@),
                ..old(self)@
            }),
    {
        proof {
            let connections = self.connections@;
            assert forall|changed: Connection| #[trigger]
                views(connections.update(index as int, changed)) == views(connections).update(
                    index as int,
                    changed@,
                ) by {}
        }
        &mut self.connections[index]
    }

    /// Whether `event` can have happened. `step` takes no other.
    pub fn admits(&self, event: &ServerEvent) -> (admitted: bool)
        ensures
            admitted == self@.admits(event@),
    {
        match event {
            ServerEvent::Accepted(Accept::Connected) => self.next_connection_id < u32::MAX,
            ServerEvent::ConnectionPolled(_) => self.cursor < self.connections.len(),
            _ => true,
        }
    }

    /// Takes what happened and says what to do next. A poll starts with
    /// `Polled` and goes on, each step answered by its event, until a step
    /// is `Finished`.
    pub fn step(&mut self, event: ServerEvent) -> (step: ServerStep)
        requires
            old(self).wf(),
            old(self)@.admits(event@),
        ensures
            final(self).wf(),
            (final(self)@, step) == old(self)@.step(event@),
    {
        match event {
            ServerEvent::Polled => self.start(),
            ServerEvent::Accepted(accept) => match accept {
                Accept::Connected => self.adopt(),
                Accept::NotReady => self.after_accept(),
                Accept::Failed => ServerStep::Finished(ServerFinish::Failed),
            },
            ServerEvent::Adopted => self.after_accept(),
            ServerEvent::StdioPolled { finish, needs_redraw } => match finish {
                Finish::NotReady => if needs_redraw {
                    ServerStep::Emit(OutgoingEvent::RedrawWindow)
                } else {
                    self.poll_connections()
                },
                Finish::Closed { truncated: _ } => ServerStep::Finished(ServerFinish::Done),
                Finish::Failed => ServerStep::Finished(ServerFinish::Failed),
            },
            ServerEvent::Emitted => self.poll_connections(),
            ServerEvent::ConnectionPolled(finish) => {
                match finish {
                    Finish::NotReady => {
                        assert(self.cursor < self.connections.len());
                        self.cursor += 1;
                    },
                    _ => {
                        self.connections.remove(self.cursor);
                        assert(self@.connections =~= old(self)@.connections.remove(
                            old(self)@.cursor,
                        ));
                    },
                }
                self.poll_connections()
            },
            ServerEvent::ChannelPolled(channel) => match channel {
                Channel::Event(Event::UserInput(line)) => {
                    if let Some(stdio) = self.stdio.as_mut() {
                        stdio.add_user_input(line.as_str());
                    }
                    self.start()
                },
                Channel::NotReady => ServerStep::Finished(ServerFinish::NotReady),
                Channel::Closed => ServerStep::Finished(ServerFinish::Done),
                Channel::Failed => ServerStep::Finished(ServerFinish::Failed),
            },
        }
    }

    fn start(&mut self) -> (step: ServerStep)
        requires
            old(self).wf(),
        ensures
            final(self).wf(),
            (final(self)@, step) == old(self)@.start(),
    {
        self.cursor = 0;
        ServerStep::Accept
    }

    fn adopt(&mut self) -> (step: ServerStep)
        requires
            old(self).wf(),
            old(self)@.next_connection_id < u32::MAX,
        ensures
            final(self).wf(),
            (final(self)@, step) == old(self)@.adopt(),
    {
        let id = self.next_connection_id;
        self.next_connection_id += 1;
        if id == 0 {
            self.stdio = Some(Stdio::new());
            ServerStep::Adopt(Role::Stdio)
        } else {
            self.connections.push(Connection::new(id));
            assert(self@.connections =~= old(self)@.connections.push(Connection::new_view(id)));
            ServerStep::Adopt(Role::Messages { id })
        }
    }

    fn after_accept(&self) -> (step: ServerStep)
        requires
            self.wf(),
        ensures
            (self@, step) == self@.after_accept(),
    {
        if self.stdio.is_some() {
            ServerStep::PollStdio
        } else {
            self.poll_connections()
        }
    }

    fn poll_connections(&self) -> (step: ServerStep)
        requires
            0 <= self@.cursor <= self@.connections.len(),
        ensures
            (self@, step) == self@.poll_connections(),
    {
        if self.cursor < self.connections.len() {
            ServerStep::PollConnection { index: self.cursor }
        } else {
            ServerStep::PollChannel
        }
    }
}

} // verus!
