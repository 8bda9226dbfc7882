//! Messages as the handlers see them. Reading them from bytes and writing
//! them to bytes is the codec's part.

use vstd::prelude::*;

verus! {

/// A message as a value.
pub struct MessageView {
    pub module: Seq<char>,
    pub name: Seq<char>,
    pub arguments: Seq<Seq<u8>>,
}

/// One message of a client: its type, which is the name of a module and a
/// name within that module, and its arguments in their order.
#[derive(PartialEq, Eq, Debug)]
pub struct Message {
    module: String,
    name: String,
    arguments: Vec<Vec<u8>>,
}

impl View for Message {
    type V = MessageView;

    closed spec fn view(&self) -> MessageView {
        MessageView {
            module: self.module@,
            name: self.name@,
            arguments: Seq::new(self.arguments@.len(), |i: int| self.arguments@[i]@),
        }
    }
}

impl Message {
    pub fn new(module: String, name: String, arguments: Vec<Vec<u8>>) -> (message: Message)
        ensures
            message@.module == module@,
            message@.name == name@,
            message@.arguments.len() == arguments@.len(),
            forall|i: int| 0 <= i < arguments@.len() ==> message@.arguments[i] == arguments@[i]@,
    {
        Message { module, name, arguments }
    }

    /// The module's name and the name within the module.
    pub fn message_type(&self) -> (names: (&str, &str))
        ensures
            names.0@ == self@.module,
            names.1@ == self@.name,
    {
        (self.module.as_str(), self.name.as_str())
    }

    pub fn arguments(&self) -> (arguments: &Vec<Vec<u8>>)
        ensures
            arguments@.len() == self@.arguments.len(),
            forall|i: int| 0 <= i < arguments@.len() ==> arguments@[i]@ == self@.arguments[i],
    {
        &self.arguments
    }
}

/// What the codec says of the filled bytes of a receive buffer.
#[derive(PartialEq, Eq, Structural, Clone, Copy, Debug)]
pub enum ParseOutcome {
    /// They start with a complete message of `consumed` bytes, which is at
    /// least one.
    Message { consumed: usize },
    /// They may be the start of a message, but its end is not there yet.
    UnexpectedEof,
    /// They cannot be the start of a message. This is never said of no
    /// bytes at all.
    Malformed,
}

/// The messages that the server sends of its own accord.
#[derive(PartialEq, Eq, Structural, Clone, Copy, Debug)]
pub enum Reply {
    /// The connection now carries a client's standard streams.
    IsStdio,
    /// The message was not understood, or its answer did not fit.
    Nope,
}

impl Reply {
    /// The type of the message, as the codec writes it.
    pub open spec fn type_text(self) -> Seq<char> {
        match self {
            Reply::IsStdio => "core.is_stdio"@,
            Reply::Nope => "nope"@,
        }
    }

    pub fn message_type(self) -> (name: &'static str)
        ensures
            name@ == self.type_text(),
    {
        match self {
            Reply::IsStdio => "core.is_stdio",
            Reply::Nope => "nope",
        }
    }
}

} // verus!
