//! The terminal's own layer of the chain of message handlers: it turns a
//! connection into a client's standard streams on request, announces the
//! module `term`, and keeps the terminal's properties.

use crate::server::connection_state::{HandlerConnection, ModuleVersion};
use crate::server::message::{Message, MessageView, Reply};
use crate::text::str_eq;
use vstd::prelude::*;

verus! {

/// The terminal's properties of one connection.
#[derive(PartialEq, Eq, Structural, Clone, Copy, Debug)]
pub struct TermProperties {
    pub input_echo: bool,
    pub input_immediate: bool,
    pub output_protected: bool,
    pub output_reflow: bool,
    pub output_wordwrap: bool,
}

/// The names of the terminal's properties.
#[derive(PartialEq, Eq, Structural, Clone, Copy, Debug)]
pub enum TermProperty {
    InputEcho,
    InputImmediate,
    OutputProtected,
    OutputReflow,
    OutputWordwrap,
}

impl TermProperty {
    /// The property that a message calls `name`, if it is one of the
    /// terminal's.
    pub open spec fn named(name: Seq<char>) -> Option<TermProperty> {
        if name == "term.input-echo"@ {
            Some(TermProperty::InputEcho)
        } else if name == "term.input-immediate"@ {
            Some(TermProperty::InputImmediate)
        } else if name == "term.output-protected"@ {
            Some(TermProperty::OutputProtected)
        } else if name == "term.output-reflow"@ {
            Some(TermProperty::OutputReflow)
        } else if name == "term.output-wordwrap"@ {
            Some(TermProperty::OutputWordwrap)
        } else {
            None
        }
    }

    /// Whether a client can set the property. The others always hold.
    pub open spec fn writable(self) -> bool {
        self is InputEcho || self is InputImmediate || self is OutputProtected
    }

    pub fn from_name(name: &str) -> (property: Option<TermProperty>)
        ensures
            property == TermProperty::named(name@),
    {
        if str_eq(name, "term.input-echo") {
            Some(TermProperty::InputEcho)
        } else if str_eq(name, "term.input-immediate") {
            Some(TermProperty::InputImmediate)
        } else if str_eq(name, "term.output-protected") {
            Some(TermProperty::OutputProtected)
        } else if str_eq(name, "term.output-reflow") {
            Some(TermProperty::OutputReflow)
        } else if str_eq(name, "term.output-wordwrap") {
            Some(TermProperty::OutputWordwrap)
        } else {
            None
        }
    }
}

impl TermProperties {
    /// The properties of a new connection.
    pub open spec fn defaults() -> TermProperties {
        TermProperties {
            input_echo: false,
            input_immediate: false,
            output_protected: false,
            output_reflow: true,
            output_wordwrap: true,
        }
    }

    pub open spec fn get(self, property: TermProperty) -> bool {
        match property {
            TermProperty::InputEcho => self.input_echo,
            TermProperty::InputImmediate => self.input_immediate,
            TermProperty::OutputProtected => self.output_protected,
            TermProperty::OutputReflow => self.output_reflow,
            TermProperty::OutputWordwrap => self.output_wordwrap,
        }
    }

    /// The properties after a client asked for `value`: a property that
    /// cannot be set stays as it is.
    pub open spec fn set(self, property: TermProperty, value: bool) -> TermProperties {
        match property {
            TermProperty::InputEcho => TermProperties { input_echo: value, ..self },
            TermProperty::InputImmediate => TermProperties { input_immediate: value, ..self },
            TermProperty::OutputProtected => TermProperties { output_protected: value, ..self },
            TermProperty::OutputReflow => self,
            TermProperty::OutputWordwrap => self,
        }
    }

    /// The properties after a request that came with `requested`: a value
    /// that is no truth value changes nothing.
    pub open spec fn requested(
        self,
        property: TermProperty,
        requested: Option<Seq<u8>>,
    ) -> TermProperties {
        match requested {
            Some(bytes) => match decoded_bool(bytes) {
                Some(value) => self.set(property, value),
                None => self,
            },
            None => self,
        }
    }
}

/// The truth value that `bytes` stand for in a message: `t` is true, `f` is
/// false, anything else is none.
pub open spec fn decoded_bool(bytes: Seq<u8>) -> Option<bool> {
    if bytes == seq![0x74u8] {
        Some(true)
    } else if bytes == seq![0x66u8] {
        Some(false)
    } else {
        None
    }
}

/// Reads a truth value from an argument of a message.
pub fn decode_bool(bytes: &[u8]) -> (value: Option<bool>)
    ensures
        value == decoded_bool(bytes@),
{
    if bytes.len() != 1 {
        None
    } else if bytes[0] == 0x74 {
        assert(bytes@ =~= seq![0x74u8]);
        Some(true)
    } else if bytes[0] == 0x66 {
        assert(bytes@ =~= seq![0x66u8]);
        Some(false)
    } else {
        None
    }
}

/// The byte that stands for a truth value in a message.
pub fn encode_bool(value: bool) -> (token: u8)
    ensures
        token == (if value { 0x74u8 } else { 0x66u8 }),
        decoded_bool(seq![token]) == Some(value),
{
    assert(seq![0x66u8][0] != seq![0x74u8][0]);
    if value {
        0x74
    } else {
        0x66
    }
}

/// What the terminal's layer needs of a connection, besides what every
/// handler needs.
pub trait TermConnection: HandlerConnection {
    /// The terminal's properties as they stand for this connection.
    spec fn term(&self) -> TermProperties;

    /// Whether the connection carries a client's standard streams.
    spec fn is_stdio(&self) -> bool;

    fn is_input_echo(&self) -> (value: bool)
        ensures
            value == self.term().input_echo,
    ;

    fn is_input_immediate(&self) -> (value: bool)
        ensures
            value == self.term().input_immediate,
    ;

    fn is_output_protected(&self) -> (value: bool)
        ensures
            value == self.term().output_protected,
    ;

    fn is_output_reflow(&self) -> (value: bool)
        ensures
            value == self.term().output_reflow,
    ;

    fn is_output_wordwrap(&self) -> (value: bool)
        ensures
            value == self.term().output_wordwrap,
    ;

    fn set_input_echo(&mut self, value: bool)
        ensures
            final(self).term() == (TermProperties { input_echo: value, ..old(self).term() }),
            final(self).is_stdio() == old(self).is_stdio(),
            final(self).enabled_modules() == old(self).enabled_modules(),
    ;

    fn set_input_immediate(&mut self, value: bool)
        ensures
            final(self).term() == (TermProperties { input_immediate: value, ..old(self).term() }),
            final(self).is_stdio() == old(self).is_stdio(),
            final(self).enabled_modules() == old(self).enabled_modules(),
    ;

    fn set_output_protected(&mut self, value: bool)
        ensures
            final(self).term() == (TermProperties { output_protected: value, ..old(self).term() }),
            final(self).is_stdio() == old(self).is_stdio(),
            final(self).enabled_modules() == old(self).enabled_modules(),
    ;

    /// From now on the connection carries a client's standard streams.
    fn convert_to_stdio(&mut self)
        ensures
            final(self).is_stdio(),
            final(self).term() == old(self).term(),
            final(self).enabled_modules() == old(self).enabled_modules(),
    ;
}

/// What a layer of the handler chain did with a call.
#[derive(PartialEq, Eq, Debug)]
pub enum Handled<R> {
    /// It answered, with this.
    Reply(R),
    /// The call is not for this layer: the next handler of the chain gets
    /// it, with the same arguments.
    Forward,
}

/// Whether module `core` is enabled with major version 1.
pub open spec fn has_core1(modules: Map<Seq<char>, ModuleVersion>) -> bool {
    modules.contains_key("core"@) && modules["core"@].major == 1
}

/// Whether `msg` is the request to carry a client's standard streams, on a
/// connection that may ask for it.
pub open spec fn makes_stdio(msg: MessageView, modules: Map<Seq<char>, ModuleVersion>) -> bool {
    msg.module == "core"@ && msg.name == "make-stdio"@ && has_core1(modules)
}

/// Whether module `name` is this layer's, in the major version it has.
pub open spec fn is_term1(name: Seq<char>, major_version: u16) -> bool {
    name == "term"@ && major_version == 1
}

/// The bytes that came with a request, if any came.
pub open spec fn requested_bytes(requested_value: Option<&[u8]>) -> Option<Seq<u8>> {
    match requested_value {
        Some(bytes) => Some(bytes@),
        None => None,
    }
}

/// The terminal's layer of the handler chain.
pub struct TermHandler<H> {
    /// The next handler of the chain. It gets the calls that this layer
    /// forwards.
    pub inner: H,
}

impl<H> TermHandler<H> {
    /// Handles the request to turn the connection into a client's standard
    /// streams, which needs module `core` in major version 1. Every other
    /// message is forwarded.
    pub fn handle<C: TermConnection>(&self, msg: &Message, conn: &mut C) -> (done: Handled<Reply>)
        ensures
            done == (if makes_stdio(msg@, old(conn).enabled_modules()) {
                Handled::Reply(Reply::IsStdio)
            } else {
                Handled::Forward
            }),
            final(conn).is_stdio() == (old(conn).is_stdio() || makes_stdio(
                msg@,
                old(conn).enabled_modules(),
            )),
            final(conn).term() == old(conn).term(),
            final(conn).enabled_modules() == old(conn).enabled_modules(),
    {
        let has_core1 = match conn.is_module_enabled("core") {
            Some(version) => version.major == 1,
            None => false,
        };
        let (module, name) = msg.message_type();
        if str_eq(module, "core") && str_eq(name, "make-stdio") && has_core1 {
            conn.convert_to_stdio();
            Handled::Reply(Reply::IsStdio)
        } else {
            Handled::Forward
        }
    }

    /// Says whether module `term` can be used: in major version 1, with
    /// minor version 0, once module `core` is enabled. Questions about other
    /// modules are forwarded.
    pub fn can_use_module<C: TermConnection>(
        &self,
        name: &str,
        major_version: u16,
        conn: &C,
    ) -> (done: Handled<Option<u16>>)
        ensures
            done == (if !is_term1(name@, major_version) {
                Handled::Forward
            } else if conn.enabled_modules().contains_key("core"@) {
                Handled::Reply(Some(0u16))
            } else {
                Handled::Reply(None)
            }),
    {
        if str_eq(name, "term") && major_version == 1 {
            if conn.is_module_enabled("core").is_some() {
                Handled::Reply(Some(0))
            } else {
                Handled::Reply(None)
            }
        } else {
            Handled::Forward
        }
    }

    /// Gets or sets one of the terminal's properties, and answers with the
    /// value that then holds, which is to be published. With a
    /// `requested_value` the property is set first, if it can be set and the
    /// value reads as a truth value. Other properties are forwarded.
    pub fn handle_property<C: TermConnection>(
        &self,
        name: &str,
        requested_value: Option<&[u8]>,
        conn: &mut C,
    ) -> (done: Handled<bool>)
        ensures
            final(conn).term() == (match TermProperty::named(name@) {
                Some(property) => old(conn).term().requested(
                    property,
                    requested_bytes(requested_value),
                ),
                None => old(conn).term(),
            }),
            done == (match TermProperty::named(name@) {
                Some(property) => Handled::Reply(final(conn).term().get(property)),
                None => Handled::Forward,
            }),
            final(conn).is_stdio() == old(conn).is_stdio(),
            final(conn).enabled_modules() == old(conn).enabled_modules(),
    {
        let requested = match requested_value {
            Some(bytes) => decode_bool(bytes),
            None => None,
        };
        match TermProperty::from_name(name) {
            Some(TermProperty::InputEcho) => {
                if let Some(value) = requested {
                    conn.set_input_echo(value);
                }
                Handled::Reply(conn.is_input_echo())
            },
            Some(TermProperty::InputImmediate) => {
                if let Some(value) = requested {
                    conn.set_input_immediate(value);
                }
                Handled::Reply(conn.is_input_immediate())
            },
            Some(TermProperty::OutputProtected) => {
                if let Some(value) = requested {
                    conn.set_output_protected(value);
                }
                Handled::Reply(conn.is_output_protected())
            },
            Some(TermProperty::OutputReflow) => Handled::Reply(conn.is_output_reflow()),
            Some(TermProperty::OutputWordwrap) => Handled::Reply(conn.is_output_wordwrap()),
            None => Handled::Forward,
        }
    }
}

} // verus!
