//! What the server keeps for each client connection.

use crate::server::term_handler::{TermConnection, TermProperties};
use crate::text::str_eq;
use vstd::prelude::*;

verus! {

/// The version of a module. Client and server agree on a major version; the
/// server then picks a minor version that it supports.
#[derive(PartialEq, Eq, Structural, Clone, Copy, Debug)]
pub struct ModuleVersion {
    pub major: u16,
    pub minor: u16,
}

/// How the bytes of a connection are read.
#[derive(PartialEq, Eq, Structural, Clone, Copy, Debug)]
pub enum StreamMode {
    /// As framed messages.
    Message,
    /// As the raw standard input and output of a client. A connection that
    /// has got here stays here.
    Stdio,
}

/// The longest message that either side may send, in bytes.
pub const MAX_MESSAGE_LENGTH: usize = 1024;

/// What the message handlers need of a connection: the modules that were
/// agreed on for it, and the limits on the length of its messages.
pub trait HandlerConnection {
    /// The modules that are enabled, by name.
    spec fn enabled_modules(&self) -> Map<Seq<char>, ModuleVersion>;

    fn max_server_message_length(&self) -> (length: usize)
        ensures
            length == MAX_MESSAGE_LENGTH,
    ;

    fn max_client_message_length(&self) -> (length: usize)
        ensures
            length == MAX_MESSAGE_LENGTH,
    ;

    /// Enables a module, or sets the version of one that is enabled.
    fn enable_module(&mut self, name: &str, version: ModuleVersion)
        ensures
            final(self).enabled_modules() == old(self).enabled_modules().insert(name@, version),
    ;

    /// The version of a module, if it is enabled.
    fn is_module_enabled(&self, name: &str) -> (version: Option<ModuleVersion>)
        ensures
            version == (if self.enabled_modules().contains_key(name@) {
                Some(self.enabled_modules()[name@])
            } else {
                None
            }),
    ;
}

/// One enabled module.
struct ModuleEntry {
    name: String,
    version: ModuleVersion,
}

/// The version under which `name` stands in `entries`: that of the first
/// entry of that name.
spec fn lookup(entries: Seq<ModuleEntry>, name: Seq<char>) -> Option<ModuleVersion>
    decreases entries.len(),
{
    if entries.len() == 0 {
        None
    } else if entries[0].name@ == name {
        Some(entries[0].version)
    } else {
        lookup(entries.drop_first(), name)
    }
}

/// A lookup goes by the first entry of the name.
proof fn lemma_lookup_first(entries: Seq<ModuleEntry>, name: Seq<char>, at: int)
    requires
        0 <= at <= entries.len(),
        forall|k: int| 0 <= k < at ==> entries[k].name@ != name,
    ensures
        at < entries.len() && entries[at].name@ == name ==> lookup(entries, name) == Some(
            entries[at].version,
        ),
        at == entries.len() ==> lookup(entries, name) is None,
        at < entries.len() && entries[at].name@ != name ==> lookup(entries, name) == lookup(
            entries.subrange(at + 1, entries.len() as int),
            name,
        ),
    decreases at,
{
    if at > 0 {
        let rest = entries.drop_first();
        lemma_lookup_first(rest, name, at - 1);
        if at < entries.len() {
            assert(rest.subrange(at, rest.len() as int) =~= entries.subrange(
                at + 1,
                entries.len() as int,
            ));
        }
    }
}

/// What a lookup finds once the entry at `at` has been given `version`.
proof fn lemma_lookup_update(
    entries: Seq<ModuleEntry>,
    changed: Seq<ModuleEntry>,
    at: int,
    name: Seq<char>,
)
    requires
        0 <= at < entries.len(),
        changed.len() == entries.len(),
        forall|k: int| 0 <= k < entries.len() ==> changed[k].name@ == entries[k].name@,
        forall|k: int|
            0 <= k < entries.len() && k != at ==> changed[k].version == entries[k].version,
        forall|k: int| 0 <= k < at ==> entries[k].name@ != entries[at].name@,
    ensures
        lookup(changed, name) == (if name == entries[at].name@ {
            Some(changed[at].version)
        } else {
            lookup(entries, name)
        }),
    decreases entries.len(),
{
    if at == 0 {
        if name != entries[0].name@ {
            lemma_lookup_same(entries.drop_first(), changed.drop_first(), name);
        }
    } else {
        lemma_lookup_update(entries.drop_first(), changed.drop_first(), at - 1, name);
    }
}

/// Entries of the same names and versions give the same lookups.
proof fn lemma_lookup_same(entries: Seq<ModuleEntry>, other: Seq<ModuleEntry>, name: Seq<char>)
    requires
        other.len() == entries.len(),
        forall|k: int| 0 <= k < entries.len() ==> other[k].name@ == entries[k].name@,
        forall|k: int| 0 <= k < entries.len() ==> other[k].version == entries[k].version,
    ensures
        lookup(other, name) == lookup(entries, name),
    decreases entries.len(),
{
    if entries.len() > 0 {
        lemma_lookup_same(entries.drop_first(), other.drop_first(), name);
    }
}

/// What a lookup finds once an entry has been put behind the others.
proof fn lemma_lookup_push(entries: Seq<ModuleEntry>, entry: ModuleEntry, name: Seq<char>)
    ensures
        lookup(entries.push(entry), name) == (if lookup(entries, name) is Some {
            lookup(entries, name)
        } else if entry.name@ == name {
            Some(entry.version)
        } else {
            None
        }),
    decreases entries.len(),
{
    if entries.len() == 0 {
        assert(entries.push(entry).drop_first() =~= entries);
    } else {
        assert(entries.push(entry).drop_first() =~= entries.drop_first().push(entry));
        lemma_lookup_push(entries.drop_first(), entry, name);
    }
}

/// The entries as a map from names to versions.
spec fn as_map(entries: Seq<ModuleEntry>) -> Map<Seq<char>, ModuleVersion> {
    Map::new(
        |name: Seq<char>| lookup(entries, name) is Some,
        |name: Seq<char>| lookup(entries, name).unwrap(),
    )
}

/// A connection's state as a value.
pub struct ConnectionStateView {
    pub id: u32,
    pub enabled_modules: Map<Seq<char>, ModuleVersion>,
    pub stream_mode: StreamMode,
    pub term: TermProperties,
}

/// The state of one client connection: its number, the modules that were
/// agreed on, whether it carries messages or a client's standard streams,
/// and the terminal's properties as this client has set them.
pub struct ConnectionState {
    id: u32,
    modules: Vec<ModuleEntry>,
    stream_mode: StreamMode,
    input_echo: bool,
    input_immediate: bool,
    output_protected: bool,
}

impl View for ConnectionState {
    type V = ConnectionStateView;

    closed spec fn view(&self) -> ConnectionStateView {
        ConnectionStateView {
            id: self.id,
            enabled_modules: as_map(self.modules@),
            stream_mode: self.stream_mode,
            term: TermProperties {
                input_echo: self.input_echo,
                input_immediate: self.input_immediate,
                output_protected: self.output_protected,
                output_reflow: true,
                output_wordwrap: true,
            },
        }
    }
}

impl ConnectionState {
    /// The state of a connection that was just accepted: it carries
    /// messages, no module is enabled, and the properties have their
    /// defaults.
    pub open spec fn new_view(id: u32) -> ConnectionStateView {
        ConnectionStateView {
            id,
            enabled_modules: Map::<Seq<char>, ModuleVersion>::empty(),
            stream_mode: StreamMode::Message,
            term: TermProperties::defaults(),
        }
    }

    /// The state of a connection that was just accepted.
    pub fn new(id: u32) -> (state: ConnectionState)
        ensures
            state@ == ConnectionState::new_view(id),
    {
        let state = ConnectionState {
            id,
            modules: Vec::new(),
            stream_mode: StreamMode::Message,
            input_echo: false,
            input_immediate: false,
            output_protected: false,
        };
        assert(state@.enabled_modules =~= Map::<Seq<char>, ModuleVersion>::empty());
        state
    }

    pub fn id(&self) -> (id: u32)
        ensures
            id == self@.id,
    {
        self.id
    }

    pub fn stream_mode(&self) -> (mode: StreamMode)
        ensures
            mode == self@.stream_mode,
    {
        self.stream_mode
    }

    /// The position of the entry for `name`, or the number of entries where
    /// there is none.
    fn position(&self, name: &str) -> (at: usize)
        ensures
            at <= self.modules@.len(),
            forall|k: int| 0 <= k < at ==> self.modules@[k].name@ != name@,
            at < self.modules@.len() ==> self.modules@[at as int].name@ == name@,
    {
        let mut at: usize = 0;
        while at < self.modules.len()
            invariant
                at <= self.modules@.len(),
                forall|k: int| 0 <= k < at ==> self.modules@[k].name@ != name@,
            decreases self.modules@.len() - at,
        {
            if str_eq(self.modules[at].name.as_str(), name) {
                return at;
            }
            at += 1;
        }
        at
    }
}

impl HandlerConnection for ConnectionState {
    open spec fn enabled_modules(&self) -> Map<Seq<char>, ModuleVersion> {
        self@.enabled_modules
    }

    fn max_server_message_length(&self) -> (length: usize) {
        MAX_MESSAGE_LENGTH
    }

    fn max_client_message_length(&self) -> (length: usize) {
        MAX_MESSAGE_LENGTH
    }

    fn enable_module(&mut self, name: &str, version: ModuleVersion)
        ensures
            final(self)@ == (ConnectionStateView {
                enabled_modules: old(self)@.enabled_modules.insert(name@, version),
                ..old(self)@
            }),
    {
        let ghost before = self.modules@;
        let at = self.position(name);
        if at < self.modules.len() {
            self.modules[at].version = version;
            proof {
                assert forall|other: Seq<char>|
                    lookup(self.modules@, other) == if other == name@ {
                        Some(version)
                    } else {
                        lookup(before, other)
                    } by {
                    lemma_lookup_update(before, self.modules@, at as int, other);
                }
            }
        } else {
            let entry = ModuleEntry { name: name.to_owned(), version };
            self.modules.push(entry);
            proof {
                assert forall|other: Seq<char>|
                    lookup(self.modules@, other) == if other == name@ {
                        Some(version)
                    } else {
                        lookup(before, other)
                    } by {
                    lemma_lookup_push(before, entry, other);
                    lemma_lookup_first(before, name@, at as int);
                }
            }
        }
        assert(self@.enabled_modules =~= old(self)@.enabled_modules.insert(name@, version));
    }

    fn is_module_enabled(&self, name: &str) -> (version: Option<ModuleVersion>) {
        let at = self.position(name);
        proof {
            lemma_lookup_first(self.modules@, name@, at as int);
        }
        if at < self.modules.len() {
            Some(self.modules[at].version)
        } else {
            None
        }
    }
}

impl TermConnection for ConnectionState {
    open spec fn term(&self) -> TermProperties {
        self@.term
    }

    open spec fn is_stdio(&self) -> bool {
        self@.stream_mode is Stdio
    }

    fn is_input_echo(&self) -> (value: bool) {
        self.input_echo
    }

    fn is_input_immediate(&self) -> (value: bool) {
        self.input_immediate
    }

    fn is_output_protected(&self) -> (value: bool) {
        self.output_protected
    }

    fn is_output_reflow(&self) -> (value: bool)
        ensures
            value,
    {
        true
    }

    fn is_output_wordwrap(&self) -> (value: bool)
        ensures
            value,
    {
        true
    }

    fn set_input_echo(&mut self, value: bool)
        ensures
            final(self)@ == (ConnectionStateView {
                term: TermProperties { input_echo: value, ..old(self)@.term },
                ..old(self)@
            }),
    {
        self.input_echo = value;
    }

    fn set_input_immediate(&mut self, value: bool)
        ensures
            final(self)@ == (ConnectionStateView {
                term: TermProperties { input_immediate: value, ..old(self)@.term },
                ..old(self)@
            }),
    {
        self.input_immediate = value;
    }

    fn set_output_protected(&mut self, value: bool)
        ensures
            final(self)@ == (ConnectionStateView {
                term: TermProperties { output_protected: value, ..old(self)@.term },
                ..old(self)@
            }),
    {
        self.output_protected = value;
    }

    fn convert_to_stdio(&mut self)
        ensures
            final(self)@ == (ConnectionStateView { stream_mode: StreamMode::Stdio, ..old(self)@ }),
    {
        self.stream_mode = StreamMode::Stdio;
    }
}

} // verus!
