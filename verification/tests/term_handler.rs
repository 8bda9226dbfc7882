use sixterm::server::connection_state::{
    ConnectionState, HandlerConnection, ModuleVersion, StreamMode,
};
use sixterm::server::message::{Message, Reply};
use sixterm::server::term_handler::{
    decode_bool, encode_bool, Handled, TermConnection, TermHandler, TermProperty,
};

fn message(module: &str, name: &str) -> Message {
    Message::new(module.to_string(), name.to_string(), Vec::new())
}

fn handler() -> TermHandler<()> {
    TermHandler { inner: () }
}

fn with_core(major: u16) -> ConnectionState {
    let mut conn = ConnectionState::new(3);
    conn.enable_module("core", ModuleVersion { major, minor: 0 });
    conn
}

#[test]
fn truth_values_are_t_and_f() {
    assert_eq!(encode_bool(true), b't');
    assert_eq!(encode_bool(false), b'f');
    assert_eq!(decode_bool(b"t"), Some(true));
    assert_eq!(decode_bool(b"f"), Some(false));
    assert_eq!(decode_bool(&[encode_bool(true)]), Some(true));
    assert_eq!(decode_bool(&[encode_bool(false)]), Some(false));
}

#[test]
fn other_bytes_are_no_truth_value() {
    assert_eq!(decode_bool(b""), None);
    assert_eq!(decode_bool(b"T"), None);
    assert_eq!(decode_bool(b"true"), None);
    assert_eq!(decode_bool(b"tf"), None);
    assert_eq!(decode_bool(b"1"), None);
    assert_eq!(decode_bool(b" t"), None);
}

#[test]
fn property_names() {
    assert_eq!(TermProperty::from_name("term.input-echo"), Some(TermProperty::InputEcho));
    assert_eq!(
        TermProperty::from_name("term.input-immediate"),
        Some(TermProperty::InputImmediate)
    );
    assert_eq!(
        TermProperty::from_name("term.output-protected"),
        Some(TermProperty::OutputProtected)
    );
    assert_eq!(TermProperty::from_name("term.output-reflow"), Some(TermProperty::OutputReflow));
    assert_eq!(
        TermProperty::from_name("term.output-wordwrap"),
        Some(TermProperty::OutputWordwrap)
    );
    assert_eq!(TermProperty::from_name("term.input-ech"), None);
    assert_eq!(TermProperty::from_name("term.input-echo "), None);
    assert_eq!(TermProperty::from_name("core.input-echo"), None);
    assert_eq!(TermProperty::from_name(""), None);
}

#[test]
fn make_stdio_needs_core_1() {
    let mut conn = ConnectionState::new(3);
    let msg = message("core", "make-stdio");
    assert_eq!(handler().handle(&msg, &mut conn), Handled::Forward);
    assert_eq!(conn.stream_mode(), StreamMode::Message);

    let mut conn = with_core(2);
    assert_eq!(handler().handle(&msg, &mut conn), Handled::Forward);
    assert_eq!(conn.stream_mode(), StreamMode::Message);
}

#[test]
fn make_stdio_turns_the_connection_into_stdio() {
    let mut conn = with_core(1);
    let msg = message("core", "make-stdio");
    assert_eq!(handler().handle(&msg, &mut conn), Handled::Reply(Reply::IsStdio));
    assert_eq!(conn.stream_mode(), StreamMode::Stdio);
    assert_eq!(conn.id(), 3);
    assert_eq!(conn.is_module_enabled("core"), Some(ModuleVersion { major: 1, minor: 0 }));
    assert_eq!(Reply::IsStdio.message_type(), "core.is_stdio");
    // There is no way back.
    assert_eq!(handler().handle(&msg, &mut conn), Handled::Reply(Reply::IsStdio));
    assert_eq!(conn.stream_mode(), StreamMode::Stdio);
}

#[test]
fn other_messages_are_forwarded() {
    let mut conn = with_core(1);
    for (module, name) in [
        ("core", "have"),
        ("core", "make-stdi"),
        ("term", "make-stdio"),
        ("", "make-stdio"),
        ("core", ""),
    ] {
        assert_eq!(handler().handle(&message(module, name), &mut conn), Handled::Forward);
        assert_eq!(conn.stream_mode(), StreamMode::Message);
    }
}

#[test]
fn term_can_be_used_once_core_is_enabled() {
    let conn = ConnectionState::new(1);
    assert_eq!(handler().can_use_module("term", 1, &conn), Handled::Reply(None));
    let conn = with_core(1);
    assert_eq!(handler().can_use_module("term", 1, &conn), Handled::Reply(Some(0)));
    let conn = with_core(7);
    assert_eq!(handler().can_use_module("term", 1, &conn), Handled::Reply(Some(0)));
}

#[test]
fn other_modules_are_forwarded() {
    let conn = with_core(1);
    assert_eq!(handler().can_use_module("term", 2, &conn), Handled::Forward);
    assert_eq!(handler().can_use_module("term", 0, &conn), Handled::Forward);
    assert_eq!(handler().can_use_module("core", 1, &conn), Handled::Forward);
    assert_eq!(handler().can_use_module("", 1, &conn), Handled::Forward);
}

#[test]
fn setting_and_getting_input_echo() {
    let mut conn = ConnectionState::new(1);
    assert_eq!(
        handler().handle_property("term.input-echo", Some(b"t"), &mut conn),
        Handled::Reply(true)
    );
    assert!(conn.is_input_echo());
    assert_eq!(
        handler().handle_property("term.input-echo", None, &mut conn),
        Handled::Reply(true)
    );
    assert_eq!(
        handler().handle_property("term.input-echo", Some(b"f"), &mut conn),
        Handled::Reply(false)
    );
    assert!(!conn.is_input_echo());
}

#[test]
fn properties_have_their_defaults() {
    let mut conn = ConnectionState::new(1);
    assert!(!conn.is_input_echo());
    assert!(!conn.is_input_immediate());
    assert!(!conn.is_output_protected());
    assert!(conn.is_output_reflow());
    assert!(conn.is_output_wordwrap());
    for (name, value) in [
        ("term.input-echo", false),
        ("term.input-immediate", false),
        ("term.output-protected", false),
        ("term.output-reflow", true),
        ("term.output-wordwrap", true),
    ] {
        assert_eq!(handler().handle_property(name, None, &mut conn), Handled::Reply(value));
    }
}

#[test]
fn each_property_is_set_by_itself() {
    let mut conn = ConnectionState::new(1);
    assert_eq!(
        handler().handle_property("term.input-immediate", Some(b"t"), &mut conn),
        Handled::Reply(true)
    );
    assert!(!conn.is_input_echo());
    assert!(conn.is_input_immediate());
    assert!(!conn.is_output_protected());
    assert_eq!(
        handler().handle_property("term.output-protected", Some(b"t"), &mut conn),
        Handled::Reply(true)
    );
    assert!(!conn.is_input_echo());
    assert!(conn.is_input_immediate());
    assert!(conn.is_output_protected());
    assert_eq!(conn.stream_mode(), StreamMode::Message);
    assert_eq!(conn.id(), 1);
}

#[test]
fn a_value_that_is_no_truth_value_changes_nothing() {
    let mut conn = ConnectionState::new(1);
    conn.set_input_echo(true);
    for value in [&b"yes"[..], &b""[..], &b"F"[..], &b"0"[..]] {
        assert_eq!(
            handler().handle_property("term.input-echo", Some(value), &mut conn),
            Handled::Reply(true)
        );
        assert!(conn.is_input_echo());
    }
}

#[test]
fn reflow_and_wordwrap_cannot_be_set() {
    let mut conn = ConnectionState::new(1);
    assert_eq!(
        handler().handle_property("term.output-reflow", Some(b"f"), &mut conn),
        Handled::Reply(true)
    );
    assert_eq!(
        handler().handle_property("term.output-wordwrap", Some(b"f"), &mut conn),
        Handled::Reply(true)
    );
    assert!(conn.is_output_reflow());
    assert!(conn.is_output_wordwrap());
}

#[test]
fn other_properties_are_forwarded() {
    let mut conn = ConnectionState::new(1);
    assert_eq!(
        handler().handle_property("core.server-msg-bytes-max", None, &mut conn),
        Handled::Forward
    );
    assert_eq!(
        handler().handle_property("term.input-echoes", Some(b"t"), &mut conn),
        Handled::Forward
    );
    assert!(!conn.is_input_echo());
}

#[test]
fn modules_are_kept_by_name() {
    let mut conn = ConnectionState::new(9);
    assert_eq!(conn.is_module_enabled("core"), None);
    conn.enable_module("core", ModuleVersion { major: 1, minor: 0 });
    conn.enable_module("term", ModuleVersion { major: 1, minor: 2 });
    assert_eq!(conn.is_module_enabled("core"), Some(ModuleVersion { major: 1, minor: 0 }));
    assert_eq!(conn.is_module_enabled("term"), Some(ModuleVersion { major: 1, minor: 2 }));
    assert_eq!(conn.is_module_enabled("ter"), None);
    assert_eq!(conn.is_module_enabled("terms"), None);
    conn.enable_module("core", ModuleVersion { major: 2, minor: 5 });
    assert_eq!(conn.is_module_enabled("core"), Some(ModuleVersion { major: 2, minor: 5 }));
    assert_eq!(conn.is_module_enabled("term"), Some(ModuleVersion { major: 1, minor: 2 }));
    assert_eq!(conn.id(), 9);
}

#[test]
fn messages_are_at_most_1024_bytes() {
    let conn = ConnectionState::new(1);
    assert_eq!(conn.max_server_message_length(), 1024);
    assert_eq!(conn.max_client_message_length(), 1024);
}

#[test]
fn a_message_keeps_what_it_was_made_of() {
    let msg = Message::new(
        "core".to_string(),
        "set".to_string(),
        vec![b"term.input-echo".to_vec(), b"t".to_vec()],
    );
    assert_eq!(msg.message_type(), ("core", "set"));
    assert_eq!(msg.arguments().len(), 2);
    assert_eq!(msg.arguments()[0], b"term.input-echo");
    assert_eq!(msg.arguments()[1], b"t");
    assert_eq!(Reply::Nope.message_type(), "nope");
}
