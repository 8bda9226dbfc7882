use sixterm::model::{CursorAction, CursorActionResult, Document};
use sixterm::server::connection::{Finish, Transfer};
use sixterm::server::stdio::{Stdio, StdioEvent, StdioStep};

fn document() -> Document {
    let mut document = Document::new();
    let section = document.make_section();
    document.push_section(section);
    document
}

fn step(stdio: &mut Stdio, document: &mut Document, redraw: &mut bool, event: StdioEvent) -> StdioStep {
    assert!(stdio.admits(event));
    stdio.step(document, redraw, event)
}

fn receive(stdio: &mut Stdio, document: &mut Document, redraw: &mut bool, bytes: &[u8]) -> StdioStep {
    stdio.read_room()[..bytes.len()].copy_from_slice(bytes);
    step(stdio, document, redraw, StdioEvent::Received(Transfer::Done(bytes.len())))
}

#[test]
fn new_stdio_has_room_to_read_and_nothing_to_send() {
    let mut stdio = Stdio::new();
    assert_eq!(stdio.read_room().len(), 1024);
    assert_eq!(stdio.read_room(), [0u8; 1024]);
    assert_eq!(stdio.unsent(), b"");
}

#[test]
fn output_of_the_client_goes_into_the_document() {
    let mut stdio = Stdio::new();
    let mut document = document();
    let mut redraw = false;
    assert_eq!(step(&mut stdio, &mut document, &mut redraw, StdioEvent::Polled), StdioStep::Read);
    // Nothing waits to be sent, so the next round starts at once.
    assert_eq!(receive(&mut stdio, &mut document, &mut redraw, b"hello"), StdioStep::Read);
    assert!(redraw);
    assert_eq!(document.sections()[0].text(), "hello");
    assert_eq!(receive(&mut stdio, &mut document, &mut redraw, b", world"), StdioStep::Read);
    assert_eq!(document.sections()[0].text(), "hello, world");
    assert_eq!(
        step(&mut stdio, &mut document, &mut redraw, StdioEvent::Received(Transfer::NotReady)),
        StdioStep::Finished(Finish::NotReady)
    );
    assert_eq!(document.sections()[0].text(), "hello, world");
    assert_eq!(document.sections()[0].generation(), 2);
}

#[test]
fn only_what_was_read_is_output() {
    let mut stdio = Stdio::new();
    let mut document = document();
    let mut redraw = false;
    step(&mut stdio, &mut document, &mut redraw, StdioEvent::Polled);
    receive(&mut stdio, &mut document, &mut redraw, b"first line");
    receive(&mut stdio, &mut document, &mut redraw, b"2nd");
    assert_eq!(document.sections()[0].text(), "first line2nd");
}

#[test]
fn output_stands_in_front_of_what_the_user_is_typing() {
    let mut stdio = Stdio::new();
    let mut document = document();
    let mut redraw = false;
    document.execute_input_action(CursorAction::Insert("abc".to_string()));
    let generation = document.sections()[0].generation();
    step(&mut stdio, &mut document, &mut redraw, StdioEvent::Polled);
    assert!(!redraw);
    receive(&mut stdio, &mut document, &mut redraw, b"X");
    assert!(redraw);
    let section = &document.sections()[0];
    assert_eq!(section.text(), "Xabc");
    assert_eq!(section.output_cursor(), 1);
    assert_eq!(section.input_cursor(), 4);
    assert_eq!(section.generation(), generation + 1);
}

#[test]
fn nothing_read_asks_for_no_redraw() {
    let mut stdio = Stdio::new();
    let mut document = document();
    let mut redraw = false;
    step(&mut stdio, &mut document, &mut redraw, StdioEvent::Polled);
    step(&mut stdio, &mut document, &mut redraw, StdioEvent::Received(Transfer::NotReady));
    assert!(!redraw);
    assert_eq!(document.sections()[0].generation(), 0);
}

#[test]
fn redraw_is_asked_for_even_without_a_section() {
    let mut stdio = Stdio::new();
    let mut document = Document::new();
    let mut redraw = false;
    step(&mut stdio, &mut document, &mut redraw, StdioEvent::Polled);
    receive(&mut stdio, &mut document, &mut redraw, b"lost");
    assert!(redraw);
    assert!(document.sections().is_empty());
}

#[test]
fn end_of_output_ends_the_server() {
    let mut stdio = Stdio::new();
    let mut document = document();
    let mut redraw = false;
    step(&mut stdio, &mut document, &mut redraw, StdioEvent::Polled);
    assert_eq!(
        step(&mut stdio, &mut document, &mut redraw, StdioEvent::Received(Transfer::Done(0))),
        StdioStep::Finished(Finish::Closed { truncated: false })
    );
    assert!(!redraw);
}

#[test]
fn failures_of_the_stdio_socket() {
    let mut stdio = Stdio::new();
    let mut document = document();
    let mut redraw = false;
    assert_eq!(
        step(&mut stdio, &mut document, &mut redraw, StdioEvent::Received(Transfer::Failed)),
        StdioStep::Finished(Finish::Failed)
    );
    assert_eq!(
        step(&mut stdio, &mut document, &mut redraw, StdioEvent::Sent(Transfer::Failed)),
        StdioStep::Finished(Finish::Failed)
    );
}

#[test]
fn line_assembly() {
    let mut stdio = Stdio::new();
    let mut document = document();
    let mut redraw = false;
    let mut results = Vec::new();
    for key in ["a", "b", "\n"] {
        let result = document.execute_input_action(CursorAction::Insert(key.to_string()));
        if let CursorActionResult::LineCompleted(line) = &result {
            stdio.add_user_input(line);
        }
        results.push(result);
    }
    assert_eq!(
        results,
        vec![
            CursorActionResult::Changed,
            CursorActionResult::Changed,
            CursorActionResult::LineCompleted("ab\n".to_string()),
        ]
    );
    assert_eq!(document.sections()[0].text(), "");
    assert_eq!(document.sections()[0].output_cursor(), 0);
    assert_eq!(document.sections()[0].input_cursor(), 0);
    assert_eq!(stdio.unsent(), b"ab\n");
    // The line goes out once the socket takes it.
    step(&mut stdio, &mut document, &mut redraw, StdioEvent::Polled);
    assert_eq!(
        step(&mut stdio, &mut document, &mut redraw, StdioEvent::Received(Transfer::NotReady)),
        StdioStep::Write
    );
    assert_eq!(
        step(&mut stdio, &mut document, &mut redraw, StdioEvent::Sent(Transfer::Done(3))),
        StdioStep::Read
    );
    assert_eq!(stdio.unsent(), b"");
    assert_eq!(
        step(&mut stdio, &mut document, &mut redraw, StdioEvent::Received(Transfer::NotReady)),
        StdioStep::Finished(Finish::NotReady)
    );
}

#[test]
fn user_input_is_sent_in_its_order() {
    let mut stdio = Stdio::new();
    let mut document = document();
    let mut redraw = false;
    stdio.add_user_input("ls\n");
    stdio.add_user_input("");
    stdio.add_user_input("grüße\n");
    assert_eq!(stdio.unsent(), "ls\ngrüße\n".as_bytes());
    step(&mut stdio, &mut document, &mut redraw, StdioEvent::Polled);
    step(&mut stdio, &mut document, &mut redraw, StdioEvent::Received(Transfer::NotReady));
    // The socket takes part of it: the rest waits, and a new round starts.
    assert_eq!(
        step(&mut stdio, &mut document, &mut redraw, StdioEvent::Sent(Transfer::Done(4))),
        StdioStep::Read
    );
    assert_eq!(stdio.unsent(), "rüße\n".as_bytes());
    assert_eq!(
        step(&mut stdio, &mut document, &mut redraw, StdioEvent::Received(Transfer::NotReady)),
        StdioStep::Write
    );
    assert_eq!(
        step(&mut stdio, &mut document, &mut redraw, StdioEvent::Sent(Transfer::NotReady)),
        StdioStep::Finished(Finish::NotReady)
    );
    assert_eq!(stdio.unsent(), "rüße\n".as_bytes());
    assert!(!redraw);
}

#[test]
fn a_write_of_nothing_still_starts_a_new_round() {
    let mut stdio = Stdio::new();
    let mut document = document();
    let mut redraw = false;
    stdio.add_user_input("x");
    step(&mut stdio, &mut document, &mut redraw, StdioEvent::Polled);
    step(&mut stdio, &mut document, &mut redraw, StdioEvent::Received(Transfer::NotReady));
    assert_eq!(
        step(&mut stdio, &mut document, &mut redraw, StdioEvent::Sent(Transfer::Done(0))),
        StdioStep::Read
    );
    assert_eq!(stdio.unsent(), b"x");
}

#[test]
fn reading_and_writing_in_one_round() {
    let mut stdio = Stdio::new();
    let mut document = document();
    let mut redraw = false;
    stdio.add_user_input("in");
    step(&mut stdio, &mut document, &mut redraw, StdioEvent::Polled);
    assert_eq!(receive(&mut stdio, &mut document, &mut redraw, b"out"), StdioStep::Write);
    // The socket does not take the input, but output was read: another round.
    assert_eq!(
        step(&mut stdio, &mut document, &mut redraw, StdioEvent::Sent(Transfer::NotReady)),
        StdioStep::Read
    );
    assert_eq!(
        step(&mut stdio, &mut document, &mut redraw, StdioEvent::Received(Transfer::NotReady)),
        StdioStep::Write
    );
    assert_eq!(
        step(&mut stdio, &mut document, &mut redraw, StdioEvent::Sent(Transfer::NotReady)),
        StdioStep::Finished(Finish::NotReady)
    );
    assert_eq!(document.sections()[0].text(), "out");
    assert_eq!(stdio.unsent(), b"in");
}

#[test]
fn stdio_admits_what_fits() {
    let mut stdio = Stdio::new();
    stdio.add_user_input("abc");
    assert!(stdio.admits(StdioEvent::Polled));
    assert!(stdio.admits(StdioEvent::Received(Transfer::Done(1024))));
    assert!(!stdio.admits(StdioEvent::Received(Transfer::Done(1025))));
    assert!(stdio.admits(StdioEvent::Sent(Transfer::Done(3))));
    assert!(!stdio.admits(StdioEvent::Sent(Transfer::Done(4))));
    assert!(stdio.admits(StdioEvent::Sent(Transfer::NotReady)));
}
