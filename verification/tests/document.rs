use sixterm::model::{CursorAction, CursorActionResult, Document, SectionID};

fn document_with_a_section() -> Document {
    let mut document = Document::new();
    let section = document.make_section();
    document.push_section(section);
    document
}

fn text(document: &Document) -> &str {
    document.sections().last().unwrap().text()
}

#[test]
fn new_document_has_no_sections() {
    let document = Document::new();
    assert!(document.sections().is_empty());
}

#[test]
fn sections_get_identifiers_of_their_own() {
    let mut document = Document::new();
    let first = document.make_section();
    let second = document.make_section();
    let third = document.make_section();
    assert_eq!(first.id().value(), 1);
    assert_eq!(second.id().value(), 2);
    assert_eq!(third.id().value(), 3);
    assert_ne!(first.id(), SectionID::new());
    assert_ne!(first.id(), second.id());
    assert_ne!(second.id(), third.id());
    assert_eq!(first.text(), "");
    assert_eq!(first.generation(), 0);
    document.push_section(first);
    document.push_section(third);
    assert_eq!(document.sections().len(), 2);
    assert_eq!(document.sections()[0].id().value(), 1);
    assert_eq!(document.sections()[1].id().value(), 3);
}

#[test]
fn output_without_a_section_is_dropped() {
    let mut document = Document::new();
    assert!(!document.append_output("lost"));
    assert!(!document.append_raw_output(b"lost"));
    assert!(document.sections().is_empty());
}

#[test]
fn key_press_without_a_section_changes_nothing() {
    let mut document = Document::new();
    assert_eq!(
        document.execute_input_action(CursorAction::Insert("a".to_string())),
        CursorActionResult::Unchanged
    );
    assert!(document.sections().is_empty());
}

#[test]
fn output_goes_to_the_last_section() {
    let mut document = document_with_a_section();
    let section = document.make_section();
    document.push_section(section);
    assert!(document.append_output("hello"));
    assert_eq!(document.sections()[0].text(), "");
    assert_eq!(document.sections()[0].generation(), 0);
    assert_eq!(document.sections()[1].text(), "hello");
    assert_eq!(document.sections()[1].output_cursor(), 5);
    assert_eq!(document.sections()[1].input_cursor(), 5);
    assert_eq!(document.sections()[1].generation(), 1);
}

#[test]
fn key_presses_go_to_the_last_section() {
    let mut document = document_with_a_section();
    let section = document.make_section();
    document.push_section(section);
    assert_eq!(
        document.execute_input_action(CursorAction::Insert("ab".to_string())),
        CursorActionResult::Changed
    );
    assert_eq!(
        document.execute_input_action(CursorAction::DeletePreviousChar),
        CursorActionResult::Changed
    );
    assert_eq!(
        document.execute_input_action(CursorAction::DeleteNextChar),
        CursorActionResult::Unchanged
    );
    assert_eq!(document.sections()[0].text(), "");
    assert_eq!(document.sections()[1].text(), "a");
    assert_eq!(document.sections()[1].generation(), 2);
    assert_eq!(
        document.execute_input_action(CursorAction::Insert("\n".to_string())),
        CursorActionResult::LineCompleted("a\n".to_string())
    );
    assert_eq!(document.sections()[1].text(), "");
}

#[test]
fn child_output_interleaving() {
    let mut document = document_with_a_section();
    document.execute_input_action(CursorAction::Insert("abc".to_string()));
    let generation = document.sections()[0].generation();
    assert!(document.append_raw_output(b"X"));
    let section = &document.sections()[0];
    assert_eq!(section.text(), "Xabc");
    assert_eq!(section.output_cursor(), 1);
    assert_eq!(section.input_cursor(), 4);
    assert!(section.generation() > generation);
}

#[test]
fn raw_output_in_utf8_is_shown_as_it_is() {
    let mut document = document_with_a_section();
    assert!(document.append_raw_output("grüße €\n".as_bytes()));
    assert_eq!(text(&document), "grüße €\n");
}

#[test]
fn raw_output_that_is_no_utf8_is_shown_with_replacements() {
    let mut document = document_with_a_section();
    assert!(document.append_raw_output(b"f\xffo"));
    assert_eq!(text(&document), "f\u{fffd}o");
    assert_eq!(document.sections()[0].output_cursor(), 5);
    // A character that is cut off at the end of what was read.
    assert!(document.append_raw_output(b"\xe2\x82"));
    assert_eq!(text(&document), "f\u{fffd}o\u{fffd}");
    assert!(document.sections()[0].text().is_char_boundary(document.sections()[0].output_cursor()));
}
