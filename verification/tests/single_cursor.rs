use sixterm::document::paragraph::LayoutStep;
use sixterm::document::{CursorAction, Paragraph, Section};

fn section(text: &str) -> Section {
    Section::new(text.to_string())
}

#[test]
fn cursor_starts_at_the_end_of_the_text() {
    let mut section = section("grüße");
    assert_eq!(section.text(), "grüße");
    assert_eq!(section.cursor(), 7);
    assert!(!section.prepare_rendering());
}

#[test]
fn text_is_inserted_at_the_cursor() {
    let mut section = section("ad");
    assert!(section.execute_cursor_action(CursorAction::GotoPreviousChar));
    assert!(section.execute_cursor_action(CursorAction::Insert("bc".to_string())));
    assert_eq!(section.text(), "abcd");
    assert_eq!(section.cursor(), 3);
    assert!(section.execute_cursor_action(CursorAction::Insert("\n".to_string())));
    assert_eq!(section.text(), "abc\nd");
    assert_eq!(section.cursor(), 4);
}

#[test]
fn single_cursor_moves_over_whole_characters() {
    let mut section = section("a€");
    assert!(section.execute_cursor_action(CursorAction::GotoPreviousChar));
    assert_eq!(section.cursor(), 1);
    assert!(section.execute_cursor_action(CursorAction::GotoPreviousChar));
    assert_eq!(section.cursor(), 0);
    assert!(!section.execute_cursor_action(CursorAction::GotoPreviousChar));
    assert!(!section.execute_cursor_action(CursorAction::DeletePreviousChar));
    assert_eq!(section.cursor(), 0);
    assert!(section.execute_cursor_action(CursorAction::GotoNextChar));
    assert_eq!(section.cursor(), 1);
    assert!(section.execute_cursor_action(CursorAction::GotoNextChar));
    assert_eq!(section.cursor(), 4);
    assert!(!section.execute_cursor_action(CursorAction::GotoNextChar));
    assert!(!section.execute_cursor_action(CursorAction::DeleteNextChar));
    assert_eq!(section.text(), "a€");
}

#[test]
fn single_cursor_deletes_whole_characters() {
    let mut section = section("x😀yß");
    assert!(section.execute_cursor_action(CursorAction::DeletePreviousChar));
    assert_eq!(section.text(), "x😀y");
    assert_eq!(section.cursor(), 6);
    section.execute_cursor_action(CursorAction::GotoPreviousChar);
    section.execute_cursor_action(CursorAction::GotoPreviousChar);
    assert_eq!(section.cursor(), 1);
    assert!(section.execute_cursor_action(CursorAction::DeleteNextChar));
    assert_eq!(section.text(), "xy");
    assert_eq!(section.cursor(), 1);
    assert!(section.execute_cursor_action(CursorAction::DeletePreviousChar));
    assert_eq!(section.text(), "y");
    assert_eq!(section.cursor(), 0);
}

#[test]
fn layout_takes_the_text_after_a_change() {
    let mut section = section("a");
    assert!(!section.prepare_rendering());
    section.execute_cursor_action(CursorAction::GotoPreviousChar);
    assert!(section.prepare_rendering());
    assert!(!section.prepare_rendering());
    // A key press that does nothing is no change.
    section.execute_cursor_action(CursorAction::GotoPreviousChar);
    assert!(!section.prepare_rendering());
    section.execute_cursor_action(CursorAction::Insert(String::new()));
    assert!(section.prepare_rendering());
    assert_eq!(section.text(), "a");
}

#[test]
fn paragraph_gets_its_layout_when_it_is_drawn() {
    let mut paragraph = Paragraph::new("one".to_string());
    assert_eq!(paragraph.text(), "one");
    assert_eq!(paragraph.prepare_rendering(), LayoutStep::Create);
    assert_eq!(paragraph.prepare_rendering(), LayoutStep::Update);
    assert_eq!(paragraph.prepare_rendering(), LayoutStep::Update);
}

#[test]
fn paragraph_loses_its_layout_when_the_text_is_handed_out() {
    let mut paragraph = Paragraph::new("one".to_string());
    paragraph.prepare_rendering();
    paragraph.text_mut().push_str(" two");
    assert_eq!(paragraph.text(), "one two");
    assert_eq!(paragraph.prepare_rendering(), LayoutStep::Create);
    assert_eq!(paragraph.prepare_rendering(), LayoutStep::Update);
    let _ = paragraph.text_mut();
    assert_eq!(paragraph.prepare_rendering(), LayoutStep::Create);
}
