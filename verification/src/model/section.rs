//! A section of the document: one text with the cursor of the child's output
//! and the cursor of the user's input.

use crate::text::{
    cut, end_of_char_at, ends_with_newline, lemma_boundary_of_parts, lemma_cut_boundary,
    lemma_first_scalar_ends_at_next_boundary, lemma_next_boundary, lemma_next_boundary_is,
    lemma_prev_boundary, lemma_splice_boundary, next_boundary, prev_boundary, splice,
    start_of_char_before,
};
use vstd::prelude::*;
use vstd::utf8::*;

verus! {

/// What a key press asks of the section that takes the user's input.
#[derive(PartialEq, Eq, Debug)]
pub enum CursorAction {
    /// Put this text in front of the input cursor.
    Insert(String),
    /// The backspace key.
    DeletePreviousChar,
    /// The delete key.
    DeleteNextChar,
    /// The left arrow key.
    GotoPreviousChar,
    /// The right arrow key.
    GotoNextChar,
}

/// A `CursorAction` with its text as UTF-8 bytes.
pub enum ActionView {
    Insert(Seq<u8>),
    DeletePreviousChar,
    DeleteNextChar,
    GotoPreviousChar,
    GotoNextChar,
}

impl View for CursorAction {
    type V = ActionView;

    open spec fn view(&self) -> ActionView {
        match self {
            CursorAction::Insert(text) => ActionView::Insert(encode_utf8(text@)),
            CursorAction::DeletePreviousChar => ActionView::DeletePreviousChar,
            CursorAction::DeleteNextChar => ActionView::DeleteNextChar,
            CursorAction::GotoPreviousChar => ActionView::GotoPreviousChar,
            CursorAction::GotoNextChar => ActionView::GotoNextChar,
        }
    }
}

impl ActionView {
    /// What the key for the character `ch` asks for: the keys for a new
    /// line insert a line feed, backspace and delete remove a character,
    /// every other control character does nothing, and every other
    /// character is inserted.
    pub open spec fn for_char(ch: char) -> Option<ActionView> {
        if ch == '\n' || ch == '\r' {
            Some(ActionView::Insert(encode_utf8(seq!['\n'])))
        } else if ch == '\u{8}' {
            Some(ActionView::DeletePreviousChar)
        } else if ch == '\u{7f}' {
            Some(ActionView::DeleteNextChar)
        } else if ch as u32 >= 32 {
            Some(ActionView::Insert(encode_utf8(seq![ch])))
        } else {
            None
        }
    }
}

impl CursorAction {
    /// What the key for the character `ch` asks for, if anything.
    pub fn for_char(ch: char) -> (action: Option<CursorAction>)
        ensures
            (match action {
                Some(action) => ActionView::for_char(ch) == Some(action@),
                None => ActionView::for_char(ch) is None,
            }),
    {
        if ch == '\n' || ch == '\r' {
            let mut text = String::new();
            text.push('\n');
            Some(CursorAction::Insert(text))
        } else if ch == '\u{8}' {
            Some(CursorAction::DeletePreviousChar)
        } else if ch == '\u{7f}' {
            Some(CursorAction::DeleteNextChar)
        } else if ch as u32 >= 32 {
            let mut text = String::new();
            text.push(ch);
            Some(CursorAction::Insert(text))
        } else {
            None
        }
    }
}

/// What a `CursorAction` did to its section.
#[derive(PartialEq, Eq, Debug)]
pub enum CursorActionResult {
    /// Neither the text nor a cursor moved.
    Unchanged,
    /// The text or the input cursor changed.
    Changed,
    /// The user finished a line: it left the section and is handed out here,
    /// line feed included.
    LineCompleted(String),
}

/// A `CursorActionResult` with its line as UTF-8 bytes.
pub enum OutcomeView {
    Unchanged,
    Changed,
    LineCompleted(Seq<u8>),
}

impl View for CursorActionResult {
    type V = OutcomeView;

    open spec fn view(&self) -> OutcomeView {
        match self {
            CursorActionResult::Unchanged => OutcomeView::Unchanged,
            CursorActionResult::Changed => OutcomeView::Changed,
            CursorActionResult::LineCompleted(line) => OutcomeView::LineCompleted(
                encode_utf8(line@),
            ),
        }
    }
}

/// Unique identifier for a section. Only `Document::make_section` hands out
/// fresh ones.
#[derive(PartialEq, Eq, Structural, Hash, Clone, Copy, Debug)]
pub struct SectionID(u64);

impl View for SectionID {
    type V = nat;

    closed spec fn view(&self) -> nat {
        self.0 as nat
    }
}

impl SectionID {
    /// The identifier before the first section's.
    pub fn new() -> (id: SectionID)
        ensures
            id@ == 0,
    {
        SectionID(0)
    }

    /// The identifier as a number.
    pub fn value(&self) -> (value: u64)
        ensures
            value == self@,
    {
        self.0
    }

    /// Steps to the next identifier.
    pub fn incr(&mut self)
        requires
            old(self)@ < u64::MAX,
        ensures
            final(self)@ == old(self)@ + 1,
    {
        self.0 += 1;
    }
}

/// A section as a value: its text in UTF-8 bytes, and the two cursors as
/// byte positions in it.
pub struct SectionView {
    pub id: nat,
    pub text: Seq<u8>,
    pub output_cursor: int,
    pub input_cursor: int,
    pub generation: nat,
}

impl SectionView {
    /// The text is UTF-8, the cursors are character boundaries of it, and the
    /// output cursor is not behind the input cursor.
    pub open spec fn wf(self) -> bool {
        &&& valid_utf8(self.text)
        &&& 0 <= self.output_cursor <= self.input_cursor <= self.text.len()
        &&& is_char_boundary(self.text, self.output_cursor)
        &&& is_char_boundary(self.text, self.input_cursor)
    }

    /// The section after the child wrote `output`: it stands in front of the
    /// output cursor, and both cursors moved behind it.
    pub open spec fn append_output(self, output: Seq<u8>) -> SectionView {
        SectionView {
            text: splice(self.text, self.output_cursor, output),
            output_cursor: self.output_cursor + output.len(),
            input_cursor: self.input_cursor + output.len(),
            generation: self.generation + 1,
            ..self
        }
    }

    /// The text with `inserted` in front of the input cursor.
    pub open spec fn typed(self, inserted: Seq<u8>) -> Seq<u8> {
        splice(self.text, self.input_cursor, inserted)
    }

    /// Whether inserting `inserted` finishes a line: the text then ends with
    /// a line feed, and the input cursor stands at its end.
    pub open spec fn completes_line(self, inserted: Seq<u8>) -> bool {
        &&& ends_with_newline(self.typed(inserted))
        &&& self.input_cursor + inserted.len() == self.typed(inserted).len()
    }

    /// Text and input cursor after `action`; the generation is not counted
    /// here.
    pub open spec fn edited(self, action: ActionView) -> SectionView {
        match action {
            ActionView::Insert(inserted) => if self.completes_line(inserted) {
                SectionView {
                    text: self.typed(inserted).subrange(0, self.output_cursor),
                    input_cursor: self.output_cursor,
                    ..self
                }
            } else {
                SectionView {
                    text: self.typed(inserted),
                    input_cursor: self.input_cursor + inserted.len(),
                    ..self
                }
            },
            ActionView::DeletePreviousChar => if self.input_cursor <= self.output_cursor {
                self
            } else {
                SectionView {
                    text: cut(
                        self.text,
                        prev_boundary(self.text, self.input_cursor),
                        self.input_cursor,
                    ),
                    input_cursor: prev_boundary(self.text, self.input_cursor),
                    ..self
                }
            },
            ActionView::GotoPreviousChar => if self.input_cursor <= self.output_cursor {
                self
            } else {
                SectionView { input_cursor: prev_boundary(self.text, self.input_cursor), ..self }
            },
            ActionView::DeleteNextChar => if self.input_cursor == self.text.len() {
                self
            } else {
                SectionView {
                    text: cut(
                        self.text,
                        self.input_cursor,
                        next_boundary(self.text, self.input_cursor),
                    ),
                    ..self
                }
            },
            ActionView::GotoNextChar => if self.input_cursor == self.text.len() {
                self
            } else {
                SectionView { input_cursor: next_boundary(self.text, self.input_cursor), ..self }
            },
        }
    }

    /// What `action` reports.
    pub open spec fn outcome(self, action: ActionView) -> OutcomeView {
        match action {
            ActionView::Insert(inserted) => if self.completes_line(inserted) {
                OutcomeView::LineCompleted(
                    self.typed(inserted).subrange(
                        self.output_cursor,
                        self.typed(inserted).len() as int,
                    ),
                )
            } else {
                OutcomeView::Changed
            },
            ActionView::DeletePreviousChar | ActionView::GotoPreviousChar => if self.input_cursor
                <= self.output_cursor {
                OutcomeView::Unchanged
            } else {
                OutcomeView::Changed
            },
            ActionView::DeleteNextChar | ActionView::GotoNextChar => if self.input_cursor
                == self.text.len() {
                OutcomeView::Unchanged
            } else {
                OutcomeView::Changed
            },
        }
    }

    /// The section after `action`: as `edited`, with the generation counted
    /// up unless the action reports `Unchanged`.
    pub open spec fn executed(self, action: ActionView) -> SectionView {
        if self.outcome(action) is Unchanged {
            self.edited(action)
        } else {
            SectionView { generation: self.generation + 1, ..self.edited(action) }
        }
    }
}

impl SectionView {
    /// The section after `actions`, one after the other.
    pub open spec fn executed_all(self, actions: Seq<ActionView>) -> SectionView
        decreases actions.len(),
    {
        if actions.len() == 0 {
            self
        } else {
            self.executed_all(actions.drop_last()).executed(actions.last())
        }
    }
}

/// The child's output keeps the section well-formed, leaves the distance of
/// the cursors as it is, and counts as a change.
pub proof fn lemma_append_output(section: SectionView, output: Seq<u8>)
    requires
        section.wf(),
        valid_utf8(output),
    ensures
        section.append_output(output).wf(),
        section.append_output(output).input_cursor - section.append_output(output).output_cursor
            == section.input_cursor - section.output_cursor,
        section.append_output(output).generation > section.generation,
        section.append_output(output).text.subrange(
            section.output_cursor + output.len(),
            (section.text.len() + output.len()) as int,
        ) == section.text.subrange(section.output_cursor, section.text.len() as int),
{
    let at = section.output_cursor;
    is_char_boundary_start_end_of_seq(output);
    lemma_splice_boundary(section.text, at, output, at + output.len());
    lemma_splice_boundary(section.text, at, output, section.input_cursor + output.len());
}

/// A key press keeps the section well-formed: the cursors stay character
/// boundaries of the text, in their order. It touches neither the output
/// cursor nor the text in front of it, and the generation tells whether it
/// did anything.
pub proof fn lemma_executed(section: SectionView, action: ActionView)
    requires
        section.wf(),
        action matches ActionView::Insert(inserted) ==> valid_utf8(inserted),
    ensures
        section.executed(action).wf(),
        section.executed(action).output_cursor == section.output_cursor,
        section.executed(action).text.subrange(0, section.output_cursor) == section.text.subrange(
            0,
            section.output_cursor,
        ),
        section.outcome(action) is Unchanged ==> section.executed(action) == section,
        !(section.outcome(action) is Unchanged) ==> section.executed(action).generation
            == section.generation + 1,
{
    let text = section.text;
    let input = section.input_cursor;
    let output = section.output_cursor;
    match action {
        ActionView::Insert(inserted) => {
            is_char_boundary_start_end_of_seq(inserted);
            lemma_splice_boundary(text, input, inserted, input + inserted.len());
            lemma_splice_boundary(text, input, inserted, output);
            if section.completes_line(inserted) {
                lemma_boundary_of_parts(section.typed(inserted), output, output);
            }
        },
        ActionView::DeletePreviousChar => {
            if input > output {
                lemma_prev_boundary(text, input);
                let start = prev_boundary(text, input);
                lemma_cut_boundary(text, start, input, start);
                lemma_cut_boundary(text, start, input, output);
            }
        },
        ActionView::GotoPreviousChar => {
            if input > output {
                lemma_prev_boundary(text, input);
            }
        },
        ActionView::DeleteNextChar => {
            if input != text.len() {
                lemma_next_boundary(text, input);
                let end = next_boundary(text, input);
                lemma_cut_boundary(text, input, end, input);
                lemma_cut_boundary(text, input, end, output);
            }
        },
        ActionView::GotoNextChar => {
            if input != text.len() {
                lemma_next_boundary(text, input);
            }
        },
    }
}

/// Whatever the user does, and in whatever order: the section stays
/// well-formed, the output cursor and the text in front of it stay as they
/// are, and the generation never goes back.
pub proof fn lemma_executed_all(section: SectionView, actions: Seq<ActionView>)
    requires
        section.wf(),
        forall|i: int|
            0 <= i < actions.len() ==> (#[trigger] actions[i] matches ActionView::Insert(inserted)
                ==> valid_utf8(inserted)),
    ensures
        section.executed_all(actions).wf(),
        section.executed_all(actions).output_cursor == section.output_cursor,
        section.executed_all(actions).text.subrange(0, section.output_cursor)
            == section.text.subrange(0, section.output_cursor),
        section.executed_all(actions).generation >= section.generation,
    decreases actions.len(),
{
    if actions.len() > 0 {
        let before = actions.drop_last();
        lemma_executed_all(section, before);
        lemma_executed(section.executed_all(before), actions.last());
    }
}

/// A section is some amount of text that appears on screen, starting at the
/// beginning of a line and ending at the end of a line.
pub struct Section {
    id: SectionID,
    text: String,
    /// Byte position in `text` where output of client programs is put.
    /// Everything before it is client output, everything after it is user
    /// input that no client program has got yet.
    output_cursor: usize,
    /// Byte position in `text` where user input is put. It never stands
    /// before `output_cursor`.
    input_cursor: usize,
    /// Counts the changes of this section. The view compares it with the
    /// value it saw last to know when to lay the text out again.
    generation: u64,
}

impl View for Section {
    type V = SectionView;

    closed spec fn view(&self) -> SectionView {
        SectionView {
            id: self.id@,
            text: encode_utf8(self.text@),
            output_cursor: self.output_cursor as int,
            input_cursor: self.input_cursor as int,
            generation: self.generation as nat,
        }
    }
}

impl Section {
    /// What every section holds: see `SectionView::wf`.
    pub open spec fn wf(&self) -> bool {
        self@.wf()
    }

    /// An empty section. Use `Document::make_section` instead.
    pub fn new(id: SectionID) -> (section: Section)
        ensures
            section.wf(),
            section@ == (SectionView {
                id: id@,
                text: Seq::<u8>::empty(),
                output_cursor: 0,
                input_cursor: 0,
                generation: 0,
            }),
    {
        Section { id, text: String::new(), output_cursor: 0, input_cursor: 0, generation: 0 }
    }

    pub fn id(&self) -> (id: SectionID)
        ensures
            id@ == self@.id,
    {
        self.id
    }

    pub fn text(&self) -> (text: &str)
        ensures
            encode_utf8(text@) == self@.text,
    {
        self.text.as_str()
    }

    pub fn output_cursor(&self) -> (cursor: usize)
        ensures
            cursor == self@.output_cursor,
    {
        self.output_cursor
    }

    pub fn input_cursor(&self) -> (cursor: usize)
        ensures
            cursor == self@.input_cursor,
    {
        self.input_cursor
    }

    pub fn generation(&self) -> (generation: u64)
        ensures
            generation == self@.generation,
    {
        self.generation
    }

    /// Whether the text can grow by `more` bytes, and the generation can be
    /// counted up once more.
    pub fn takes(&self, more: usize) -> (fits: bool)
        ensures
            fits == (self@.text.len() + more <= isize::MAX && self@.generation < u64::MAX),
    {
        let used = self.text.as_str().as_bytes().len();
        let limit = isize::MAX as usize;
        used <= limit && more <= limit - used && self.generation < u64::MAX
    }

    /// Appends additional output to this section: in front of the output
    /// cursor, so that input which the user has typed and not yet sent stays
    /// behind it.
    pub fn append_output(&mut self, text: &str)
        requires
            old(self).wf(),
            old(self)@.text.len() + encode_utf8(text@).len() <= isize::MAX,
            old(self)@.generation < u64::MAX,
        ensures
            final(self).wf(),
            final(self)@ == old(self)@.append_output(encode_utf8(text@)),
            final(self)@.input_cursor - final(self)@.output_cursor == old(self)@.input_cursor
                - old(self)@.output_cursor,
            final(self)@.generation > old(self)@.generation,
    {
        let at = self.output_cursor;
        let len = text.len();
        proof {
            let bytes = encode_utf8(self.text@);
            let output = encode_utf8(text@);
            encode_utf8_valid_utf8(text@);
            is_char_boundary_start_end_of_seq(output);
            lemma_splice_boundary(bytes, at as int, output, at + output.len());
            lemma_splice_boundary(bytes, at as int, output, self.input_cursor + output.len());
        }
        self.text.insert_str(at, text);
        self.input_cursor += len;
        self.output_cursor += len;
        self.generation += 1;
    }

    /// Applies a key press of the user behind the output cursor, and counts
    /// the generation up where anything changed.
    pub fn execute_input_action(&mut self, action: CursorAction) -> (result: CursorActionResult)
        requires
            old(self).wf(),
            !(old(self)@.outcome(action@) is Unchanged) ==> old(self)@.generation < u64::MAX,
            action@ matches ActionView::Insert(inserted) ==> old(self)@.text.len() + inserted.len()
                <= isize::MAX,
        ensures
            final(self).wf(),
            final(self)@ == old(self)@.executed(action@),
            result@ == old(self)@.outcome(action@),
            !(result is Unchanged) ==> final(self)@.generation > old(self)@.generation,
            result is Unchanged ==> final(self)@ == old(self)@,
            final(self)@.output_cursor == old(self)@.output_cursor,
            final(self)@.text.subrange(0, final(self)@.output_cursor) == old(self)@.text.subrange(
                0,
                old(self)@.output_cursor,
            ),
            action is DeletePreviousChar && old(self)@.input_cursor == old(self)@.output_cursor
                ==> result is Unchanged && final(self)@.text == old(self)@.text,
    {
        let result = self.execute_input_action_priv(action);
        match result {
            CursorActionResult::Unchanged => {},
            _ => {
                self.generation += 1;
            },
        }
        result
    }

    fn execute_input_action_priv(&mut self, action: CursorAction) -> (result: CursorActionResult)
        requires
            old(self).wf(),
            action@ matches ActionView::Insert(inserted) ==> old(self)@.text.len() + inserted.len()
                <= isize::MAX,
        ensures
            final(self).wf(),
            final(self)@ == old(self)@.edited(action@),
            result@ == old(self)@.outcome(action@),
            result is Unchanged ==> final(self)@ == old(self)@,
            final(self)@.text.subrange(0, final(self)@.output_cursor) == old(self)@.text.subrange(
                0,
                old(self)@.output_cursor,
            ),
    {
        let ghost before = self@;
        match action {
            CursorAction::Insert(text) => {
                let at = self.input_cursor;
                let inserted = text.as_str();
                let len = inserted.len();
                proof {
                    encode_utf8_valid_utf8(text@);
                    is_char_boundary_start_end_of_seq(encode_utf8(text@));
                    lemma_splice_boundary(
                        before.text,
                        at as int,
                        encode_utf8(text@),
                        at + encode_utf8(text@).len(),
                    );
                    lemma_splice_boundary(
                        before.text,
                        at as int,
                        encode_utf8(text@),
                        before.output_cursor,
                    );
                }
                self.text.insert_str(at, inserted);
                self.input_cursor = at + len;
                let bytes = self.text.as_str().as_bytes();
                let end = bytes.len();
                if end > 0 && bytes[end - 1] == 0x0a && self.input_cursor == end {
                    let input = self.text.split_off(self.output_cursor);
                    self.input_cursor = self.output_cursor;
                    proof {
                        encode_utf8_valid_utf8(self.text@);
                        is_char_boundary_start_end_of_seq(encode_utf8(self.text@));
                    }
                    CursorActionResult::LineCompleted(input)
                } else {
                    CursorActionResult::Changed
                }
            },
            CursorAction::DeletePreviousChar => {
                if self.input_cursor <= self.output_cursor {
                    return CursorActionResult::Unchanged;
                }
                let start = self.start_of_previous_char();
                proof {
                    lemma_first_scalar_ends_at_next_boundary(before.text, start as int);
                    lemma_next_boundary_is(before.text, start as int, before.input_cursor);
                    lemma_cut_boundary(
                        before.text,
                        start as int,
                        before.input_cursor,
                        start as int,
                    );
                    lemma_cut_boundary(
                        before.text,
                        start as int,
                        before.input_cursor,
                        before.output_cursor,
                    );
                }
                self.text.remove(start);
                self.input_cursor = start;
                CursorActionResult::Changed
            },
            CursorAction::GotoPreviousChar => {
                if self.input_cursor <= self.output_cursor {
                    return CursorActionResult::Unchanged;
                }
                let start = self.start_of_previous_char();
                self.input_cursor = start;
                CursorActionResult::Changed
            },
            CursorAction::DeleteNextChar => {
                let end = self.text.as_str().as_bytes().len();
                if self.input_cursor == end {
                    return CursorActionResult::Unchanged;
                }
                let at = self.input_cursor;
                proof {
                    lemma_first_scalar_ends_at_next_boundary(before.text, at as int);
                    let next = next_boundary(before.text, at as int);
                    lemma_cut_boundary(before.text, at as int, next, at as int);
                    lemma_cut_boundary(before.text, at as int, next, before.output_cursor);
                }
                self.text.remove(at);
                CursorActionResult::Changed
            },
            CursorAction::GotoNextChar => {
                let end = self.text.as_str().as_bytes().len();
                if self.input_cursor == end {
                    return CursorActionResult::Unchanged;
                }
                let next = end_of_char_at(self.text.as_str(), self.input_cursor);
                self.input_cursor = next;
                CursorActionResult::Changed
            },
        }
    }

    /// Searches backwards from the input cursor for the start of the
    /// character in front of it.
    fn start_of_previous_char(&self) -> (start: usize)
        requires
            self.wf(),
            self@.output_cursor < self@.input_cursor,
        ensures
            start == prev_boundary(self@.text, self@.input_cursor),
            self@.output_cursor <= start < self@.input_cursor,
            is_char_boundary(self@.text, start as int),
            forall|k: int| start < k < self@.input_cursor ==> !is_char_boundary(self@.text, k),
    {
        let start = start_of_char_before(self.text.as_str(), self.input_cursor);
        start
    }
}

} // verus!
