//! A section of text with one cursor, which the user moves and edits at.

pub use crate::model::section::CursorAction;

use crate::model::section::ActionView;
use crate::text::{
    cut, end_of_char_at, lemma_cut_boundary, lemma_first_scalar_ends_at_next_boundary,
    lemma_next_boundary_is, lemma_splice_boundary, next_boundary, prev_boundary, splice,
    start_of_char_before,
};
use vstd::prelude::*;
use vstd::utf8::*;

verus! {

/// A section as a value: its text in UTF-8 bytes, and the cursor as a byte
/// position in it.
pub struct SectionView {
    pub text: Seq<u8>,
    pub cursor: int,
    /// Whether the text or the cursor has changed since the section was
    /// prepared for drawing.
    pub text_changed: bool,
}

impl SectionView {
    /// The text is UTF-8, and the cursor is a character boundary of it.
    pub open spec fn wf(self) -> bool {
        &&& valid_utf8(self.text)
        &&& is_char_boundary(self.text, self.cursor)
    }

    /// Whether `action` does anything: moving and deleting need a character
    /// on their side of the cursor.
    pub open spec fn executes(self, action: ActionView) -> bool {
        match action {
            ActionView::Insert(_) => true,
            ActionView::DeletePreviousChar | ActionView::GotoPreviousChar => self.cursor != 0,
            ActionView::DeleteNextChar | ActionView::GotoNextChar => self.cursor != self.text.len(),
        }
    }

    /// The section after `action`.
    pub open spec fn executed(self, action: ActionView) -> SectionView {
        if !self.executes(action) {
            self
        } else {
            match action {
                ActionView::Insert(inserted) => SectionView {
                    text: splice(self.text, self.cursor, inserted),
                    cursor: self.cursor + inserted.len(),
                    text_changed: true,
                },
                ActionView::DeletePreviousChar => SectionView {
                    text: cut(self.text, prev_boundary(self.text, self.cursor), self.cursor),
                    cursor: prev_boundary(self.text, self.cursor),
                    text_changed: true,
                },
                ActionView::GotoPreviousChar => SectionView {
                    cursor: prev_boundary(self.text, self.cursor),
                    text_changed: true,
                    ..self
                },
                ActionView::DeleteNextChar => SectionView {
                    text: cut(self.text, self.cursor, next_boundary(self.text, self.cursor)),
                    text_changed: true,
                    ..self
                },
                ActionView::GotoNextChar => SectionView {
                    cursor: next_boundary(self.text, self.cursor),
                    text_changed: true,
                    ..self
                },
            }
        }
    }
}

/// A section is some amount of text that appears on screen, starting at the
/// beginning of a line and ending at the end of a line.
pub struct Section {
    text: String,
    text_changed: bool,
    cursor: usize,
}

impl View for Section {
    type V = SectionView;

    closed spec fn view(&self) -> SectionView {
        SectionView {
            text: encode_utf8(self.text@),
            cursor: self.cursor as int,
            text_changed: self.text_changed,
        }
    }
}

impl Section {
    /// What every section holds: see `SectionView::wf`.
    pub open spec fn wf(&self) -> bool {
        self@.wf()
    }

    /// A section with this text, and the cursor at its end.
    pub fn new(text: String) -> (section: Section)
        ensures
            section.wf(),
            section@ == (SectionView {
                text: encode_utf8(text@),
                cursor: encode_utf8(text@).len() as int,
                text_changed: false,
            }),
    {
        let len = text.as_str().as_bytes().len();
        proof {
            encode_utf8_valid_utf8(text@);
            is_char_boundary_start_end_of_seq(encode_utf8(text@));
        }
        Section { text, text_changed: false, cursor: len }
    }

    pub fn text(&self) -> (text: &str)
        ensures
            encode_utf8(text@) == self@.text,
    {
        self.text.as_str()
    }

    pub fn cursor(&self) -> (cursor: usize)
        ensures
            cursor == self@.cursor,
    {
        self.cursor
    }

    /// Applies a key press at the cursor. Returns whether it did anything;
    /// the section then counts as changed.
    pub fn execute_cursor_action(&mut self, action: CursorAction) -> (changed: bool)
        requires
            old(self).wf(),
            action@ matches ActionView::Insert(inserted) ==> old(self)@.text.len() + inserted.len()
                <= isize::MAX,
        ensures
            final(self).wf(),
            changed == old(self)@.executes(action@),
            final(self)@ == old(self)@.executed(action@),
    {
        let ghost before = self@;
        match action {
            CursorAction::Insert(text) => {
                let at = self.cursor;
                let inserted = text.as_str();
                let len = inserted.len();
                proof {
                    encode_utf8_valid_utf8(text@);
                    is_char_boundary_start_end_of_seq(encode_utf8(text@));
                    lemma_splice_boundary(
                        before.text,
                        at as int,
                        encode_utf8(text@),
                        at + encode_utf8(text@).len(),
                    );
                }
                self.text.insert_str(at, inserted);
                self.cursor = at + len;
            },
            CursorAction::DeletePreviousChar => {
                if self.cursor == 0 {
                    return false;
                }
                let start = start_of_char_before(self.text.as_str(), self.cursor);
                proof {
                    lemma_first_scalar_ends_at_next_boundary(before.text, start as int);
                    lemma_next_boundary_is(before.text, start as int, before.cursor);
                    lemma_cut_boundary(before.text, start as int, before.cursor, start as int);
                }
                self.text.remove(start);
                self.cursor = start;
            },
            CursorAction::GotoPreviousChar => {
                if self.cursor == 0 {
                    return false;
                }
                self.cursor = start_of_char_before(self.text.as_str(), self.cursor);
            },
            CursorAction::DeleteNextChar => {
                if self.cursor == self.text.as_str().as_bytes().len() {
                    return false;
                }
                let at = self.cursor;
                proof {
                    lemma_first_scalar_ends_at_next_boundary(before.text, at as int);
                    lemma_cut_boundary(
                        before.text,
                        at as int,
                        next_boundary(before.text, at as int),
                        at as int,
                    );
                }
                self.text.remove(at);
            },
            CursorAction::GotoNextChar => {
                if self.cursor == self.text.as_str().as_bytes().len() {
                    return false;
                }
                self.cursor = end_of_char_at(self.text.as_str(), self.cursor);
            },
        }
        self.text_changed = true;
        true
    }

    /// Before the section is drawn: says whether the layout must take the
    /// text anew, and remembers that it then has.
    pub fn prepare_rendering(&mut self) -> (changed: bool)
        ensures
            changed == old(self)@.text_changed,
            final(self)@ == (SectionView { text_changed: false, ..old(self)@ }),
    {
        let changed = self.text_changed;
        self.text_changed = false;
        changed
    }
}

} // verus!
