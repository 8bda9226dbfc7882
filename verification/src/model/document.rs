//! The document: the sections that the window shows, in their order.

use crate::model::section::{
    ActionView, CursorAction, CursorActionResult, OutcomeView, Section, SectionID, SectionView,
};
use vstd::prelude::*;
use vstd::utf8::*;

verus! {

/// The text that `String::from_utf8_lossy` makes of `bytes`.
pub uninterp spec fn utf8_lossy(bytes: Seq<u8>) -> Seq<char>;

/// Taken from the documentation of `String::from_utf8_lossy`, not proved
/// here: it gives the text of `bytes`, in which each part that is no UTF-8
/// has become a replacement character. Which parts these are is its own
/// matter, so the text only has a name here. Bytes that are UTF-8 are their
/// own text.
#[verifier::external_body]
fn from_utf8_lossy(bytes: &[u8]) -> (text: String)
    ensures
        text@ == utf8_lossy(bytes@),
        valid_utf8(bytes@) ==> encode_utf8(text@) == bytes@,
{
    String::from_utf8_lossy(bytes).into_owned()
}

/// The sections as values.
pub open spec fn views(sections: Seq<Section>) -> Seq<SectionView> {
    Seq::new(sections.len(), |i: int| sections[i]@)
}

/// A document as a value.
pub struct DocumentView {
    pub sections: Seq<SectionView>,
    pub next_section_id: nat,
}

impl DocumentView {
    /// Every section is well-formed, and no two sections have the same
    /// identifier: each got its own from this document.
    pub open spec fn wf(self) -> bool {
        &&& forall|i: int| 0 <= i < self.sections.len() ==> (#[trigger] self.sections[i]).wf()
        &&& forall|i: int|
            0 <= i < self.sections.len() ==> 0 < (#[trigger] self.sections[i]).id
                <= self.next_section_id
        &&& forall|i: int, j: int|
            0 <= i < j < self.sections.len() ==> (#[trigger] self.sections[i]).id != (
            #[trigger] self.sections[j]).id
    }

    /// Whether the last section can take `more` bytes and count one more
    /// change. A document without sections cannot.
    pub open spec fn last_takes(self, more: int) -> bool {
        &&& self.sections.len() > 0
        &&& self.sections.last().text.len() + more <= isize::MAX
        &&& self.sections.last().generation < u64::MAX
    }

    /// The document with `section` in place of its last section.
    pub open spec fn with_last(self, section: SectionView) -> DocumentView {
        DocumentView {
            sections: self.sections.update(self.sections.len() - 1, section),
            ..self
        }
    }

    /// The document after a client wrote `output`: its last section has got
    /// it, if it can take it.
    pub open spec fn append_output(self, output: Seq<u8>) -> DocumentView {
        if self.last_takes(output.len() as int) {
            self.with_last(self.sections.last().append_output(output))
        } else {
            self
        }
    }

    /// Whether `action` can be applied to the last section.
    pub open spec fn last_executes(self, action: ActionView) -> bool {
        match action {
            ActionView::Insert(inserted) => self.last_takes(inserted.len() as int),
            _ => self.last_takes(0),
        }
    }

    /// The document after a key press: its last section has executed the
    /// action, if it can.
    pub open spec fn execute_input_action(self, action: ActionView) -> DocumentView {
        if self.last_executes(action) {
            self.with_last(self.sections.last().executed(action))
        } else {
            self
        }
    }
}

/// This is the main model object that both the window and the I/O side have
/// access to.
pub struct Document {
    sections: Vec<Section>,
    next_section_id: SectionID,
}

impl View for Document {
    type V = DocumentView;

    closed spec fn view(&self) -> DocumentView {
        DocumentView { sections: views(self.sections@), next_section_id: self.next_section_id@ }
    }
}

impl Document {
    pub open spec fn wf(&self) -> bool {
        self@.wf()
    }

    /// A document without sections.
    pub fn new() -> (document: Document)
        ensures
            document.wf(),
            document@ == (DocumentView {
                sections: Seq::<SectionView>::empty(),
                next_section_id: 0,
            }),
    {
        let document = Document { sections: Vec::new(), next_section_id: SectionID::new() };
        assert(document@.sections =~= Seq::<SectionView>::empty());
        document
    }

    /// The sections in their order. The last one takes the output of the
    /// clients and the input of the user.
    pub fn sections(&self) -> (sections: &Vec<Section>)
        ensures
            views(sections@) == self@.sections,
    {
        &self.sections
    }

    /// Puts a section that `make_section` has made behind the others.
    pub fn push_section(&mut self, section: Section)
        requires
            old(self).wf(),
            section.wf(),
            0 < section@.id <= old(self)@.next_section_id,
            forall|i: int|
                0 <= i < old(self)@.sections.len() ==> (#[trigger] old(self)@.sections[i]).id
                    != section@.id,
        ensures
            final(self).wf(),
            final(self)@ == (DocumentView {
                sections: old(self)@.sections.push(section@),
                ..old(self)@
            }),
    {
        self.sections.push(section);
        assert(self@.sections =~= old(self)@.sections.push(section@));
    }

    /// Makes an empty section with an identifier that no section of this
    /// document has. `push_section` puts it into the document.
    pub fn make_section(&mut self) -> (section: Section)
        requires
            old(self)@.next_section_id < u64::MAX,
        ensures
            section.wf(),
            section@ == (SectionView {
                id: old(self)@.next_section_id + 1,
                text: Seq::<u8>::empty(),
                output_cursor: 0,
                input_cursor: 0,
                generation: 0,
            }),
            final(self)@ == (DocumentView {
                next_section_id: old(self)@.next_section_id + 1,
                ..old(self)@
            }),
            old(self).wf() ==> final(self).wf(),
            forall|i: int|
                0 <= i < old(self)@.sections.len() && old(self).wf() ==> (
                #[trigger] old(self)@.sections[i]).id != section@.id,
    {
        self.next_section_id.incr();
        Section::new(self.next_section_id)
    }

    /// Appends output of a client to the last section, which is the one
    /// that takes it. Returns whether there was a section for it.
    pub fn append_output(&mut self, text: &str) -> (appended: bool)
        requires
            old(self).wf(),
        ensures
            final(self).wf(),
            final(self)@ == old(self)@.append_output(encode_utf8(text@)),
            appended == old(self)@.last_takes(encode_utf8(text@).len() as int),
    {
        let count = self.sections.len();
        if count == 0 {
            return false;
        }
        let last = count - 1;
        assert(self@.sections[last as int].wf());
        if !self.sections[last].takes(text.as_bytes().len()) {
            return false;
        }
        let ghost before = self.sections@[last as int]@;
        self.sections[last].append_output(text);
        proof {
            assert(self@.sections =~= old(self)@.sections.update(
                last as int,
                before.append_output(encode_utf8(text@)),
            ));
        }
        true
    }

    /// Appends output of a client as it came from the socket. What is no
    /// UTF-8 in it is shown by replacement characters.
    pub fn append_raw_output(&mut self, bytes: &[u8]) -> (appended: bool)
        requires
            old(self).wf(),
        ensures
            final(self).wf(),
            final(self)@ == old(self)@.append_output(encode_utf8(utf8_lossy(bytes@))),
            appended == old(self)@.last_takes(encode_utf8(utf8_lossy(bytes@)).len() as int),
            valid_utf8(bytes@) ==> final(self)@ == old(self)@.append_output(bytes@),
    {
        let text = from_utf8_lossy(bytes);
        self.append_output(text.as_str())
    }

    /// Applies a key press to the last section, which is the one that takes
    /// the user's input. Without a section nothing changes.
    pub fn execute_input_action(&mut self, action: CursorAction) -> (result: CursorActionResult)
        requires
            old(self).wf(),
        ensures
            final(self).wf(),
            final(self)@ == old(self)@.execute_input_action(action@),
            result@ == (if old(self)@.last_executes(action@) {
                old(self)@.sections.last().outcome(action@)
            } else {
                OutcomeView::Unchanged
            }),
    {
        let count = self.sections.len();
        if count == 0 {
            return CursorActionResult::Unchanged;
        }
        let last = count - 1;
        let more = match &action {
            CursorAction::Insert(text) => text.as_str().as_bytes().len(),
            _ => 0,
        };
        if !self.sections[last].takes(more) {
            return CursorActionResult::Unchanged;
        }
        let ghost before = self.sections@[last as int]@;
        let result = self.sections[last].execute_input_action(action);
        proof {
            assert(self@.sections =~= old(self)@.sections.update(
                last as int,
                before.executed(action@),
            ));
        }
        result
    }
}

} // verus!
