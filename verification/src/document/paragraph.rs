//! A paragraph of text whose layout is made when it is first drawn, and
//! made anew after the text was handed out to be changed.

use vstd::prelude::*;

verus! {

/// What is to be done with the layout of a paragraph before it is drawn.
#[derive(PartialEq, Eq, Structural, Clone, Copy, Debug)]
pub enum LayoutStep {
    /// There is none for the text as it stands: make one.
    Create,
    /// There is one: give it the width of the drawing.
    Update,
}

/// A paragraph as a value.
pub struct ParagraphView {
    pub text: Seq<char>,
    /// Whether a layout was made of the text as it stands.
    pub has_layout: bool,
}

pub struct Paragraph {
    text: String,
    has_layout: bool,
}

impl View for Paragraph {
    type V = ParagraphView;

    closed spec fn view(&self) -> ParagraphView {
        ParagraphView { text: self.text@, has_layout: self.has_layout }
    }
}

impl Paragraph {
    /// A paragraph that was not drawn yet.
    pub fn new(text: String) -> (paragraph: Paragraph)
        ensures
            paragraph@ == (ParagraphView { text: text@, has_layout: false }),
    {
        Paragraph { text, has_layout: false }
    }

    pub fn text(&self) -> (text: &String)
        ensures
            text@ == self@.text,
    {
        &self.text
    }

    /// The text, to be changed. The layout is of no use any more.
    pub fn text_mut(&mut self) -> (text: &mut String)
        ensures
            text@ == old(self)@.text,
            final(self)@ == (ParagraphView { text: final(text)@, has_layout: false }),
    {
        self.has_layout = false;
        &mut self.text
    }

    /// Before the paragraph is drawn: says what its layout needs, and
    /// remembers that it then has one.
    pub fn prepare_rendering(&mut self) -> (step: LayoutStep)
        ensures
            step == (if old(self)@.has_layout {
                LayoutStep::Update
            } else {
                LayoutStep::Create
            }),
            final(self)@ == (ParagraphView { has_layout: true, ..old(self)@ }),
    {
        if self.has_layout {
            LayoutStep::Update
        } else {
            self.has_layout = true;
            LayoutStep::Create
        }
    }
}

} // verus!
