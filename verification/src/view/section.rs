//! The render state of one section of the document.

use crate::model;
use vstd::prelude::*;

verus! {

/// The render state for a `model::Section`. It is kept apart from the model
/// because the layout of the text cannot leave the thread of the window.
#[derive(Debug)]
pub struct Section {
    /// The value of the model's generation that the layout was made from.
    /// Where the model's generation is another one, the model has changed
    /// and the layout must take its text anew.
    layout_generation: u64,
}

impl View for Section {
    type V = nat;

    closed spec fn view(&self) -> nat {
        self.layout_generation as nat
    }
}

impl Section {
    /// The render state of a section whose text was just laid out.
    pub fn new(model: &model::Section) -> (section: Section)
        ensures
            section@ == model@.generation,
    {
        Section { layout_generation: model.generation() }
    }

    /// The generation of the model that the layout was made from.
    pub fn generation(&self) -> (generation: u64)
        ensures
            generation == self@,
    {
        self.layout_generation
    }

    /// Before a section is drawn: says whether the layout must take the
    /// text of the model anew, and remembers that it then has.
    pub fn prepare_rendering(&mut self, model: &model::Section) -> (changed: bool)
        ensures
            changed == (old(self)@ != model@.generation),
            final(self)@ == model@.generation,
    {
        let generation = model.generation();
        if self.layout_generation != generation {
            self.layout_generation = generation;
            true
        } else {
            false
        }
    }
}

} // verus!
