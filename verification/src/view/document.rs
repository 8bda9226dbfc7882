//! The render state of the document: which sections have a layout, and of
//! which generation.

use crate::model;
use crate::model::section::{SectionID, SectionView};
use crate::view::section::Section;
use std::collections::HashMap;
use vstd::prelude::*;

verus! {

broadcast use vstd::std_specs::hash::group_hash_axioms;

/// What is to be done with the layout of a section before it is drawn.
#[derive(PartialEq, Eq, Structural, Clone, Copy, Debug)]
pub enum Layout {
    /// The section is drawn for the first time: make its layout.
    Create,
    /// The section has changed since it was drawn: give the layout its
    /// text.
    Update,
    /// The layout is that of the text.
    Keep,
}

/// One section in a drawing of the document.
#[derive(PartialEq, Eq, Debug)]
pub struct Placement {
    /// The section.
    pub id: SectionID,
    /// What its layout needs.
    pub layout: Layout,
    /// Whether the cursor is drawn in it.
    pub show_cursor: bool,
}

/// What the layout of `section` needs, where `layouts` tells the generation
/// of the layout of each section that has one.
pub open spec fn layout_for(layouts: Map<nat, nat>, section: SectionView) -> Layout {
    if !layouts.contains_key(section.id) {
        Layout::Create
    } else if layouts[section.id] != section.generation {
        Layout::Update
    } else {
        Layout::Keep
    }
}

/// The layouts after `sections` were drawn: each of them has one, of its
/// generation.
pub open spec fn rendered(layouts: Map<nat, nat>, sections: Seq<SectionView>) -> Map<nat, nat>
    decreases sections.len(),
{
    if sections.len() == 0 {
        layouts
    } else {
        rendered(layouts, sections.drop_last()).insert(
            sections.last().id,
            sections.last().generation,
        )
    }
}

/// Drawing sections leaves the layouts of all other sections alone.
pub proof fn lemma_rendered_others(layouts: Map<nat, nat>, sections: Seq<SectionView>, id: nat)
    requires
        forall|i: int| 0 <= i < sections.len() ==> (#[trigger] sections[i]).id != id,
    ensures
        rendered(layouts, sections).contains_key(id) == layouts.contains_key(id),
        layouts.contains_key(id) ==> rendered(layouts, sections)[id] == layouts[id],
    decreases sections.len(),
{
    if sections.len() > 0 {
        lemma_rendered_others(layouts, sections.drop_last(), id);
    }
}

/// Once sections with identifiers of their own were drawn, each has a
/// layout of its generation: drawn again as they are, all keep it.
pub proof fn lemma_drawn_sections_keep(layouts: Map<nat, nat>, sections: Seq<SectionView>, at: int)
    requires
        0 <= at < sections.len(),
        forall|i: int, j: int|
            0 <= i < j < sections.len() ==> (#[trigger] sections[i]).id != (
            #[trigger] sections[j]).id,
    ensures
        rendered(layouts, sections).contains_key(sections[at].id),
        rendered(layouts, sections)[sections[at].id] == sections[at].generation,
        layout_for(rendered(layouts, sections), sections[at]) == Layout::Keep,
    decreases sections.len(),
{
    let last = sections.len() - 1;
    if at < last {
        let front = sections.drop_last();
        lemma_drawn_sections_keep(layouts, front, at);
    }
}

/// The render state of the document.
pub struct Document {
    sections: HashMap<u64, Section>,
}

impl View for Document {
    type V = Map<nat, nat>;

    /// The generation of the layout of each section that has one, by the
    /// section's identifier.
    closed spec fn view(&self) -> Map<nat, nat> {
        Map::new(
            |id: nat| id <= u64::MAX && self.sections@.contains_key(id as u64),
            |id: nat| self.sections@[id as u64]@,
        )
    }
}

impl Document {
    /// The render state before the first drawing: no section has a layout.
    pub fn new() -> (document: Document)
        ensures
            document@ == Map::<nat, nat>::empty(),
    {
        Document { sections: HashMap::new() }
    }

    /// Plans a drawing of the document: the sections in their order, what
    /// the layout of each needs, and the cursor in the last one. The render
    /// state then is that of a document that was drawn.
    pub fn render(&mut self, model: &model::Document) -> (plan: Vec<Placement>)
        requires
            model.wf(),
        ensures
            final(self)@ == rendered(old(self)@, model@.sections),
            plan@.len() == model@.sections.len(),
            forall|i: int|
                0 <= i < plan@.len() ==> {
                    &&& (#[trigger] plan@[i]).id@ == model@.sections[i].id
                    &&& plan@[i].layout == layout_for(old(self)@, model@.sections[i])
                    &&& plan@[i].show_cursor == (i == plan@.len() - 1)
                },
    {
        let sections = model.sections();
        let section_count = sections.len();
        let mut plan: Vec<Placement> = Vec::new();
        let ghost all = model@.sections;
        let ghost before = self@;
        for idx in 0..section_count
            invariant
                model.wf(),
                all == model@.sections,
                all == model::document::views(sections@),
                section_count == sections@.len(),
                self@ == rendered(before, all.take(idx as int)),
                plan@.len() == idx,
                forall|i: int|
                    0 <= i < idx ==> {
                        &&& (#[trigger] plan@[i]).id@ == all[i].id
                        &&& plan@[i].layout == layout_for(before, all[i])
                        &&& plan@[i].show_cursor == (i == section_count - 1)
                    },
        {
            let section = &sections[idx];
            let id = section.id();
            let key = id.value();
            proof {
                assert(section@ == all[idx as int]);
                lemma_rendered_others(before, all.take(idx as int), section@.id);
            }
            let ghost current = self@;
            let layout = match self.sections.get(&key) {
                None => Layout::Create,
                Some(view) => if view.generation() != section.generation() {
                    Layout::Update
                } else {
                    Layout::Keep
                },
            };
            self.sections.insert(key, Section::new(section));
            proof {
                assert(all.take(idx + 1).drop_last() =~= all.take(idx as int));
            }
            plan.push(Placement { id, layout, show_cursor: idx == section_count - 1 });
        }
        assert(all.take(section_count as int) =~= all);
        plan
    }
}

} // verus!
