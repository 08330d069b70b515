//! The profile of the frames: one row of comma separated values for each.

use crate::text::{decimal, decimal_text, join, join_texts, texts};
use crate::usb::codec::bool_word;
use vstd::prelude::*;
use vstd::string::*;

verus! {

/// The first row of a profile.
pub const PROFILE_HEADER: &'static str = "sample_index,elapsed_ms,frame_index,frame_delta_us,hovered,active,interaction_changed,runtime_view_us,runtime_render_tree_us,runtime_scene_swap_us,runtime_transition_us,runtime_structural_update_us,runtime_interaction_us,runtime_style_resolution_us,runtime_layout_sync_us,runtime_render_extraction_us,runtime_rerendered,runtime_transition_active,frame_update_us,frame_scene_prep_us,frame_paint_us,frame_present_us,frame_total_us,render_workers,dirty_regions,dirty_jobs,damage_pixels,painted_pixels,scene_passes,paint_mode,paint_reason";

/// The path of an element: the index of its root, and of a child at each level.
#[derive(Debug, PartialEq, Eq)]
pub struct ElementPath {
    pub root: usize,
    pub children: Vec<usize>,
}

/// How a path below `root` is written.
pub open spec fn path_text(root: usize, children: Seq<usize>) -> Seq<char>
    decreases children.len(),
{
    if children.len() == 0 {
        decimal(root as nat)
    } else {
        path_text(root, children.drop_last()).push('.') + decimal(children.last() as nat)
    }
}

/// How the path of an element is written; nothing where there is none.
pub open spec fn element_path_text(path: Option<ElementPath>) -> Seq<char> {
    match path {
        Some(path) => path_text(path.root, path.children@),
        None => Seq::empty(),
    }
}

/// Writes the path of an element.
pub fn format_element_path(path: &Option<ElementPath>) -> (text: String)
    ensures
        text@ == element_path_text(*path),
{
    match path {
        None => String::new(),
        Some(path) => {
            let mut text = decimal_text(path.root as u128);
            assert(path.children@.take(0) == Seq::<usize>::empty());
            for i in 0..path.children.len()
                invariant
                    text@ == path_text(path.root, path.children@.take(i as int)),
            {
                assert(path.children@.take(i + 1).drop_last() == path.children@.take(i as int));
                let child = decimal_text(path.children[i] as u128);
                text.push('.');
                text.append(child.as_str());
            }
            assert(path.children@.take(path.children@.len() as int) == path.children@);
            text
        },
    }
}

/// What the mouse is over and what it holds.
#[derive(Debug, PartialEq, Eq)]
pub struct Interaction {
    pub hovered: Option<ElementPath>,
    pub active: Option<ElementPath>,
}

/// The path of an element, as plain numbers.
pub ghost struct PathView {
    pub root: usize,
    pub children: Seq<usize>,
}

/// What the mouse is over and what it holds, as plain numbers.
pub ghost struct InteractionView {
    pub hovered: Option<PathView>,
    pub active: Option<PathView>,
}

/// The path of an element where there is one, as plain numbers.
pub open spec fn path_view(path: Option<ElementPath>) -> Option<PathView> {
    match path {
        Some(path) => Some(PathView { root: path.root, children: path.children@ }),
        None => None,
    }
}

impl View for Interaction {
    type V = InteractionView;

    open spec fn view(&self) -> InteractionView {
        InteractionView { hovered: path_view(self.hovered), active: path_view(self.active) }
    }
}

fn same_indices(a: &Vec<usize>, b: &Vec<usize>) -> (same: bool)
    ensures
        same == (a@ == b@),
{
    if a.len() != b.len() {
        return false;
    }
    for i in 0..a.len()
        invariant
            a@.len() == b@.len(),
            forall|j: int| 0 <= j < i ==> a@[j] == b@[j],
    {
        if a[i] != b[i] {
            return false;
        }
    }
    assert(a@ =~= b@);
    true
}

fn same_path(a: &Option<ElementPath>, b: &Option<ElementPath>) -> (same: bool)
    ensures
        same == (path_view(*a) == path_view(*b)),
{
    match (a, b) {
        (None, None) => true,
        (Some(a), Some(b)) => a.root == b.root && same_indices(&a.children, &b.children),
        _ => false,
    }
}

/// What is measured of a frame.
#[derive(Debug)]
pub struct FrameStats {
    pub elapsed_ms: u128,
    pub frame_index: u64,
    pub delta_us: u128,
    pub view_us: u64,
    pub render_tree_us: u64,
    pub scene_swap_us: u64,
    pub transition_us: u64,
    pub structural_update_us: u64,
    pub interaction_us: u64,
    pub style_resolution_us: u64,
    pub layout_sync_us: u64,
    pub render_extraction_us: u64,
    pub rerendered: bool,
    pub transition_active: bool,
    pub update_us: u64,
    pub scene_prep_us: u64,
    pub paint_us: u64,
    pub present_us: u64,
    pub total_us: u64,
    pub render_workers: u64,
    pub dirty_regions: u64,
    pub dirty_jobs: u64,
    pub damage_pixels: u64,
    pub painted_pixels: u64,
    pub scene_passes: u64,
    pub paint_mode: String,
    pub paint_reason: String,
}

/// A profile that is being written.
#[derive(Debug)]
pub struct FrameProfile {
    pub sample_index: u64,
    pub current_interaction: Interaction,
    pub interaction_changed: bool,
}

/// The values of a row.
pub open spec fn row_values(profile: FrameProfile, frame: FrameStats) -> Seq<Seq<char>> {
    seq![
        decimal(profile.sample_index as nat),
        decimal(frame.elapsed_ms as nat),
        decimal(frame.frame_index as nat),
        decimal(frame.delta_us as nat),
        element_path_text(profile.current_interaction.hovered),
        element_path_text(profile.current_interaction.active),
        bool_word(profile.interaction_changed),
        decimal(frame.view_us as nat),
        decimal(frame.render_tree_us as nat),
        decimal(frame.scene_swap_us as nat),
        decimal(frame.transition_us as nat),
        decimal(frame.structural_update_us as nat),
        decimal(frame.interaction_us as nat),
        decimal(frame.style_resolution_us as nat),
        decimal(frame.layout_sync_us as nat),
        decimal(frame.render_extraction_us as nat),
        bool_word(frame.rerendered),
        bool_word(frame.transition_active),
        decimal(frame.update_us as nat),
        decimal(frame.scene_prep_us as nat),
        decimal(frame.paint_us as nat),
        decimal(frame.present_us as nat),
        decimal(frame.total_us as nat),
        decimal(frame.render_workers as nat),
        decimal(frame.dirty_regions as nat),
        decimal(frame.dirty_jobs as nat),
        decimal(frame.damage_pixels as nat),
        decimal(frame.painted_pixels as nat),
        decimal(frame.scene_passes as nat),
        frame.paint_mode@,
        frame.paint_reason@,
    ]
}

proof fn lemma_value(values: Seq<String>, value: String)
    ensures
        texts(values.push(value)) == texts(values).push(value@),
{
    assert(texts(values.push(value)) =~= texts(values).push(value@));
}

fn push_value(values: &mut Vec<String>, value: u128)
    ensures
        texts(final(values)@) == texts(old(values)@).push(decimal(value as nat)),
{
    let text = decimal_text(value);
    proof {
        lemma_value(values@, text);
    }
    values.push(text);
}

fn push_flag(values: &mut Vec<String>, value: bool)
    ensures
        texts(final(values)@) == texts(old(values)@).push(bool_word(value)),
{
    let text = if value {
        "true".to_owned()
    } else {
        "false".to_owned()
    };
    proof {
        lemma_value(values@, text);
    }
    values.push(text);
}

fn push_text(values: &mut Vec<String>, value: String)
    ensures
        texts(final(values)@) == texts(old(values)@).push(value@),
{
    proof {
        lemma_value(values@, value);
    }
    values.push(value);
}

impl FrameProfile {
    /// A profile without rows.
    pub fn new() -> (profile: Self)
        ensures
            profile.sample_index == 0,
            profile.current_interaction.hovered is None,
            profile.current_interaction.active is None,
            !profile.interaction_changed,
    {
        FrameProfile {
            sample_index: 0,
            current_interaction: Interaction { hovered: None, active: None },
            interaction_changed: false,
        }
    }

    /// Takes in what the mouse does now. The same as before is nothing new.
    pub fn record_interaction(&mut self, interaction: Interaction)
        ensures
            final(self).sample_index == old(self).sample_index,
            interaction@ == old(self).current_interaction@ ==> *final(self) == *old(self),
            interaction@ != old(self).current_interaction@ ==> final(self).current_interaction
                == interaction && final(self).interaction_changed,
    {
        if !(same_path(&self.current_interaction.hovered, &interaction.hovered) && same_path(
            &self.current_interaction.active,
            &interaction.active,
        )) {
            self.current_interaction = interaction;
            self.interaction_changed = true;
        }
    }

    /// The row of a frame. What the mouse does is no longer new after it.
    pub fn frame_row(&mut self, frame: FrameStats) -> (row: String)
        ensures
            row@ == join(row_values(*old(self), frame), ","@),
            final(self).sample_index == old(self).sample_index,
            final(self).current_interaction == old(self).current_interaction,
            !final(self).interaction_changed,
    {
        let changed = self.interaction_changed;
        self.interaction_changed = false;
        let hovered = format_element_path(&self.current_interaction.hovered);
        let active = format_element_path(&self.current_interaction.active);
        let mut values: Vec<String> = Vec::new();
        assert(texts(values@) =~= Seq::empty());
        push_value(&mut values, self.sample_index as u128);
        push_value(&mut values, frame.elapsed_ms);
        push_value(&mut values, frame.frame_index as u128);
        push_value(&mut values, frame.delta_us);
        push_text(&mut values, hovered);
        push_text(&mut values, active);
        push_flag(&mut values, changed);
        push_value(&mut values, frame.view_us as u128);
        push_value(&mut values, frame.render_tree_us as u128);
        push_value(&mut values, frame.scene_swap_us as u128);
        push_value(&mut values, frame.transition_us as u128);
        push_value(&mut values, frame.structural_update_us as u128);
        push_value(&mut values, frame.interaction_us as u128);
        push_value(&mut values, frame.style_resolution_us as u128);
        push_value(&mut values, frame.layout_sync_us as u128);
        push_value(&mut values, frame.render_extraction_us as u128);
        push_flag(&mut values, frame.rerendered);
        push_flag(&mut values, frame.transition_active);
        push_value(&mut values, frame.update_us as u128);
        push_value(&mut values, frame.scene_prep_us as u128);
        push_value(&mut values, frame.paint_us as u128);
        push_value(&mut values, frame.present_us as u128);
        push_value(&mut values, frame.total_us as u128);
        push_value(&mut values, frame.render_workers as u128);
        push_value(&mut values, frame.dirty_regions as u128);
        push_value(&mut values, frame.dirty_jobs as u128);
        push_value(&mut values, frame.damage_pixels as u128);
        push_value(&mut values, frame.painted_pixels as u128);
        push_value(&mut values, frame.scene_passes as u128);
        push_text(&mut values, frame.paint_mode);
        push_text(&mut values, frame.paint_reason);
        assert(texts(values@) =~= row_values(*old(self), frame));
        join_texts(&values, ",")
    }

    /// Counts a row that was written. Says whether the rows are to be flushed,
    /// which they are after every sixty.
    pub fn row_written(&mut self) -> (flush: bool)
        ensures
            final(self).sample_index == if old(self).sample_index < u64::MAX {
                (old(self).sample_index + 1) as u64
            } else {
                u64::MAX
            },
            final(self).current_interaction == old(self).current_interaction,
            final(self).interaction_changed == old(self).interaction_changed,
            flush == (final(self).sample_index % 60 == 0),
    {
        if self.sample_index < u64::MAX {
            self.sample_index = self.sample_index + 1;
        }
        self.sample_index % 60 == 0
    }
}

/// The name of the file that a profile is written to.
pub fn profile_file_name(process: u32) -> (name: String)
    ensures
        name@ == "printltools-frame-profile-"@ + decimal(process as nat) + ".csv"@,
{
    let process = decimal_text(process as u128);
    let mut name = "printltools-frame-profile-".to_owned();
    name.append(process.as_str());
    name.append(".csv");
    name
}

} // verus!
