//! A row of the profile holds what was measured, under its own heading.

use crate::app::profile::{
    element_path_text, path_text, row_values, FrameProfile, FrameStats,
};
use crate::text::decimal;
use vstd::prelude::*;
use vstd::string::*;

verus! {

/// Whether a value spells a truth.
pub open spec fn spells(value: Seq<char>, truth: bool) -> bool {
    value == if truth {
        "true"@
    } else {
        "false"@
    }
}

/// A row tells the number of the sample, the time, what the mouse is over and holds,
/// and every measure of the frame, each in its own place.
pub proof fn rows_tell_what_was_measured(profile: FrameProfile, frame: FrameStats)
    ensures
        ({
            let row = row_values(profile, frame);
            &&& row.len() == 31
            &&& row[0] == decimal(profile.sample_index as nat)
            &&& row[1] == decimal(frame.elapsed_ms as nat)
            &&& row[2] == decimal(frame.frame_index as nat)
            &&& row[3] == decimal(frame.delta_us as nat)
            &&& row[4] == element_path_text(profile.current_interaction.hovered)
            &&& row[5] == element_path_text(profile.current_interaction.active)
            &&& spells(row[6], profile.interaction_changed)
            &&& row[7] == decimal(frame.view_us as nat)
            &&& row[8] == decimal(frame.render_tree_us as nat)
            &&& row[9] == decimal(frame.scene_swap_us as nat)
            &&& row[10] == decimal(frame.transition_us as nat)
            &&& row[11] == decimal(frame.structural_update_us as nat)
            &&& row[12] == decimal(frame.interaction_us as nat)
            &&& row[13] == decimal(frame.style_resolution_us as nat)
            &&& row[14] == decimal(frame.layout_sync_us as nat)
            &&& row[15] == decimal(frame.render_extraction_us as nat)
            &&& spells(row[16], frame.rerendered)
            &&& spells(row[17], frame.transition_active)
            &&& row[18] == decimal(frame.update_us as nat)
            &&& row[19] == decimal(frame.scene_prep_us as nat)
            &&& row[20] == decimal(frame.paint_us as nat)
            &&& row[21] == decimal(frame.present_us as nat)
            &&& row[22] == decimal(frame.total_us as nat)
            &&& row[23] == decimal(frame.render_workers as nat)
            &&& row[24] == decimal(frame.dirty_regions as nat)
            &&& row[25] == decimal(frame.dirty_jobs as nat)
            &&& row[26] == decimal(frame.damage_pixels as nat)
            &&& row[27] == decimal(frame.painted_pixels as nat)
            &&& row[28] == decimal(frame.scene_passes as nat)
            &&& row[29] == frame.paint_mode@
            &&& row[30] == frame.paint_reason@
        }),
{
}

/// The path of an element is its root and its children, with dots between them.
pub proof fn paths_are_spelled_with_dots(root: usize, children: Seq<usize>, child: usize)
    ensures
        path_text(root, Seq::empty()) == decimal(root as nat),
        path_text(root, children.push(child)) == path_text(root, children) + "."@ + decimal(
            child as nat,
        ),
{
    reveal_strlit(".");
    assert(children.push(child).drop_last() =~= children);
    assert("."@ =~= seq!['.']);
    assert(path_text(root, children.push(child)) =~= path_text(root, children) + "."@ + decimal(
        child as nat,
    ));
}

} // verus!
