//! Putting a joined file in its place without ever leaving half of one there.
//!
//! The file is written under a temporary name beside its place and then moved.
//! The caller does one step at a time and hands back what came of it.

use crate::paths::shown_path;
use crate::results::display_path;
use crate::text::optional_text;
use std::path::PathBuf;
use vstd::prelude::*;
use vstd::string::*;

verus! {

/// A step of saving.
#[derive(Debug, Clone, Copy, PartialEq, Eq, Structural)]
pub enum SaveStep {
    /// See whether the temporary file is there.
    CheckTemp,
    RemoveTemp,
    WriteTemp,
    /// See whether there is a file in the place.
    CheckOutput,
    RemoveOutput,
    MoveIntoPlace,
}

/// What came of a step. A check is done where the file is there.
#[derive(Debug)]
pub enum StepOutcome {
    Done,
    Absent,
    Failed(String),
}

/// How saving goes on.
#[derive(Debug)]
pub enum SaveProgress {
    Next(SaveStep),
    Saved,
    /// Saving failed. The temporary file is to be removed where the flag says so.
    Failed(bool, String),
}

/// How saving goes on, as plain values.
pub ghost enum SaveView {
    Next(SaveStep),
    Saved,
    Failed(bool, Seq<char>),
}

impl View for SaveProgress {
    type V = SaveView;

    open spec fn view(&self) -> SaveView {
        match self {
            SaveProgress::Next(step) => SaveView::Next(*step),
            SaveProgress::Saved => SaveView::Saved,
            SaveProgress::Failed(discard, error) => SaveView::Failed(*discard, error@),
        }
    }
}

/// The step that saving begins with.
pub fn first_save_step() -> (step: SaveStep)
    ensures
        step == SaveStep::CheckTemp,
{
    SaveStep::CheckTemp
}

/// Whether a step can have an outcome: only a check finds that a file is absent.
pub open spec fn outcome_fits(step: SaveStep, outcome: StepOutcome) -> bool {
    outcome is Absent ==> step is CheckTemp || step is CheckOutput
}

/// How saving goes on after a step.
pub open spec fn save_progress(
    step: SaveStep,
    outcome: StepOutcome,
    temp_path: PathBuf,
    output_path: PathBuf,
) -> SaveView {
    match outcome {
        StepOutcome::Done => match step {
            SaveStep::CheckTemp => SaveView::Next(SaveStep::RemoveTemp),
            SaveStep::RemoveTemp => SaveView::Next(SaveStep::WriteTemp),
            SaveStep::WriteTemp => SaveView::Next(SaveStep::CheckOutput),
            SaveStep::CheckOutput => SaveView::Next(SaveStep::RemoveOutput),
            SaveStep::RemoveOutput => SaveView::Next(SaveStep::MoveIntoPlace),
            SaveStep::MoveIntoPlace => SaveView::Saved,
        },
        StepOutcome::Absent => match step {
            SaveStep::CheckTemp => SaveView::Next(SaveStep::WriteTemp),
            _ => SaveView::Next(SaveStep::MoveIntoPlace),
        },
        StepOutcome::Failed(error) => match step {
            SaveStep::CheckTemp => SaveView::Next(SaveStep::WriteTemp),
            SaveStep::RemoveTemp => SaveView::Failed(
                false,
                "Could not remove stale temporary file "@ + shown_path(temp_path) + ": "@ + error@,
            ),
            SaveStep::WriteTemp => SaveView::Failed(
                true,
                "Could not write temporary PDF "@ + shown_path(temp_path) + ": "@ + error@,
            ),
            SaveStep::CheckOutput => SaveView::Next(SaveStep::MoveIntoPlace),
            SaveStep::RemoveOutput => SaveView::Failed(
                true,
                "Could not replace existing output file "@ + shown_path(output_path) + ": "@
                    + error@,
            ),
            SaveStep::MoveIntoPlace => SaveView::Failed(
                true,
                "Could not move temporary PDF into place at "@ + shown_path(output_path) + ": "@
                    + error@,
            ),
        },
    }
}

fn path_failure(start: &str, path: &PathBuf, error: &str) -> (message: String)
    ensures
        message@ == start@ + shown_path(*path) + ": "@ + error@,
{
    let shown = display_path(path);
    let mut message = start.to_owned();
    message.append(shown.as_str());
    message.append(": ");
    message.append(error);
    message
}

/// Goes on after a step.
pub fn after_save_step(
    step: SaveStep,
    outcome: StepOutcome,
    temp_path: &PathBuf,
    output_path: &PathBuf,
) -> (progress: SaveProgress)
    requires
        outcome_fits(step, outcome),
    ensures
        progress@ == save_progress(step, outcome, *temp_path, *output_path),
{
    match outcome {
        StepOutcome::Done => match step {
            SaveStep::CheckTemp => SaveProgress::Next(SaveStep::RemoveTemp),
            SaveStep::RemoveTemp => SaveProgress::Next(SaveStep::WriteTemp),
            SaveStep::WriteTemp => SaveProgress::Next(SaveStep::CheckOutput),
            SaveStep::CheckOutput => SaveProgress::Next(SaveStep::RemoveOutput),
            SaveStep::RemoveOutput => SaveProgress::Next(SaveStep::MoveIntoPlace),
            SaveStep::MoveIntoPlace => SaveProgress::Saved,
        },
        StepOutcome::Absent => match step {
            SaveStep::CheckTemp => SaveProgress::Next(SaveStep::WriteTemp),
            _ => SaveProgress::Next(SaveStep::MoveIntoPlace),
        },
        StepOutcome::Failed(error) => match step {
            SaveStep::CheckTemp => SaveProgress::Next(SaveStep::WriteTemp),
            SaveStep::RemoveTemp => SaveProgress::Failed(
                false,
                path_failure(
                    "Could not remove stale temporary file ",
                    temp_path,
                    error.as_str(),
                ),
            ),
            SaveStep::WriteTemp => SaveProgress::Failed(
                true,
                path_failure("Could not write temporary PDF ", temp_path, error.as_str()),
            ),
            SaveStep::CheckOutput => SaveProgress::Next(SaveStep::MoveIntoPlace),
            SaveStep::RemoveOutput => SaveProgress::Failed(
                true,
                path_failure(
                    "Could not replace existing output file ",
                    output_path,
                    error.as_str(),
                ),
            ),
            SaveStep::MoveIntoPlace => SaveProgress::Failed(
                true,
                path_failure(
                    "Could not move temporary PDF into place at ",
                    output_path,
                    error.as_str(),
                ),
            ),
        },
    }
}

/// Whether `steps` are the first steps of saving, and `outcomes` what came of them.
pub open spec fn is_run(
    steps: Seq<SaveStep>,
    outcomes: Seq<StepOutcome>,
    temp_path: PathBuf,
    output_path: PathBuf,
) -> bool {
    &&& 0 < steps.len() <= outcomes.len()
    &&& steps[0] == SaveStep::CheckTemp
    &&& forall|i: int|
        0 <= i < steps.len() ==> outcome_fits(#[trigger] steps[i], outcomes[i])
    &&& forall|i: int|
        0 < i < steps.len() ==> save_progress(
            steps[i - 1],
            outcomes[i - 1],
            temp_path,
            output_path,
        ) == SaveView::Next(#[trigger] steps[i])
}

/// Whether the new file was written whole in one of the first `count` steps.
pub open spec fn was_written(
    steps: Seq<SaveStep>,
    outcomes: Seq<StepOutcome>,
    count: int,
) -> bool {
    exists|i: int| 0 <= i < count && #[trigger] steps[i] == SaveStep::WriteTemp && outcomes[i] is Done
}

/// The place of a file is not looked at, and the file in it neither removed nor
/// replaced, before the whole of the new one was written.
pub proof fn place_is_touched_only_after_writing(
    steps: Seq<SaveStep>,
    outcomes: Seq<StepOutcome>,
    temp_path: PathBuf,
    output_path: PathBuf,
    i: int,
)
    requires
        is_run(steps, outcomes, temp_path, output_path),
        0 <= i < steps.len(),
        steps[i] is CheckOutput || steps[i] is RemoveOutput || steps[i] is MoveIntoPlace,
    ensures
        was_written(steps, outcomes, i),
    decreases i,
{
    if i > 0 {
        let before = steps[i - 1];
        assert(outcome_fits(before, outcomes[i - 1]));
        assert(save_progress(before, outcomes[i - 1], temp_path, output_path) == SaveView::Next(
            steps[i],
        ));
        if before is WriteTemp {
            assert(outcomes[i - 1] is Done);
        } else {
            place_is_touched_only_after_writing(steps, outcomes, temp_path, output_path, i - 1);
            let k = choose|k: int|
                0 <= k < i - 1 && #[trigger] steps[k] == SaveStep::WriteTemp && outcomes[k] is Done;
            assert(steps[k] == SaveStep::WriteTemp);
        }
    }
}

/// Saving succeeds exactly where the new file was moved into its place, and a
/// failure from the writing on asks for the temporary file to be removed.
pub proof fn failures_discard_the_temporary_file(
    step: SaveStep,
    outcome: StepOutcome,
    temp_path: PathBuf,
    output_path: PathBuf,
)
    requires
        outcome_fits(step, outcome),
    ensures
        save_progress(step, outcome, temp_path, output_path) is Saved <==> step is MoveIntoPlace
            && outcome is Done,
        save_progress(step, outcome, temp_path, output_path) is Failed ==> outcome is Failed
            && save_progress(step, outcome, temp_path, output_path)->Failed_0 == !(
        step is RemoveTemp),
{
}

/// The temporary name for a file name; one that is no text counts as
/// `joined.pdf`.
pub open spec fn temporary_name(file_name: Option<Seq<char>>) -> Seq<char> {
    ".printltools-"@ + (match file_name {
        Some(name) => name,
        None => "joined.pdf"@,
    }) + ".tmp"@
}

/// The temporary name for a file name.
pub fn temporary_file_name(file_name: Option<String>) -> (name: String)
    ensures
        name@ == temporary_name(optional_text(file_name)),
{
    let mut name = ".printltools-".to_owned();
    match &file_name {
        Some(file_name) => {
            name.append(file_name.as_str());
        },
        None => {
            name.append("joined.pdf");
        },
    }
    name.append(".tmp");
    name
}

} // verus!
