//! What the tools report of what they did.

use crate::app::report;
use crate::page_counter::{note_views, CountView, FileNote, NoteView, PageCountSummary};
use crate::paths::shown_path;
use crate::pdf::PdfMergeSummary;
use crate::results::{display_path, display_paths, shown_paths, ResultLevel, ResultView, ToolResult};
use crate::text::{decimal, decimal_text, error_text, texts};
use crate::usb::codec::summary_result;
use crate::usb::drives::drive_text;
use crate::usb::{
    action_views, ActionView, EjectMethod, ProcessAction, SummaryView, UsbEjectSummary,
};
use std::path::PathBuf;
use vstd::prelude::*;
use vstd::string::*;

verus! {

proof fn lemma_texts_push(lines: Seq<String>, line: String)
    ensures
        texts(lines.push(line)) == texts(lines).push(line@),
{
    assert(texts(lines.push(line)) =~= texts(lines).push(line@));
}

/// Adds a line made of a label and a text.
fn push_line(lines: &mut Vec<String>, label: &str, value: &str)
    ensures
        texts(final(lines)@) == texts(old(lines)@).push(label@ + value@),
{
    let mut line = label.to_owned();
    line.append(value);
    proof {
        lemma_texts_push(lines@, line);
    }
    lines.push(line);
}

/// Adds a line made of a label and a number.
fn push_number(lines: &mut Vec<String>, label: &str, value: usize)
    ensures
        texts(final(lines)@) == texts(old(lines)@).push(label@ + decimal(value as nat)),
{
    let number = decimal_text(value as u128);
    push_line(lines, label, number.as_str());
}

/// The word for a yes or no.
pub open spec fn yes_or_no(value: bool) -> Seq<char> {
    if value {
        "yes"@
    } else {
        "no"@
    }
}

/// The word for a yes or no.
pub fn yes_no(value: bool) -> (word: &'static str)
    ensures
        word@ == yes_or_no(value),
{
    if value {
        "yes"
    } else {
        "no"
    }
}

/// The report on joining files.
pub open spec fn merge_report(
    files: Seq<PathBuf>,
    output: PathBuf,
    outcome: Result<PdfMergeSummary, Seq<char>>,
) -> ResultView {
    match outcome {
        Ok(summary) => report(
            ResultLevel::Info,
            "PDF joiner"@,
            "PDF files were joined successfully."@,
            seq![
                "Output: "@ + shown_path(summary.output_path),
                "Input files: "@ + decimal(summary.input_count as nat),
                "Total pages: "@ + decimal(summary.total_pages as nat),
            ],
        ),
        Err(error) => report(
            ResultLevel::Error,
            "PDF joiner"@,
            "PDF merge failed."@,
            (seq![
                "Output: "@ + shown_path(output),
                "Input files: "@ + decimal(files.len()),
            ] + shown_paths(files)).push("Error: "@ + error),
        ),
    }
}

/// Reports on joining files, given what came of it.
pub fn merge_pdfs_result(
    files: &Vec<PathBuf>,
    output: &PathBuf,
    outcome: Result<PdfMergeSummary, String>,
) -> (result: ToolResult)
    ensures
        result@ == merge_report(files@, *output, error_text(outcome)),
{
    let mut details: Vec<String> = Vec::new();
    assert(texts(details@) =~= Seq::empty());
    match outcome {
        Ok(summary) => {
            let shown = display_path(&summary.output_path);
            push_line(&mut details, "Output: ", shown.as_str());
            push_number(&mut details, "Input files: ", summary.input_count);
            push_number(&mut details, "Total pages: ", summary.total_pages);
            let result = ToolResult::info(
                "PDF joiner",
                "PDF files were joined successfully.",
                details,
            );
            assert(result@.details =~= merge_report(
                files@,
                *output,
                error_text(outcome),
            ).details);
            result
        },
        Err(error) => {
            let shown = display_path(output);
            push_line(&mut details, "Output: ", shown.as_str());
            push_number(&mut details, "Input files: ", files.len());
            let ghost head = texts(details@);
            let mut paths = display_paths(files);
            let ghost listed = texts(paths@);
            details.append(&mut paths);
            assert(texts(details@) =~= head + listed);
            push_line(&mut details, "Error: ", error.as_str());
            let result = ToolResult::error("PDF joiner", "PDF merge failed.", details);
            assert(result@.details =~= merge_report(
                files@,
                *output,
                error_text(outcome),
            ).details);
            result
        },
    }
}

/// What a way of ejecting is called in a report.
pub open spec fn method_label(method: EjectMethod) -> Seq<char> {
    match method {
        EjectMethod::NotEjected => "none"@,
        EjectMethod::Shell => "Windows Shell eject"@,
        EjectMethod::Mountvol => "mountvol /p dismount"@,
    }
}

/// What a way of ejecting is called in a report.
pub fn eject_method_label(method: EjectMethod) -> (label: &'static str)
    ensures
        label@ == method_label(method),
{
    match method {
        EjectMethod::NotEjected => "none",
        EjectMethod::Shell => "Windows Shell eject",
        EjectMethod::Mountvol => "mountvol /p dismount",
    }
}

/// The line of a report on a process.
pub open spec fn action_line(source: Seq<char>, process: ActionView) -> Seq<char> {
    source + ": PID "@ + decimal(process.pid as nat) + " "@ + process.name + " - "@ + process.action
        + " ("@ + (match process.path {
        Some(path) => path,
        None => "path unavailable"@,
    }) + ")"@
}

/// The line of a report on a process.
pub fn format_process_action(source: &str, process: &ProcessAction) -> (line: String)
    ensures
        line@ == action_line(source@, process@),
{
    let pid = decimal_text(process.pid as u128);
    let mut line = source.to_owned();
    line.append(": PID ");
    line.append(pid.as_str());
    line.append(" ");
    line.append(process.name.as_str());
    line.append(" - ");
    line.append(process.action.as_str());
    line.append(" (");
    match &process.path {
        Some(path) => {
            line.append(path.as_str());
        },
        None => {
            line.append("path unavailable");
        },
    }
    line.append(")");
    line
}

/// The lines of a report on processes.
pub open spec fn action_lines(source: Seq<char>, processes: Seq<ActionView>) -> Seq<Seq<char>> {
    processes.map_values(|p: ActionView| action_line(source, p))
}

fn push_actions(lines: &mut Vec<String>, source: &str, processes: &Vec<ProcessAction>)
    ensures
        texts(final(lines)@) == texts(old(lines)@) + action_lines(
            source@,
            action_views(processes@),
        ),
{
    let ghost start = texts(lines@);
    let ghost all = action_lines(source@, action_views(processes@));
    assert(start + all.take(0) =~= start);
    for i in 0..processes.len()
        invariant
            start == texts(old(lines)@),
            all == action_lines(source@, action_views(processes@)),
            texts(lines@) == start + all.take(i as int),
    {
        let line = format_process_action(source, &processes[i]);
        proof {
            assert(all[i as int] == line@);
            lemma_texts_push(lines@, line);
            assert(start + all.take(i + 1) =~= (start + all.take(i as int)).push(all[i as int]));
        }
        lines.push(line);
    }
    assert(all.take(all.len() as int) == all);
}

/// The details of a report on ejecting a drive.
pub open spec fn eject_details(summary: SummaryView) -> Seq<Seq<char>> {
    seq![
        "Drive: "@ + drive_text(summary.drive),
        "Restart Manager resources registered: "@ + decimal(summary.resources_registered as nat),
        "Restart Manager processes affected: "@ + decimal(summary.restart_manager_processes.len()),
        "Process scan actions: "@ + decimal(summary.process_scan_actions.len()),
        "Administrator rights required: "@ + yes_or_no(summary.admin_required),
        "Eject method: "@ + method_label(summary.eject_method),
    ] + (if summary.resource_scan_limited {
        seq!["Resource scan hit its limit before every file on the drive was registered."@]
    } else {
        Seq::empty()
    }) + action_lines("Restart Manager"@, summary.restart_manager_processes) + action_lines(
        "Process scan"@,
        summary.process_scan_actions,
    ) + summary.notes.map_values(|note: Seq<char>| "Note: "@ + note)
}

/// The report on ejecting a drive.
pub open spec fn eject_report(outcome: Result<SummaryView, Seq<char>>) -> ResultView {
    match outcome {
        Err(error) => report(
            ResultLevel::Error,
            "USB safe eject"@,
            "USB eject could not start."@,
            seq!["Error: "@ + error],
        ),
        Ok(summary) => if summary.admin_required {
            report(
                ResultLevel::Warning,
                "USB safe eject"@,
                "Administrator rights are required before this drive can be safely inspected."@,
                eject_details(summary),
            )
        } else if summary.eject_method == EjectMethod::Mountvol {
            report(
                ResultLevel::Warning,
                "USB safe eject"@,
                "The volume was dismounted with mountvol, but Windows Shell safe eject was not confirmed."@,
                eject_details(summary),
            )
        } else if summary.ejected {
            report(
                ResultLevel::Info,
                "USB safe eject"@,
                "Windows accepted the eject request."@,
                eject_details(summary),
            )
        } else {
            report(
                ResultLevel::Warning,
                "USB safe eject"@,
                "Processes were handled, but Windows still reports the drive as mounted."@,
                eject_details(summary),
            )
        },
    }
}

fn details_of_eject(summary: &UsbEjectSummary) -> (details: Vec<String>)
    ensures
        texts(details@) == eject_details(summary@),
{
    let mut details: Vec<String> = Vec::new();
    assert(texts(details@) =~= Seq::empty());
    assert(summary@.restart_manager_processes.len() == summary.restart_manager_processes@.len());
    assert(summary@.process_scan_actions.len() == summary.process_scan_actions@.len());
    let drive = summary.drive.display_name();
    push_line(&mut details, "Drive: ", drive.as_str());
    push_number(
        &mut details,
        "Restart Manager resources registered: ",
        summary.resources_registered,
    );
    push_number(
        &mut details,
        "Restart Manager processes affected: ",
        summary.restart_manager_processes.len(),
    );
    push_number(&mut details, "Process scan actions: ", summary.process_scan_actions.len());
    push_line(&mut details, "Administrator rights required: ", yes_no(summary.admin_required));
    push_line(&mut details, "Eject method: ", eject_method_label(summary.eject_method));
    let ghost head = texts(details@);
    let ghost limit: Seq<Seq<char>> = if summary.resource_scan_limited {
        seq!["Resource scan hit its limit before every file on the drive was registered."@]
    } else {
        Seq::empty()
    };
    if summary.resource_scan_limited {
        let line =
            "Resource scan hit its limit before every file on the drive was registered.".to_owned();
        proof {
            lemma_texts_push(details@, line);
        }
        details.push(line);
    }
    assert(texts(details@) =~= head + limit);
    push_actions(&mut details, "Restart Manager", &summary.restart_manager_processes);
    push_actions(&mut details, "Process scan", &summary.process_scan_actions);
    let ghost front = texts(details@);
    let ghost all = summary@.notes.map_values(|note: Seq<char>| "Note: "@ + note);
    assert(front + all.take(0) =~= front);
    for i in 0..summary.notes.len()
        invariant
            all == summary@.notes.map_values(|note: Seq<char>| "Note: "@ + note),
            texts(details@) == front + all.take(i as int),
    {
        assert(summary@.notes[i as int] == summary.notes@[i as int]@);
        push_line(&mut details, "Note: ", summary.notes[i].as_str());
        assert(front + all.take(i + 1) =~= (front + all.take(i as int)).push(all[i as int]));
    }
    assert(all.take(all.len() as int) == all);
    assert(texts(details@) =~= eject_details(summary@));
    details
}

/// Reports on ejecting a drive, given what came of it.
pub fn usb_eject_result(outcome: Result<UsbEjectSummary, String>) -> (result: ToolResult)
    ensures
        result@ == eject_report(summary_result(outcome)),
{
    match outcome {
        Err(error) => {
            let mut details: Vec<String> = Vec::new();
            assert(texts(details@) =~= Seq::empty());
            push_line(&mut details, "Error: ", error.as_str());
            assert(texts(details@) =~= seq!["Error: "@ + error@]);
            ToolResult::error("USB safe eject", "USB eject could not start.", details)
        },
        Ok(summary) => {
            let details = details_of_eject(&summary);
            if summary.admin_required {
                ToolResult::warning(
                    "USB safe eject",
                    "Administrator rights are required before this drive can be safely inspected.",
                    details,
                )
            } else if summary.eject_method == EjectMethod::Mountvol {
                ToolResult::warning(
                    "USB safe eject",
                    "The volume was dismounted with mountvol, but Windows Shell safe eject was not confirmed.",
                    details,
                )
            } else if summary.ejected {
                ToolResult::info(
                    "USB safe eject",
                    "Windows accepted the eject request.",
                    details,
                )
            } else {
                ToolResult::warning(
                    "USB safe eject",
                    "Processes were handled, but Windows still reports the drive as mounted.",
                    details,
                )
            }
        },
    }
}

/// Success is reported exactly where a drive was ejected by the Shell without
/// missing rights.
pub proof fn success_is_reported_for_shell_ejects_only(summary: SummaryView)
    ensures
        eject_report(Ok(summary)).level == ResultLevel::Info <==> summary.ejected
            && !summary.admin_required && summary.eject_method != EjectMethod::Mountvol,
        eject_report(Ok(summary)).level != ResultLevel::Error,
{
}

/// The line of a report on a file.
pub open spec fn note_line(label: Seq<char>, note: NoteView) -> Seq<char> {
    label + shown_path(note.path) + " ("@ + note.reason + ")"@
}

/// The lines of a report on files.
pub open spec fn note_lines(label: Seq<char>, notes: Seq<NoteView>) -> Seq<Seq<char>> {
    notes.map_values(|n: NoteView| note_line(label, n))
}

fn push_notes(lines: &mut Vec<String>, label: &str, notes: &Vec<FileNote>)
    ensures
        texts(final(lines)@) == texts(old(lines)@) + note_lines(label@, note_views(notes@)),
{
    let ghost start = texts(lines@);
    let ghost all = note_lines(label@, note_views(notes@));
    assert(start + all.take(0) =~= start);
    for i in 0..notes.len()
        invariant
            start == texts(old(lines)@),
            all == note_lines(label@, note_views(notes@)),
            texts(lines@) == start + all.take(i as int),
    {
        let path = display_path(&notes[i].path);
        let mut line = label.to_owned();
        line.append(path.as_str());
        line.append(" (");
        line.append(notes[i].reason.as_str());
        line.append(")");
        proof {
            assert(all[i as int] == line@);
            lemma_texts_push(lines@, line);
            assert(start + all.take(i + 1) =~= (start + all.take(i as int)).push(all[i as int]));
        }
        lines.push(line);
    }
    assert(all.take(all.len() as int) == all);
}

/// The report on counting pages.
pub open spec fn count_report(outcome: Result<CountView, Seq<char>>) -> ResultView {
    match outcome {
        Err(error) => report(
            ResultLevel::Error,
            "Folder page counter"@,
            "Page counting could not start."@,
            seq![error],
        ),
        Ok(count) => report(
            ResultLevel::Info,
            "Folder page counter"@,
            "Total counted pages: "@ + decimal(count.total_pages),
            seq![
                "Folder: "@ + shown_path(count.folder),
                "Include subfolders: "@ + yes_or_no(count.include_subfolders),
                "PowerPoint slides per printed page: "@ + decimal(
                    count.powerpoint_slides_per_page as nat,
                ),
                "Counted files: "@ + decimal(count.counted_files),
                "PDF files discovered: "@ + decimal(count.pdf_files),
                "Document files discovered: "@ + decimal(count.document_files),
                "Microsoft Word files counted: "@ + decimal(count.word_counted_files),
                "LibreOffice fallback files counted: "@ + decimal(count.libreoffice_fallback_files),
                "Skipped files: "@ + decimal(count.skipped_files.len()),
                "Failed files: "@ + decimal(count.failed_files.len()),
            ] + note_lines("Skipped: "@, count.skipped_files) + note_lines(
                "Failed: "@,
                count.failed_files,
            ),
        ),
    }
}

/// A count or an error, as plain values.
pub open spec fn count_outcome(outcome: Result<PageCountSummary, String>) -> Result<
    CountView,
    Seq<char>,
> {
    match outcome {
        Ok(summary) => Ok(summary@),
        Err(error) => Err(error@),
    }
}

fn details_of_count(summary: &PageCountSummary) -> (details: Vec<String>)
    ensures
        texts(details@) == count_report(Ok(summary@)).details,
{
    let mut details: Vec<String> = Vec::new();
    assert(texts(details@) =~= Seq::empty());
    assert(summary@.skipped_files.len() == summary.skipped_files@.len());
    assert(summary@.failed_files.len() == summary.failed_files@.len());
    let folder = display_path(&summary.folder);
    let slides = decimal_text(summary.powerpoint_slides_per_page as u128);
    push_line(&mut details, "Folder: ", folder.as_str());
    push_line(&mut details, "Include subfolders: ", yes_no(summary.include_subfolders));
    push_line(&mut details, "PowerPoint slides per printed page: ", slides.as_str());
    push_number(&mut details, "Counted files: ", summary.counted_files);
    push_number(&mut details, "PDF files discovered: ", summary.pdf_files);
    push_number(&mut details, "Document files discovered: ", summary.document_files);
    push_number(&mut details, "Microsoft Word files counted: ", summary.word_counted_files);
    push_number(
        &mut details,
        "LibreOffice fallback files counted: ",
        summary.libreoffice_fallback_files,
    );
    push_number(&mut details, "Skipped files: ", summary.skipped_files.len());
    push_number(&mut details, "Failed files: ", summary.failed_files.len());
    let ghost head = texts(details@);
    push_notes(&mut details, "Skipped: ", &summary.skipped_files);
    push_notes(&mut details, "Failed: ", &summary.failed_files);
    assert(head =~= count_report(Ok(summary@)).details.take(10));
    assert(texts(details@) =~= count_report(Ok(summary@)).details);
    details
}

/// Reports on counting pages, given what came of it.
pub fn run_page_counter(outcome: Result<PageCountSummary, String>) -> (result: ToolResult)
    ensures
        result@ == count_report(count_outcome(outcome)),
{
    match outcome {
        Err(error) => {
            let mut details: Vec<String> = Vec::new();
            details.push(error);
            assert(texts(details@) =~= seq![error@]);
            ToolResult::error("Folder page counter", "Page counting could not start.", details)
        },
        Ok(summary) => {
            let details = details_of_count(&summary);
            let total = decimal_text(summary.total_pages as u128);
            let mut line = "Total counted pages: ".to_owned();
            line.append(total.as_str());
            ToolResult::info("Folder page counter", line.as_str(), details)
        },
    }
}

} // verus!
