//! A report tells what was done, and leaves nothing out.

use crate::app::reports::{count_report, eject_report, merge_report};
use crate::page_counter::CountView;
use crate::paths::shown_path;
use crate::pdf::PdfMergeSummary;
use crate::results::{ResultLevel, ResultView};
use crate::text::decimal;
use crate::usb::drives::drive_text;
use crate::usb::{EjectMethod, SummaryView};
use std::path::PathBuf;
use vstd::prelude::*;
use vstd::string::*;

verus! {

/// Whether a report has a line.
pub open spec fn tells(report: ResultView, line: Seq<char>) -> bool {
    exists|k: int| 0 <= k < report.details.len() && #[trigger] report.details[k] == line
}

/// A report on files that were joined tells where they went, how many files and how
/// many pages they are.
pub proof fn joins_are_told(files: Seq<PathBuf>, output: PathBuf, summary: PdfMergeSummary)
    ensures
        ({
            let report = merge_report(files, output, Ok(summary));
            &&& report.level == ResultLevel::Info
            &&& tells(report, "Output: "@ + shown_path(summary.output_path))
            &&& tells(report, "Input files: "@ + decimal(summary.input_count as nat))
            &&& tells(report, "Total pages: "@ + decimal(summary.total_pages as nat))
        }),
{
    let report = merge_report(files, output, Ok(summary));
    assert(report.details[0] == "Output: "@ + shown_path(summary.output_path));
    assert(report.details[1] == "Input files: "@ + decimal(summary.input_count as nat));
    assert(report.details[2] == "Total pages: "@ + decimal(summary.total_pages as nat));
}

/// A report on files that were not joined is an error that gives the reason and
/// lists every file.
pub proof fn failed_joins_are_told(
    files: Seq<PathBuf>,
    output: PathBuf,
    error: Seq<char>,
    i: int,
)
    ensures
        ({
            let report = merge_report(files, output, Err(error));
            &&& report.level == ResultLevel::Error
            &&& tells(report, "Error: "@ + error)
            &&& tells(report, "Input files: "@ + decimal(files.len()))
            &&& 0 <= i < files.len() ==> tells(report, shown_path(files[i]))
        }),
{
    let report = merge_report(files, output, Err(error));
    assert(report.details[files.len() as int + 2] == "Error: "@ + error);
    assert(report.details[1] == "Input files: "@ + decimal(files.len()));
    if 0 <= i < files.len() {
        assert(report.details[i + 2] == shown_path(files[i]));
    }
}

/// A report on a count gives the total, the folder and the choices, how many files
/// of which kind there were, and a line with the reason for every file that was left
/// out or failed.
pub proof fn counts_are_told(count: CountView, i: int)
    ensures
        ({
            let report = count_report(Ok(count));
            &&& report.level == ResultLevel::Info
            &&& report.summary == "Total counted pages: "@ + decimal(count.total_pages)
            &&& tells(report, "Folder: "@ + shown_path(count.folder))
            &&& count.include_subfolders ==> tells(report, "Include subfolders: "@ + "yes"@)
            &&& !count.include_subfolders ==> tells(report, "Include subfolders: "@ + "no"@)
            &&& tells(
                report,
                "PowerPoint slides per printed page: "@ + decimal(
                    count.powerpoint_slides_per_page as nat,
                ),
            )
            &&& tells(report, "Counted files: "@ + decimal(count.counted_files))
            &&& tells(report, "PDF files discovered: "@ + decimal(count.pdf_files))
            &&& tells(report, "Document files discovered: "@ + decimal(count.document_files))
            &&& tells(report, "Microsoft Word files counted: "@ + decimal(count.word_counted_files))
            &&& tells(
                report,
                "LibreOffice fallback files counted: "@ + decimal(count.libreoffice_fallback_files),
            )
            &&& tells(report, "Skipped files: "@ + decimal(count.skipped_files.len()))
            &&& tells(report, "Failed files: "@ + decimal(count.failed_files.len()))
            &&& 0 <= i < count.skipped_files.len() ==> tells(
                report,
                "Skipped: "@ + shown_path(count.skipped_files[i].path) + " ("@
                    + count.skipped_files[i].reason + ")"@,
            )
            &&& 0 <= i < count.failed_files.len() ==> tells(
                report,
                "Failed: "@ + shown_path(count.failed_files[i].path) + " ("@
                    + count.failed_files[i].reason + ")"@,
            )
        }),
{
    let report = count_report(Ok(count));
    let lines = report.details;
    assert(lines[0] == "Folder: "@ + shown_path(count.folder));
    assert(lines[1] == "Include subfolders: "@ + crate::app::reports::yes_or_no(
        count.include_subfolders,
    ));
    assert(lines[2] == "PowerPoint slides per printed page: "@ + decimal(
        count.powerpoint_slides_per_page as nat,
    ));
    assert(lines[3] == "Counted files: "@ + decimal(count.counted_files));
    assert(lines[4] == "PDF files discovered: "@ + decimal(count.pdf_files));
    assert(lines[5] == "Document files discovered: "@ + decimal(count.document_files));
    assert(lines[6] == "Microsoft Word files counted: "@ + decimal(count.word_counted_files));
    assert(lines[7] == "LibreOffice fallback files counted: "@ + decimal(
        count.libreoffice_fallback_files,
    ));
    assert(lines[8] == "Skipped files: "@ + decimal(count.skipped_files.len()));
    assert(lines[9] == "Failed files: "@ + decimal(count.failed_files.len()));
    if 0 <= i < count.skipped_files.len() {
        assert(lines[10 + i] == "Skipped: "@ + shown_path(count.skipped_files[i].path) + " ("@
            + count.skipped_files[i].reason + ")"@);
    }
    if 0 <= i < count.failed_files.len() {
        assert(lines[10 + count.skipped_files.len() + i] == "Failed: "@ + shown_path(
            count.failed_files[i].path,
        ) + " ("@ + count.failed_files[i].reason + ")"@);
    }
}

/// A count that could not start is reported as an error with its reason.
pub proof fn failed_counts_are_told(error: Seq<char>)
    ensures
        count_report(Err(error)).level == ResultLevel::Error,
        tells(count_report(Err(error)), error),
{
    assert(count_report(Err(error)).details[0] == error);
}

/// A report on an eject names the drive and every process with what was done about
/// it, and gives every note.
pub proof fn ejects_are_told(summary: SummaryView, i: int)
    ensures
        ({
            let report = eject_report(Ok(summary));
            &&& tells(report, "Drive: "@ + drive_text(summary.drive))
            &&& tells(
                report,
                "Restart Manager resources registered: "@ + decimal(
                    summary.resources_registered as nat,
                ),
            )
            &&& tells(
                report,
                "Restart Manager processes affected: "@ + decimal(
                    summary.restart_manager_processes.len(),
                ),
            )
            &&& tells(
                report,
                "Process scan actions: "@ + decimal(summary.process_scan_actions.len()),
            )
            &&& summary.admin_required ==> tells(
                report,
                "Administrator rights required: "@ + "yes"@,
            )
            &&& !summary.admin_required ==> tells(
                report,
                "Administrator rights required: "@ + "no"@,
            )
            &&& summary.eject_method == EjectMethod::Shell ==> tells(
                report,
                "Eject method: "@ + "Windows Shell eject"@,
            )
            &&& summary.eject_method == EjectMethod::NotEjected ==> tells(
                report,
                "Eject method: "@ + "none"@,
            )
            &&& summary.resource_scan_limited ==> tells(
                report,
                "Resource scan hit its limit before every file on the drive was registered."@,
            )
            &&& 0 <= i < summary.restart_manager_processes.len() ==> ({
                let process = summary.restart_manager_processes[i];
                tells(
                    report,
                    "Restart Manager"@ + ": PID "@ + decimal(process.pid as nat) + " "@
                        + process.name + " - "@ + process.action + " ("@ + (match process.path {
                        Some(path) => path,
                        None => "path unavailable"@,
                    }) + ")"@,
                )
            })
            &&& 0 <= i < summary.process_scan_actions.len() ==> ({
                let process = summary.process_scan_actions[i];
                tells(
                    report,
                    "Process scan"@ + ": PID "@ + decimal(process.pid as nat) + " "@ + process.name
                        + " - "@ + process.action + " ("@ + (match process.path {
                        Some(path) => path,
                        None => "path unavailable"@,
                    }) + ")"@,
                )
            })
            &&& 0 <= i < summary.notes.len() ==> tells(report, "Note: "@ + summary.notes[i])
        }),
{
    let report = eject_report(Ok(summary));
    let lines = report.details;
    let limit: int = if summary.resource_scan_limited {
        1
    } else {
        0
    };
    let first = summary.restart_manager_processes.len() as int;
    let second = summary.process_scan_actions.len() as int;
    assert(lines[0] == "Drive: "@ + drive_text(summary.drive));
    assert(lines[1] == "Restart Manager resources registered: "@ + decimal(
        summary.resources_registered as nat,
    ));
    assert(lines[2] == "Restart Manager processes affected: "@ + decimal(
        summary.restart_manager_processes.len(),
    ));
    assert(lines[3] == "Process scan actions: "@ + decimal(summary.process_scan_actions.len()));
    assert(lines[4] == "Administrator rights required: "@ + crate::app::reports::yes_or_no(
        summary.admin_required,
    ));
    assert(lines[5] == "Eject method: "@ + crate::app::reports::method_label(
        summary.eject_method,
    ));
    if summary.resource_scan_limited {
        assert(lines[6]
            == "Resource scan hit its limit before every file on the drive was registered."@);
    }
    if 0 <= i < first {
        assert(lines[6 + limit + i] == crate::app::reports::action_line(
            "Restart Manager"@,
            summary.restart_manager_processes[i],
        ));
    }
    if 0 <= i < second {
        assert(lines[6 + limit + first + i] == crate::app::reports::action_line(
            "Process scan"@,
            summary.process_scan_actions[i],
        ));
    }
    if 0 <= i < summary.notes.len() {
        assert(lines[6 + limit + first + second + i] == "Note: "@ + summary.notes[i]);
    }
}

/// An eject that could not start is reported as an error with its reason, and one
/// that did not succeed as a warning.
pub proof fn failed_ejects_are_told(summary: SummaryView, error: Seq<char>)
    ensures
        eject_report(Err(error)).level == ResultLevel::Error,
        tells(eject_report(Err(error)), "Error: "@ + error),
        !summary.ejected || summary.admin_required ==> eject_report(Ok(summary)).level
            == ResultLevel::Warning,
        summary.ejected && !summary.admin_required && summary.eject_method == EjectMethod::Shell
            ==> eject_report(Ok(summary)).level == ResultLevel::Info,
{
    assert(eject_report(Err(error)).details[0] == "Error: "@ + error);
}

} // verus!
