//! What a tool reports when it is done.

use crate::paths::{show_path, shown_path};
use crate::text::texts;
use std::path::PathBuf;
use vstd::prelude::*;
use vstd::string::*;

verus! {

/// How a tool ended.
#[derive(Debug, Clone, Copy, PartialEq, Eq, Structural)]
pub enum ResultLevel {
    Info,
    Warning,
    Error,
}

/// What a tool reports.
#[derive(Debug, Clone, PartialEq, Eq)]
pub struct ToolResult {
    pub title: String,
    pub level: ResultLevel,
    pub summary: String,
    pub details: Vec<String>,
}

/// What a tool reports, as plain texts.
pub ghost struct ResultView {
    pub title: Seq<char>,
    pub level: ResultLevel,
    pub summary: Seq<char>,
    pub details: Seq<Seq<char>>,
}

impl View for ToolResult {
    type V = ResultView;

    open spec fn view(&self) -> ResultView {
        ResultView {
            title: self.title@,
            level: self.level,
            summary: self.summary@,
            details: texts(self.details@),
        }
    }
}

impl ToolResult {
    /// A report of success.
    pub fn info(title: &str, summary: &str, details: Vec<String>) -> (result: Self)
        ensures
            result@ == (ResultView {
                title: title@,
                level: ResultLevel::Info,
                summary: summary@,
                details: texts(details@),
            }),
    {
        ToolResult {
            title: title.to_owned(),
            level: ResultLevel::Info,
            summary: summary.to_owned(),
            details,
        }
    }

    /// A report that something needs attention.
    pub fn warning(title: &str, summary: &str, details: Vec<String>) -> (result: Self)
        ensures
            result@ == (ResultView {
                title: title@,
                level: ResultLevel::Warning,
                summary: summary@,
                details: texts(details@),
            }),
    {
        ToolResult {
            title: title.to_owned(),
            level: ResultLevel::Warning,
            summary: summary.to_owned(),
            details,
        }
    }

    /// A report of failure.
    pub fn error(title: &str, summary: &str, details: Vec<String>) -> (result: Self)
        ensures
            result@ == (ResultView {
                title: title@,
                level: ResultLevel::Error,
                summary: summary@,
                details: texts(details@),
            }),
    {
        ToolResult {
            title: title.to_owned(),
            level: ResultLevel::Error,
            summary: summary.to_owned(),
            details,
        }
    }
}

/// How a path is shown.
pub fn display_path(path: &PathBuf) -> (text: String)
    ensures
        text@ == shown_path(*path),
{
    show_path(path)
}

/// How paths are shown.
pub open spec fn shown_paths(paths: Seq<PathBuf>) -> Seq<Seq<char>> {
    paths.map_values(|path: PathBuf| shown_path(path))
}

/// How paths are shown, in their order.
pub fn display_paths(paths: &Vec<PathBuf>) -> (shown: Vec<String>)
    ensures
        texts(shown@) == shown_paths(paths@),
{
    let mut shown: Vec<String> = Vec::new();
    let ghost all = shown_paths(paths@);
    assert(texts(shown@) =~= all.take(0));
    for i in 0..paths.len()
        invariant
            all == shown_paths(paths@),
            texts(shown@) == all.take(i as int),
    {
        let ghost before = texts(shown@);
        let text = display_path(&paths[i]);
        shown.push(text);
        assert(texts(shown@) =~= before.push(text@));
        assert(all.take(i + 1) =~= before.push(all[i as int]));
    }
    assert(all.take(all.len() as int) == all);
    shown
}

} // verus!
