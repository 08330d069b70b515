//! Drives, and what happened when one of them was to be ejected.

pub mod actions;
pub mod codec;
pub mod drives;
pub mod eject;
pub mod locks;
pub mod resources;
pub mod scripts;
pub mod unsupported;

use crate::text::{optional_text, texts};
use vstd::prelude::*;

verus! {

/// A drive that can be ejected.
#[derive(Debug, Clone, PartialEq, Eq)]
pub struct DriveInfo {
    pub root: String,
    pub letter: String,
    pub label: String,
    pub drive_type: DriveKind,
    pub total_bytes: Option<u64>,
    pub free_bytes: Option<u64>,
}

/// How the system classes a drive.
#[derive(Debug, Clone, Copy, PartialEq, Eq, Structural)]
pub enum DriveKind {
    Removable,
    Fixed,
}

/// What an eject attempt did.
#[derive(Debug, Clone, PartialEq, Eq)]
pub struct UsbEjectSummary {
    pub drive: DriveInfo,
    pub resources_registered: usize,
    pub resource_scan_limited: bool,
    pub restart_manager_processes: Vec<ProcessAction>,
    pub process_scan_actions: Vec<ProcessAction>,
    pub notes: Vec<String>,
    pub ejected: bool,
    pub admin_required: bool,
    pub eject_method: EjectMethod,
}

/// A process and what was done about it.
#[derive(Debug, Clone, PartialEq, Eq)]
pub struct ProcessAction {
    pub pid: u32,
    pub name: String,
    pub path: Option<String>,
    pub action: String,
}

/// How a drive was ejected.
#[derive(Debug, Clone, Copy, PartialEq, Eq, Structural)]
pub enum EjectMethod {
    NotEjected,
    Shell,
    Mountvol,
}

/// A drive as plain texts and numbers.
pub ghost struct DriveView {
    pub root: Seq<char>,
    pub letter: Seq<char>,
    pub label: Seq<char>,
    pub drive_type: DriveKind,
    pub total_bytes: Option<u64>,
    pub free_bytes: Option<u64>,
}

/// A process action as plain texts and numbers.
pub ghost struct ActionView {
    pub pid: u32,
    pub name: Seq<char>,
    pub path: Option<Seq<char>>,
    pub action: Seq<char>,
}

/// An eject summary as plain texts and numbers.
pub ghost struct SummaryView {
    pub drive: DriveView,
    pub resources_registered: usize,
    pub resource_scan_limited: bool,
    pub restart_manager_processes: Seq<ActionView>,
    pub process_scan_actions: Seq<ActionView>,
    pub notes: Seq<Seq<char>>,
    pub ejected: bool,
    pub admin_required: bool,
    pub eject_method: EjectMethod,
}

impl View for DriveInfo {
    type V = DriveView;

    open spec fn view(&self) -> DriveView {
        DriveView {
            root: self.root@,
            letter: self.letter@,
            label: self.label@,
            drive_type: self.drive_type,
            total_bytes: self.total_bytes,
            free_bytes: self.free_bytes,
        }
    }
}

impl View for ProcessAction {
    type V = ActionView;

    open spec fn view(&self) -> ActionView {
        ActionView {
            pid: self.pid,
            name: self.name@,
            path: optional_text(self.path),
            action: self.action@,
        }
    }
}

/// The views of a list of process actions.
pub open spec fn action_views(actions: Seq<ProcessAction>) -> Seq<ActionView> {
    actions.map_values(|a: ProcessAction| a@)
}

impl View for UsbEjectSummary {
    type V = SummaryView;

    open spec fn view(&self) -> SummaryView {
        SummaryView {
            drive: self.drive@,
            resources_registered: self.resources_registered,
            resource_scan_limited: self.resource_scan_limited,
            restart_manager_processes: action_views(self.restart_manager_processes@),
            process_scan_actions: action_views(self.process_scan_actions@),
            notes: texts(self.notes@),
            ejected: self.ejected,
            admin_required: self.admin_required,
            eject_method: self.eject_method,
        }
    }
}

impl DriveInfo {
    /// A copy of a drive.
    pub fn duplicate(&self) -> (copy: Self)
        ensures
            copy@ == self@,
    {
        DriveInfo {
            root: self.root.clone(),
            letter: self.letter.clone(),
            label: self.label.clone(),
            drive_type: self.drive_type,
            total_bytes: self.total_bytes,
            free_bytes: self.free_bytes,
        }
    }
}

impl DriveKind {
    /// What a kind of drive is called.
    pub open spec fn label_text(self) -> Seq<char> {
        match self {
            DriveKind::Removable => "removable"@,
            DriveKind::Fixed => "fixed/possible external"@,
        }
    }

    /// What a kind of drive is called.
    pub fn label(self) -> (label: &'static str)
        ensures
            label@ == self.label_text(),
    {
        match self {
            DriveKind::Removable => "removable",
            DriveKind::Fixed => "fixed/possible external",
        }
    }
}

} // verus!
