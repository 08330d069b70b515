//! Ejecting where the system has no way to do it.

use crate::usb::{DriveInfo, UsbEjectSummary};
use vstd::prelude::*;
use vstd::string::*;

verus! {

/// There are no drives to list.
pub fn list_drives() -> (result: Result<Vec<DriveInfo>, String>)
    ensures
        result is Err,
        result->Err_0@ == "USB safe eject is only implemented on Windows."@,
{
    Err("USB safe eject is only implemented on Windows.".to_owned())
}

/// No drive can be ejected.
pub fn safe_eject(drive: DriveInfo) -> (result: Result<UsbEjectSummary, String>)
    ensures
        result is Err,
        result->Err_0@ == "USB safe eject is only implemented on Windows."@,
{
    Err("USB safe eject is only implemented on Windows.".to_owned())
}

/// No arguments ask for the helper.
pub fn run_eject_helper_from_args(args: &Vec<Option<String>>) -> (code: Option<i32>)
    ensures
        code is None,
{
    None
}

} // verus!
