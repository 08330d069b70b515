//! The PowerShell scripts that clean up a drive, eject it, and start the helper.

use crate::commands::{powershell_single_quoted, single_quoted};
use crate::text::{copy_range, from_chars, replace_char, replace_each_char, to_chars};
use vstd::prelude::*;
use vstd::string::*;

verus! {

/// The beginning of the script that closes Explorer windows.
pub const EXPLORER_CLEANUP_1: &'static str = r#"
$ErrorActionPreference = 'Stop'
$root = '"#;

/// A middle part of the script that closes Explorer windows.
pub const EXPLORER_CLEANUP_2: &'static str = r#"'
$altRoot = '"#;

/// The end of the script that closes Explorer windows.
pub const EXPLORER_CLEANUP_3: &'static str = r#"'
function Clean([string]$value) {
    if ($null -eq $value) { return '' }
    return ($value -replace "`t", ' ' -replace "`r", ' ' -replace "`n", ' ')
}
function WindowPath($window) {
    try {
        $path = $window.Document.Folder.Self.Path
        if (-not [string]::IsNullOrWhiteSpace($path)) { return $path }
    } catch { }
    try {
        $location = $window.LocationURL
        if (-not [string]::IsNullOrWhiteSpace($location) -and $location.StartsWith('file:', [System.StringComparison]::OrdinalIgnoreCase)) {
            return ([System.Uri]$location).LocalPath
        }
    } catch { }
    return ''
}
$shell = New-Object -ComObject Shell.Application
$windows = @($shell.Windows())
foreach ($window in $windows) {
    $fullName = ''
    try { $fullName = [System.IO.Path]::GetFileName($window.FullName) } catch { }
    if ($fullName -and $fullName -ne 'explorer.exe') {
        continue
    }
    $path = WindowPath $window
    if (
        $path -and (
            $path.StartsWith($root, [System.StringComparison]::OrdinalIgnoreCase) -or
            $path.StartsWith($altRoot, [System.StringComparison]::OrdinalIgnoreCase)
        )
    ) {
        try {
            $window.Quit()
            Write-Output ("0`texplorer.exe`t{0}`tclosed Explorer window" -f (Clean $path))
        } catch {
            Write-Output ("0`texplorer.exe`t{0}`tfailed: {1}" -f (Clean $path), (Clean $_.Exception.Message))
        }
    }
}
"#;

/// The beginning of the script that closes processes.
pub const PROCESS_CLEANUP_1: &'static str = r#"
$ErrorActionPreference = 'Stop'
$root = '"#;

/// A middle part of the script that closes processes.
pub const PROCESS_CLEANUP_2: &'static str = r#"'
$altRoot = '"#;

/// The end of the script that closes processes.
pub const PROCESS_CLEANUP_3: &'static str = r#"'
$currentPid = $PID
function Clean([string]$value) {
    if ($null -eq $value) { return '' }
    return ($value -replace "`t", ' ' -replace "`r", ' ' -replace "`n", ' ')
}
$matches = Get-CimInstance Win32_Process | Where-Object {
    $_.ProcessId -ne $currentPid -and $_.ProcessId -gt 4 -and (
        ($_.ExecutablePath -and $_.ExecutablePath.StartsWith($root, [System.StringComparison]::OrdinalIgnoreCase)) -or
        ($_.CommandLine -and $_.CommandLine.IndexOf($root, [System.StringComparison]::OrdinalIgnoreCase) -ge 0) -or
        ($_.CommandLine -and $_.CommandLine.IndexOf($altRoot, [System.StringComparison]::OrdinalIgnoreCase) -ge 0)
    )
}
foreach ($proc in $matches) {
    $status = 'matched'
    try {
        $p = Get-Process -Id $proc.ProcessId -ErrorAction Stop
        if ($p.MainWindowHandle -ne 0) {
            [void]$p.CloseMainWindow()
            Start-Sleep -Milliseconds 1200
        }
        $p.Refresh()
        if (-not $p.HasExited) {
            Stop-Process -Id $proc.ProcessId -Force -ErrorAction Stop
            $status = 'terminated'
        } else {
            $status = 'closed'
        }
    } catch {
        $status = 'failed: ' + $_.Exception.Message
    }
    Write-Output ("{0}`t{1}`t{2}`t{3}" -f $proc.ProcessId, (Clean $proc.Name), (Clean $proc.ExecutablePath), (Clean $status))
}
"#;

/// The beginning of the script that ejects the drive.
pub const SHELL_EJECT_1: &'static str = r#"
$ErrorActionPreference = 'Stop'
$root = '"#;

/// A middle part of the script that ejects the drive.
pub const SHELL_EJECT_2: &'static str = r#"'
$drive = '"#;

/// The end of the script that ejects the drive.
pub const SHELL_EJECT_3: &'static str = r#"'
$shell = New-Object -ComObject Shell.Application
$item = $shell.Namespace(17).ParseName($drive)
if ($null -eq $item) {
    $item = $shell.Namespace(17).ParseName($root)
}
if ($null -eq $item) {
    throw "Windows Shell could not find drive $drive for eject."
}
$verb = $null
foreach ($candidate in $item.Verbs()) {
    $name = $candidate.Name.Replace('&', '')
    if ($name -match 'Eject|Safely Remove|Uitwerpen|Éjecter|Auswerfen') {
        $verb = $candidate
        break
    }
}
if ($null -ne $verb) {
    $verb.DoIt()
} else {
    $item.InvokeVerb('Eject')
}
Start-Sleep -Seconds 3
if (Test-Path -LiteralPath $root) {
    throw "Windows still reports $root as mounted after the Shell eject request."
} else {
    Write-Output 'Shell eject completed and the drive is no longer mounted.'
}
"#;

/// The beginning of the script that starts the helper.
pub const ELEVATION_1: &'static str = r#"
$ErrorActionPreference = 'Stop'
$exe = '"#;

/// A middle part of the script that starts the helper.
pub const ELEVATION_2: &'static str = r#"'
$root = '"#;

/// A middle part of the script that starts the helper.
pub const ELEVATION_3: &'static str = r#"'
$out = '"#;

/// The end of the script that starts the helper.
pub const ELEVATION_4: &'static str = r#"'
$args = @('--usb-eject-helper', $root, $out)
$process = Start-Process -FilePath $exe -ArgumentList $args -Verb RunAs -Wait -PassThru
if (-not (Test-Path -LiteralPath $out)) {
    if ($process.ExitCode -ne 0 -and $null -ne $process.ExitCode) {
        throw "Elevated helper exited with code $($process.ExitCode) and did not create its result file."
    }
    throw "Elevated helper did not create its result file."
}
"#;

/// A path with slashes in place of its backslashes.
pub open spec fn with_slashes(path: Seq<char>) -> Seq<char> {
    replace_char(path, '\\', seq!['/'])
}

fn slashed(path: &str) -> (text: String)
    ensures
        text@ == with_slashes(path@),
{
    proof {
        reveal_strlit("/");
    }
    assert("/"@ =~= seq!['/']);
    let chars = to_chars(path);
    let out = replace_each_char(chars.as_slice(), '\\', "/");
    from_chars(out.as_slice())
}

/// A path without the backslashes at its end.
pub open spec fn without_end_backslashes(path: Seq<char>) -> Seq<char>
    decreases path.len(),
{
    if path.len() > 0 && path.last() == '\\' {
        without_end_backslashes(path.drop_last())
    } else {
        path
    }
}

/// A path without the backslashes at its end.
pub fn trim_end_backslashes(path: &str) -> (text: String)
    ensures
        text@ == without_end_backslashes(path@),
{
    let chars = to_chars(path);
    let mut n: usize = chars.len();
    assert(path@.take(n as int) == path@);
    while n > 0 && chars[n - 1] == '\\'
        invariant
            n <= chars@.len(),
            chars@ == path@,
            without_end_backslashes(path@.take(n as int)) == without_end_backslashes(path@),
        decreases n,
    {
        assert(path@.take(n as int).drop_last() == path@.take(n - 1));
        n = n - 1;
    }
    let mut kept: Vec<char> = Vec::new();
    copy_range(chars.as_slice(), 0, n, &mut kept);
    assert(kept@ =~= path@.take(n as int));
    from_chars(kept.as_slice())
}

/// The script that closes the Explorer windows open on a drive.
pub open spec fn explorer_cleanup_text(root: Seq<char>) -> Seq<char> {
    EXPLORER_CLEANUP_1@ + single_quoted(root) + EXPLORER_CLEANUP_2@ + single_quoted(
        with_slashes(root),
    ) + EXPLORER_CLEANUP_3@
}

/// The script that closes the processes that refer to a drive.
pub open spec fn process_cleanup_text(root: Seq<char>) -> Seq<char> {
    PROCESS_CLEANUP_1@ + single_quoted(root) + PROCESS_CLEANUP_2@ + single_quoted(
        with_slashes(root),
    ) + PROCESS_CLEANUP_3@
}

/// The script that ejects a drive.
pub open spec fn shell_eject_text(root: Seq<char>) -> Seq<char> {
    SHELL_EJECT_1@ + single_quoted(root) + SHELL_EJECT_2@ + single_quoted(
        without_end_backslashes(root),
    ) + SHELL_EJECT_3@
}

/// The script that starts the helper with elevated rights and waits for it.
pub open spec fn elevation_text(
    program: Seq<char>,
    root: Seq<char>,
    report: Seq<char>,
) -> Seq<char> {
    ELEVATION_1@ + single_quoted(program) + ELEVATION_2@ + single_quoted(
        without_end_backslashes(root),
    ) + ELEVATION_3@ + single_quoted(report) + ELEVATION_4@
}

/// Writes the script that closes the Explorer windows open on a drive.
pub fn explorer_cleanup_script(root: &str) -> (script: String)
    ensures
        script@ == explorer_cleanup_text(root@),
{
    let quoted = powershell_single_quoted(root);
    let slashes = slashed(root);
    let quoted_slashes = powershell_single_quoted(slashes.as_str());
    let mut script = EXPLORER_CLEANUP_1.to_owned();
    script.append(quoted.as_str());
    script.append(EXPLORER_CLEANUP_2);
    script.append(quoted_slashes.as_str());
    script.append(EXPLORER_CLEANUP_3);
    script
}

/// Writes the script that closes the processes that refer to a drive.
pub fn process_cleanup_script(root: &str) -> (script: String)
    ensures
        script@ == process_cleanup_text(root@),
{
    let quoted = powershell_single_quoted(root);
    let slashes = slashed(root);
    let quoted_slashes = powershell_single_quoted(slashes.as_str());
    let mut script = PROCESS_CLEANUP_1.to_owned();
    script.append(quoted.as_str());
    script.append(PROCESS_CLEANUP_2);
    script.append(quoted_slashes.as_str());
    script.append(PROCESS_CLEANUP_3);
    script
}

/// Writes the script that ejects a drive.
pub fn shell_eject_script(root: &str) -> (script: String)
    ensures
        script@ == shell_eject_text(root@),
{
    let quoted = powershell_single_quoted(root);
    let drive = trim_end_backslashes(root);
    let quoted_drive = powershell_single_quoted(drive.as_str());
    let mut script = SHELL_EJECT_1.to_owned();
    script.append(quoted.as_str());
    script.append(SHELL_EJECT_2);
    script.append(quoted_drive.as_str());
    script.append(SHELL_EJECT_3);
    script
}

/// Writes the script that starts the helper.
pub fn elevation_script(program: &str, root: &str, report: &str) -> (script: String)
    ensures
        script@ == elevation_text(program@, root@, report@),
{
    let program = powershell_single_quoted(program);
    let drive = trim_end_backslashes(root);
    let drive = powershell_single_quoted(drive.as_str());
    let report = powershell_single_quoted(report);
    let mut script = ELEVATION_1.to_owned();
    script.append(program.as_str());
    script.append(ELEVATION_2);
    script.append(drive.as_str());
    script.append(ELEVATION_3);
    script.append(report.as_str());
    script.append(ELEVATION_4);
    script
}

/// The script that ejects a drive names the drive without a backslash, and the
/// helper is handed the same name.
pub proof fn drive_name_is_letter_and_colon(letter: char)
    ensures
        without_end_backslashes(seq![letter, ':', '\\']) == seq![letter, ':'],
{
    let root = seq![letter, ':', '\\'];
    let name = seq![letter, ':'];
    assert(root.drop_last() =~= name);
    assert(without_end_backslashes(name) == name);
}

} // verus!
