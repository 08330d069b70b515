//! Which drives there are, and how they are named and shown.

use crate::text::{ascii_upper, decimal, decimal_text, text_result, to_upper};
use crate::usb::{DriveInfo, DriveKind, DriveView};
use crate::wide::{before_zero, utf16_text, wide_fixed_to_string};
use vstd::prelude::*;
use vstd::string::*;

verus! {

/// The number that the system gives removable drives.
pub const DRIVE_REMOVABLE: u32 = 2;

/// How many drive letters there are.
pub const DRIVE_LETTERS: usize = 26;

/// What the system says of the drive under one letter.
#[derive(Debug, Clone, PartialEq, Eq)]
pub struct DriveFacts {
    /// The type of the drive.
    pub drive_type: u32,
    /// The total and the free bytes, where they are known.
    pub space: Option<(u64, u64)>,
    /// The buffer with the label, where it is known.
    pub label: Option<Vec<u16>>,
}

/// `n / d` to the nearest whole number, and to the even one of two.
pub open spec fn round_even(n: nat, d: nat) -> nat {
    let q = n / d;
    let r = n % d;
    if 2 * r > d || (2 * r == d && q % 2 == 1) {
        q + 1
    } else {
        q
    }
}

/// The distance between the double precision numbers around `n`, or one where
/// whole numbers are exact.
pub open spec fn double_step(n: nat) -> nat
    decreases n,
{
    if n < 0x20_0000_0000_0000 {
        1
    } else {
        2 * double_step(n / 2)
    }
}

/// The whole number in double precision that is nearest to `n`.
pub open spec fn nearest_double(n: nat) -> nat {
    round_even(n, double_step(n)) * double_step(n)
}

/// How many times an amount is divided by 1024, at most four times.
pub open spec fn unit_index(amount: nat) -> int {
    if amount < 0x400 {
        0
    } else if amount < 0x10_0000 {
        1
    } else if amount < 0x4000_0000 {
        2
    } else if amount < 0x100_0000_0000 {
        3
    } else {
        4
    }
}

/// The size of a unit in bytes.
pub open spec fn unit_size(unit: int) -> nat {
    if unit == 0 {
        1
    } else if unit == 1 {
        0x400
    } else if unit == 2 {
        0x10_0000
    } else if unit == 3 {
        0x4000_0000
    } else {
        0x100_0000_0000
    }
}

/// The name of a unit.
pub open spec fn unit_name(unit: int) -> Seq<char> {
    if unit == 0 {
        "B"@
    } else if unit == 1 {
        "KB"@
    } else if unit == 2 {
        "MB"@
    } else if unit == 3 {
        "GB"@
    } else {
        "TB"@
    }
}

/// How a number of bytes is shown: below 1024 as it is, and above in the largest
/// unit that it reaches, with one decimal of its double precision value.
pub open spec fn bytes_text(value: Option<u64>) -> Seq<char> {
    match value {
        None => "unknown"@,
        Some(value) => {
            let amount = nearest_double(value as nat);
            let unit = unit_index(amount);
            if unit == 0 {
                decimal(value as nat) + " "@ + unit_name(0)
            } else {
                let tenths = round_even(amount * 10, unit_size(unit));
                decimal(tenths / 10) + "."@ + decimal(tenths % 10) + " "@ + unit_name(unit)
            }
        },
    }
}

proof fn lemma_double_step(n: nat)
    requires
        n <= u64::MAX,
    ensures
        1 <= double_step(n) <= 2048,
        n < 0x20_0000_0000_0000 * double_step(n),
{
    vstd::arithmetic::power2::lemma2_to64();
    assert(vstd::arithmetic::power2::pow2(11) == 2048);
    lemma_double_step_below(n, 11);
}

proof fn lemma_double_step_below(n: nat, k: nat)
    requires
        k <= 11,
        n < 0x20_0000_0000_0000 * vstd::arithmetic::power2::pow2(k),
    ensures
        1 <= double_step(n) <= vstd::arithmetic::power2::pow2(k),
        n < 0x20_0000_0000_0000 * double_step(n),
    decreases k,
{
    vstd::arithmetic::power2::lemma2_to64();
    if n >= 0x20_0000_0000_0000 {
        assert(k > 0);
        vstd::arithmetic::power2::lemma_pow2_unfold(k);
        lemma_double_step_below(n / 2, (k - 1) as nat);
    } else {
        vstd::arithmetic::power2::lemma_pow2_pos(k);
    }
}

fn step_of_double(n: u64) -> (step: u64)
    ensures
        step == double_step(n as nat),
    decreases n,
{
    proof {
        vstd::arithmetic::power2::lemma2_to64();
        lemma_double_step(n as nat);
    }
    if n < 0x20_0000_0000_0000 {
        1
    } else {
        2 * step_of_double(n / 2)
    }
}

fn rounded_even(n: u128, d: u128) -> (q: u128)
    requires
        d > 0,
        d <= 0x1_0000_0000_0000,
        n < 0x1_0000_0000_0000_0000_0000_0000,
    ensures
        q == round_even(n as nat, d as nat),
        q <= n + 1,
{
    let q: u128 = n / d;
    let r: u128 = n % d;
    proof {
        assert(q <= n) by (nonlinear_arith)
            requires
                q == n / d,
                d > 0,
        ;
    }
    if 2 * r > d || (2 * r == d && q % 2 == 1) {
        q + 1
    } else {
        q
    }
}

/// How a number of bytes is shown.
pub fn format_bytes(value: Option<u64>) -> (text: String)
    ensures
        text@ == bytes_text(value),
{
    let value: u64 = match value {
        None => return "unknown".to_owned(),
        Some(value) => value,
    };
    let step: u64 = step_of_double(value);
    proof {
        lemma_double_step(value as nat);
    }
    let rounded: u128 = rounded_even(value as u128, step as u128);
    assert(rounded * step <= 0xfff_ffff_ffff_ffff_ffff_ffffint) by (nonlinear_arith)
        requires
            rounded <= 0xffff_ffff_ffff_ffff + 1,
            1 <= step <= 2048,
    ;
    let amount: u128 = rounded * step as u128;
    assert(amount == nearest_double(value as nat));
    let (size, name): (u128, &str) = if amount < 0x400 {
        (1, "B")
    } else if amount < 0x10_0000 {
        (0x400, "KB")
    } else if amount < 0x4000_0000 {
        (0x10_0000, "MB")
    } else if amount < 0x100_0000_0000 {
        (0x4000_0000, "GB")
    } else {
        (0x100_0000_0000, "TB")
    };
    if amount < 0x400 {
        let mut text = decimal_text(value as u128);
        text.append(" ");
        text.append(name);
        text
    } else {
        let tenths: u128 = rounded_even(amount * 10, size);
        let mut text = decimal_text(tenths / 10);
        let tenth = decimal_text(tenths % 10);
        text.append(".");
        text.append(tenth.as_str());
        text.append(" ");
        text.append(name);
        text
    }
}

/// How a drive is shown.
pub open spec fn drive_text(drive: DriveView) -> Seq<char> {
    drive.letter + " "@ + (if drive.label.len() == 0 {
        "Untitled"@
    } else {
        drive.label
    }) + " - "@ + bytes_text(drive.total_bytes) + " total, "@ + bytes_text(drive.free_bytes)
        + " free ("@ + drive.drive_type.label_text() + ")"@
}

impl DriveInfo {
    /// How a drive is shown.
    pub fn display_name(&self) -> (text: String)
        ensures
            text@ == drive_text(self@),
    {
        let total = format_bytes(self.total_bytes);
        let free = format_bytes(self.free_bytes);
        let mut text = self.letter.as_str().to_owned();
        text.append(" ");
        if self.label.as_str().unicode_len() == 0 {
            text.append("Untitled");
        } else {
            text.append(self.label.as_str());
        }
        text.append(" - ");
        text.append(total.as_str());
        text.append(" total, ");
        text.append(free.as_str());
        text.append(" free (");
        text.append(self.drive_type.label());
        text.append(")");
        text
    }
}

/// The letter under an index.
pub open spec fn letter_at(index: int) -> char {
    (65 + index) as u8 as char
}

/// Whether the mask of the drives that there are has the drive under an index.
pub open spec fn has_drive(mask: u32, index: int) -> bool {
    (mask >> (index as u32)) & 1u32 == 1u32
}

/// The kind of a drive that may be ejected, which is a removable drive.
pub open spec fn ejectable_kind(drive_type: u32) -> Option<DriveKind> {
    if drive_type == DRIVE_REMOVABLE {
        Some(DriveKind::Removable)
    } else {
        None
    }
}

/// The drive under an index, as it is listed.
pub open spec fn listed_drive(index: int, kind: DriveKind, facts: DriveFacts) -> DriveView {
    DriveView {
        root: seq![letter_at(index), ':', '\\'],
        letter: seq![letter_at(index), ':'],
        label: match facts.label {
            Some(units) => utf16_text(before_zero(units@)),
            None => Seq::empty(),
        },
        drive_type: kind,
        total_bytes: match facts.space {
            Some((total, _)) => Some(total),
            None => None,
        },
        free_bytes: match facts.space {
            Some((_, free)) => Some(free),
            None => None,
        },
    }
}

/// The drives that may be ejected among the first `count` letters.
pub open spec fn ejectable_drives(mask: u32, facts: Seq<DriveFacts>, count: int) -> Seq<DriveView>
    decreases count,
{
    if count <= 0 {
        Seq::empty()
    } else {
        let front = ejectable_drives(mask, facts, count - 1);
        let i = count - 1;
        if !has_drive(mask, i) {
            front
        } else {
            match ejectable_kind(facts[i].drive_type) {
                Some(kind) => front.push(listed_drive(i, kind, facts[i])),
                None => front,
            }
        }
    }
}

/// The views of a list of drives.
pub open spec fn drive_views(drives: Seq<DriveInfo>) -> Seq<DriveView> {
    drives.map_values(|d: DriveInfo| d@)
}

fn kind_of_drive(drive_type: u32) -> (kind: Option<DriveKind>)
    ensures
        kind == ejectable_kind(drive_type),
{
    if drive_type == DRIVE_REMOVABLE {
        Some(DriveKind::Removable)
    } else {
        None
    }
}

/// Lists the drives that may be ejected, in the order of their letters. Only
/// removable drives are listed.
pub fn list_drives(mask: u32, facts: &Vec<DriveFacts>) -> (result: Result<Vec<DriveInfo>, String>)
    requires
        facts@.len() == DRIVE_LETTERS,
    ensures
        mask == 0 <==> result is Err,
        result is Err ==> result->Err_0@ == "GetLogicalDrives returned no drives."@,
        result is Ok ==> drive_views(result->Ok_0@) == ejectable_drives(mask, facts@, 26),
        result is Ok ==> forall|i: int|
            0 <= i < result->Ok_0@.len() ==> (#[trigger] result->Ok_0@[i]).drive_type
                == DriveKind::Removable,
{
    if mask == 0 {
        return Err("GetLogicalDrives returned no drives.".to_owned());
    }
    let mut drives: Vec<DriveInfo> = Vec::new();
    assert(drive_views(drives@) =~= Seq::empty());
    for i in 0..26usize
        invariant
            facts@.len() == DRIVE_LETTERS,
            drive_views(drives@) == ejectable_drives(mask, facts@, i as int),
            forall|k: int|
                0 <= k < drives@.len() ==> (#[trigger] drives@[k]).drive_type
                    == DriveKind::Removable,
    {
        let ghost before = drive_views(drives@);
        if (mask >> (i as u32)) & 1 == 1 {
            let c: char = (65 + i as u8) as char;
            let mut letter = String::new();
            letter.push(c);
            letter.push(':');
            assert(letter@ =~= seq![letter_at(i as int), ':']);
            match kind_of_drive(facts[i].drive_type) {
                Some(kind) => {
                    let mut root = letter.as_str().to_owned();
                    root.push('\\');
                    assert(root@ =~= seq![letter_at(i as int), ':', '\\']);
                    let label = match &facts[i].label {
                        Some(units) => wide_fixed_to_string(units.as_slice()),
                        None => String::new(),
                    };
                    let (total_bytes, free_bytes) = match facts[i].space {
                        Some((total, free)) => (Some(total), Some(free)),
                        None => (None, None),
                    };
                    let drive = DriveInfo {
                        root,
                        letter,
                        label,
                        drive_type: kind,
                        total_bytes,
                        free_bytes,
                    };
                    assert(drive@ == listed_drive(i as int, kind, facts@[i as int]));
                    drives.push(drive);
                    assert(drive_views(drives@) =~= before.push(drive@));
                },
                None => {},
            }
        }
    }
    Ok(drives)
}

/// The letters of the listed drives ascend, and each drive is removable.
pub proof fn listed_drives_ascend_and_are_removable(
    mask: u32,
    facts: Seq<DriveFacts>,
    count: int,
)
    requires
        0 <= count <= 26,
        facts.len() == 26,
    ensures
        forall|i: int, j: int|
            0 <= i < j < ejectable_drives(mask, facts, count).len() ==> (
            #[trigger] ejectable_drives(mask, facts, count)[i]).letter[0] < (
            #[trigger] ejectable_drives(mask, facts, count)[j]).letter[0],
        forall|i: int|
            0 <= i < ejectable_drives(mask, facts, count).len() ==> {
                let drive = #[trigger] ejectable_drives(mask, facts, count)[i];
                &&& 'A' <= drive.letter[0] < letter_at(count)
                &&& drive.letter == seq![drive.letter[0], ':']
                &&& drive.root == drive.letter.push('\\')
                &&& drive.drive_type == DriveKind::Removable
            },
    decreases count,
{
    if count > 0 {
        listed_drives_ascend_and_are_removable(mask, facts, count - 1);
        let all = ejectable_drives(mask, facts, count);
        let front = ejectable_drives(mask, facts, count - 1);
        let i = count - 1;
        if has_drive(mask, i) && ejectable_kind(facts[i].drive_type) is Some {
            assert(all.last().letter =~= seq![all.last().letter[0], ':']);
            assert(all.last().root =~= all.last().letter.push('\\'));
        }
    }
}

/// Whether `c` is an ASCII letter.
pub open spec fn is_ascii_letter(c: char) -> bool {
    'a' <= c <= 'z' || 'A' <= c <= 'Z'
}

/// The root of the drive that a path is on.
pub open spec fn normalized_root(root: Seq<char>) -> Result<Seq<char>, Seq<char>> {
    if root.len() == 0 {
        Err("Selected drive path is empty."@)
    } else if !is_ascii_letter(root[0]) {
        Err("Selected path `"@ + root + "` does not start with a drive letter."@)
    } else {
        Ok(seq![ascii_upper(root[0]), ':', '\\'])
    }
}

/// The root of the drive that a path is on.
pub fn normalize_drive_root(root: &str) -> (result: Result<String, String>)
    ensures
        text_result(result) == normalized_root(root@),
{
    if root.unicode_len() == 0 {
        return Err("Selected drive path is empty.".to_owned());
    }
    let c: char = root.get_char(0);
    if !(('a' <= c && c <= 'z') || ('A' <= c && c <= 'Z')) {
        let mut message = "Selected path `".to_owned();
        message.append(root);
        message.append("` does not start with a drive letter.");
        return Err(message);
    }
    let mut text = String::new();
    text.push(to_upper(c));
    text.push(':');
    text.push('\\');
    assert(text@ =~= seq![ascii_upper(c), ':', '\\']);
    Ok(text)
}

/// The root of a root is that root.
pub proof fn normalizing_twice_is_normalizing_once(root: Seq<char>)
    requires
        normalized_root(root) is Ok,
    ensures
        normalized_root(normalized_root(root)->Ok_0) == normalized_root(root),
{
}

/// The drive that the helper is to eject.
pub open spec fn helper_drive(root: Seq<char>) -> DriveView {
    let own = match normalized_root(root) {
        Ok(own) => own,
        Err(_) => root,
    };
    DriveView {
        root: own,
        letter: if own.len() == 0 {
            "?"@
        } else {
            seq![ascii_upper(own[0]), ':']
        },
        label: Seq::empty(),
        drive_type: DriveKind::Removable,
        total_bytes: None,
        free_bytes: None,
    }
}

/// The drive that the helper is to eject.
pub fn helper_drive_info(root: &str) -> (drive: DriveInfo)
    ensures
        drive@ == helper_drive(root@),
{
    let own = match normalize_drive_root(root) {
        Ok(own) => own,
        Err(_) => root.to_owned(),
    };
    let letter = if own.as_str().unicode_len() == 0 {
        "?".to_owned()
    } else {
        let mut letter = String::new();
        letter.push(to_upper(own.as_str().get_char(0)));
        letter.push(':');
        assert(letter@ =~= seq![ascii_upper(own@[0]), ':']);
        letter
    };
    DriveInfo {
        root: own,
        letter,
        label: String::new(),
        drive_type: DriveKind::Removable,
        total_bytes: None,
        free_bytes: None,
    }
}

} // verus!
