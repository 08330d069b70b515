use printltools::usb::drives::{
    format_bytes, helper_drive_info, list_drives, normalize_drive_root, DriveFacts,
    DRIVE_REMOVABLE,
};
use printltools::usb::{DriveInfo, DriveKind};

fn expected_bytes(value: u64) -> String {
    let units = ["B", "KB", "MB", "GB", "TB"];
    let mut unit = 0;
    let mut amount = value as f64;
    while amount >= 1024.0 && unit + 1 < units.len() {
        amount /= 1024.0;
        unit += 1;
    }
    if unit == 0 {
        format!("{} {}", value, units[unit])
    } else {
        format!("{amount:.1} {}", units[unit])
    }
}

#[test]
fn bytes_are_shown_in_units() {
    assert_eq!(format_bytes(None), "unknown");
    assert_eq!(format_bytes(Some(0)), "0 B");
    assert_eq!(format_bytes(Some(1023)), "1023 B");
    assert_eq!(format_bytes(Some(1024)), "1.0 KB");
    assert_eq!(format_bytes(Some(1536)), "1.5 KB");
    assert_eq!(format_bytes(Some(1024 * 1024 - 1)), "1024.0 KB");
    assert_eq!(format_bytes(Some(16_000_000_000)), "14.9 GB");
    assert_eq!(format_bytes(Some(u64::MAX)), "16777216.0 TB");
}

#[test]
fn bytes_are_rounded_like_doubles() {
    let mut state = 0x9e37_79b9_7f4a_7c15u64;
    for round in 0..20000 {
        state ^= state << 13;
        state ^= state >> 7;
        state ^= state << 17;
        let value = state >> (round % 64);
        assert_eq!(format_bytes(Some(value)), expected_bytes(value), "{value}");
    }
    for power in 0..64 {
        for delta in -3i64..4 {
            let value = (1u64 << power).wrapping_add(delta as u64);
            assert_eq!(format_bytes(Some(value)), expected_bytes(value), "{value}");
        }
    }
    for tenth in 0..2000u64 {
        let value = 1024 + tenth * 1024 / 20;
        assert_eq!(format_bytes(Some(value)), expected_bytes(value), "{value}");
        let value = 1024 * 1024 + tenth * 1024 * 1024 / 40;
        assert_eq!(format_bytes(Some(value)), expected_bytes(value), "{value}");
    }
}

#[test]
fn drives_are_shown_with_label_and_space() {
    let mut drive = DriveInfo {
        root: "E:\\".to_string(),
        letter: "E:".to_string(),
        label: "Stick".to_string(),
        drive_type: DriveKind::Removable,
        total_bytes: Some(2048),
        free_bytes: None,
    };
    assert_eq!(
        drive.display_name(),
        "E: Stick - 2.0 KB total, unknown free (removable)"
    );
    drive.label = String::new();
    drive.drive_type = DriveKind::Fixed;
    assert_eq!(
        drive.display_name(),
        "E: Untitled - 2.0 KB total, unknown free (fixed/possible external)"
    );
    assert_eq!(drive.duplicate(), drive);
    assert_eq!(DriveKind::Removable.label(), "removable");
}

fn facts() -> Vec<DriveFacts> {
    let mut facts = Vec::new();
    for index in 0..26 {
        facts.push(DriveFacts {
            drive_type: match index {
                2 | 3 => 3,
                4 | 25 => DRIVE_REMOVABLE,
                _ => 5,
            },
            space: if index == 4 { Some((10, 4)) } else { None },
            label: if index == 4 { Some(vec![83, 0, 7]) } else { None },
        });
    }
    facts
}

fn letters(drives: &[DriveInfo]) -> Vec<String> {
    drives.iter().map(|drive| drive.letter.clone()).collect()
}

#[test]
fn ejectable_drives_are_listed_by_letter() {
    let drives = list_drives(u32::MAX, &facts()).unwrap();
    assert_eq!(letters(&drives), vec!["E:", "Z:"]);
    assert_eq!(
        drives[0],
        DriveInfo {
            root: "E:\\".to_string(),
            letter: "E:".to_string(),
            label: "S".to_string(),
            drive_type: DriveKind::Removable,
            total_bytes: Some(10),
            free_bytes: Some(4),
        }
    );
    let drives = list_drives(1 << 25, &facts()).unwrap();
    assert_eq!(letters(&drives), vec!["Z:"]);
    let drives = list_drives(1, &facts()).unwrap();
    assert!(drives.is_empty());
    assert_eq!(
        list_drives(0, &facts()),
        Err("GetLogicalDrives returned no drives.".to_string())
    );
}

#[test]
fn fixed_drives_are_not_listed() {
    assert_eq!(list_drives(0b1100, &facts()), Ok(Vec::new()));
    for drive in list_drives(u32::MAX, &facts()).unwrap() {
        assert_eq!(drive.drive_type, DriveKind::Removable);
    }
}

#[test]
fn roots_are_normalized() {
    assert_eq!(normalize_drive_root("e:"), Ok("E:\\".to_string()));
    assert_eq!(normalize_drive_root("E:\\a\\b"), Ok("E:\\".to_string()));
    assert_eq!(
        normalize_drive_root(&normalize_drive_root("x").unwrap()),
        Ok("X:\\".to_string())
    );
    assert_eq!(
        normalize_drive_root(""),
        Err("Selected drive path is empty.".to_string())
    );
    assert_eq!(
        normalize_drive_root("1:"),
        Err("Selected path `1:` does not start with a drive letter.".to_string())
    );
}

#[test]
fn helper_knows_its_drive_by_the_root() {
    let drive = helper_drive_info("e:");
    assert_eq!(drive.root, "E:\\");
    assert_eq!(drive.letter, "E:");
    assert_eq!(drive.drive_type, DriveKind::Removable);
    assert_eq!(drive.total_bytes, None);
    assert_eq!(helper_drive_info("").letter, "?");
    let odd = helper_drive_info("\\x");
    assert_eq!(odd.root, "\\x");
    assert_eq!(odd.letter, "\\:");
}
