use printltools::usb::actions::{
    dedupe_process_actions, merge_process_actions, parse_process_actions, process_actions_from_rm,
    LockingProcess,
};
use printltools::usb::codec::{
    decode_eject_method, decode_field, decode_summary, encode_action, encode_eject_method,
    encode_error, encode_field, encode_summary,
};
use printltools::usb::eject::{elevated_summary, helper_report};
use printltools::usb::{DriveInfo, DriveKind, EjectMethod, ProcessAction, UsbEjectSummary};
use printltools::wide::{wide_fixed_to_string, wide_null};

fn chars(text: &str) -> Vec<char> {
    text.chars().collect()
}

fn action(pid: u32, name: &str, path: Option<&str>, what: &str) -> ProcessAction {
    ProcessAction {
        pid,
        name: name.to_string(),
        path: path.map(|path| path.to_string()),
        action: what.to_string(),
    }
}

fn drive(letter: &str) -> DriveInfo {
    DriveInfo {
        root: format!("{letter}\\"),
        letter: letter.to_string(),
        label: "Stick".to_string(),
        drive_type: DriveKind::Removable,
        total_bytes: Some(1),
        free_bytes: None,
    }
}

fn summary() -> UsbEjectSummary {
    UsbEjectSummary {
        drive: drive("E:"),
        resources_registered: 4096,
        resource_scan_limited: true,
        restart_manager_processes: vec![action(7, "a\tb", None, "closed by Restart Manager")],
        process_scan_actions: vec![
            action(8, "", Some("E:\\x%0A.exe"), "failed: line\r\nend"),
            action(4294967295, "c", Some("p"), ""),
        ],
        notes: vec!["100%".to_string(), "".to_string(), "%25\t%09".to_string()],
        ejected: true,
        admin_required: false,
        eject_method: EjectMethod::Shell,
    }
}

#[test]
fn fields_are_escaped() {
    assert_eq!(encode_field("a%b\tc\rd\ne"), "a%25b%09c%0Dd%0Ae");
    assert_eq!(decode_field(&chars("a%25b%09c%0Dd%0Ae")), "a%b\tc\rd\ne");
    assert_eq!(decode_field(&chars("%250A")), "%0A");
    assert_eq!(decode_field(&chars("%0a%2%")), "%0a%2%");
}

#[test]
fn written_fields_read_back() {
    for value in ["", "%", "%%0A", "%0A%25", "\r\n\t%", "é%25\u{10ffff}", "%2%0A5"] {
        assert_eq!(decode_field(&chars(&encode_field(value))), value);
    }
}

#[test]
fn field_codec_matches_replacement_in_turn() {
    for value in ["a%0A%0D%09%25b", "%%250A", "%0%0A", "25%09%2509"] {
        let expected = value
            .replace("%0A", "\n")
            .replace("%0D", "\r")
            .replace("%09", "\t")
            .replace("%25", "%");
        assert_eq!(decode_field(&chars(value)), expected);
        let expected = value
            .replace('%', "%25")
            .replace('\t', "%09")
            .replace('\r', "%0D")
            .replace('\n', "%0A");
        assert_eq!(encode_field(value), expected);
    }
}

#[test]
fn summaries_are_written_as_records() {
    assert_eq!(
        encode_summary(&summary()),
        "EJECTED\ttrue\nADMIN\tfalse\nMETHOD\tshell\nRESOURCES\t4096\nLIMITED\ttrue\n\
         RM\t7\ta%09b\t\tclosed by Restart Manager\n\
         PS\t8\t\tE:\\x%250A.exe\tfailed: line%0D%0Aend\n\
         PS\t4294967295\tc\tp\t\n\
         NOTE\t100%25\nNOTE\t\nNOTE\t%2525%09%2509\n"
    );
    assert_eq!(
        encode_action("RM", &action(1, "n", None, "x")),
        "RM\t1\tn\t\tx\n"
    );
}

#[test]
fn written_summaries_read_back_with_the_callers_drive() {
    let written = encode_summary(&summary());
    let mut expected = summary();
    expected.drive = drive("F:");
    assert_eq!(decode_summary(&written, drive("F:")), Ok(expected));
}

#[test]
fn empty_path_reads_back_as_none() {
    let mut odd = summary();
    odd.process_scan_actions = vec![action(1, "n", Some(""), "x")];
    let read = decode_summary(&encode_summary(&odd), drive("E:")).unwrap();
    assert_eq!(read.process_scan_actions, vec![action(1, "n", None, "x")]);
}

#[test]
fn errors_read_back() {
    assert_eq!(encode_error("no\nway"), "ERROR\tno%0Away\n");
    assert_eq!(
        decode_summary("ERROR\tno%0Away\n", drive("E:")),
        Err("no\nway".to_string())
    );
    assert_eq!(
        decode_summary("EJECTED\ttrue\nERROR\nNOTE\tx", drive("E:")),
        Err("Elevated helper failed.".to_string())
    );
}

#[test]
fn odd_records_are_tolerated() {
    let read = decode_summary(
        "EJECTED\tyes\nADMIN\nADMIN\ttrue\nMETHOD\tfoo\nRESOURCES\tx\nRM\nRM\tx\ta\nPS\t+5\nNOTE\n\nNOTE\ta\tb\r\nOTHER\t1",
        drive("E:"),
    )
    .unwrap();
    assert!(!read.ejected);
    assert!(read.admin_required);
    assert_eq!(read.eject_method, EjectMethod::NotEjected);
    assert_eq!(read.resources_registered, 0);
    assert!(read.restart_manager_processes.is_empty());
    assert_eq!(read.process_scan_actions, vec![action(5, "", None, "")]);
    assert_eq!(read.notes, vec!["".to_string(), "a".to_string()]);
}

#[test]
fn methods_read_back() {
    for method in [EjectMethod::NotEjected, EjectMethod::Shell, EjectMethod::Mountvol] {
        assert_eq!(decode_eject_method(&chars(encode_eject_method(method))), method);
    }
    assert_eq!(encode_eject_method(EjectMethod::Mountvol), "mountvol");
    assert_eq!(decode_eject_method(&chars("Shell")), EjectMethod::NotEjected);
}

#[test]
fn helper_reports_reach_the_caller() {
    let report = helper_report(Ok(summary()));
    let read = elevated_summary(&report, drive("G:")).unwrap();
    assert_eq!(read.drive, drive("G:"));
    assert_eq!(read.notes[0], "USB operation was completed by an elevated helper.");
    assert_eq!(read.notes[1..], summary().notes[..]);

    let report = helper_report(Err("locked".to_string()));
    assert_eq!(elevated_summary(&report, drive("G:")), Err("locked".to_string()));
}

#[test]
fn reported_actions_are_parsed() {
    let output = " 12 \t app.exe \t C:\\a.exe \t closed\tand more \r\nnot a number\tx\n0\texplorer.exe\t\tfailed: a\n7";
    assert_eq!(
        parse_process_actions(output),
        vec![
            action(12, "app.exe", Some("C:\\a.exe"), "closed\tand more"),
            action(0, "explorer.exe", None, "failed: a"),
            action(7, "", None, ""),
        ]
    );
    assert!(parse_process_actions("").is_empty());
    assert!(parse_process_actions("4294967296\tx").is_empty());
}

#[test]
fn newer_actions_update_older_ones() {
    let mut target = vec![
        action(1, "", None, "old"),
        action(2, "b", Some("p"), "old"),
        action(1, "twin", None, "old"),
    ];
    merge_process_actions(
        &mut target,
        vec![
            action(2, "other", Some("q"), "new"),
            action(1, "a", Some("r"), "new"),
            action(3, "c", None, "new"),
            action(3, "d", Some("s"), "newer"),
        ],
    );
    assert_eq!(
        target,
        vec![
            action(1, "a", Some("r"), "new"),
            action(2, "b", Some("p"), "new"),
            action(1, "twin", None, "old"),
            action(3, "c", Some("s"), "newer"),
        ]
    );
}

#[test]
fn first_action_of_a_process_is_kept() {
    assert_eq!(
        dedupe_process_actions(vec![
            action(1, "a", None, "x"),
            action(2, "b", None, "x"),
            action(1, "c", None, "y"),
        ]),
        vec![action(1, "a", None, "x"), action(2, "b", None, "x")]
    );
}

#[test]
fn locking_processes_become_actions() {
    let mut app_name = wide_null("Wörd 😀");
    app_name.extend([65, 66]);
    let processes = vec![LockingProcess { pid: 9, app_name }];
    assert_eq!(
        process_actions_from_rm(&processes, "seen"),
        vec![action(9, "Wörd 😀", None, "seen")]
    );
}

#[test]
fn wide_texts_read_back() {
    for text in ["", "abc", "é😀\u{10ffff}\u{ffff}"] {
        assert_eq!(wide_fixed_to_string(&wide_null(text)), text);
        let mut expected: Vec<u16> = text.encode_utf16().collect();
        expected.push(0);
        assert_eq!(wide_null(text), expected);
    }
    for units in [
        vec![0xd800u16, 0x41],
        vec![0xdc00, 0xd800, 0xdc00, 0xd800],
        vec![0x41, 0, 0x42],
        vec![0xd83d, 0xde00],
        vec![0xd800, 0xd83d, 0xde00],
    ] {
        let length = units.iter().position(|unit| *unit == 0).unwrap_or(units.len());
        assert_eq!(
            wide_fixed_to_string(&units),
            String::from_utf16_lossy(&units[..length])
        );
    }
}
