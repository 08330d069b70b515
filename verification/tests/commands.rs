use printltools::commands::{
    collect_failure, command_result, failure_message, last_output_line, output_text, poll_step,
    powershell_args, powershell_single_quoted, start_failure, CommandOutput, PollStep, ProgramPoll,
};
use printltools::text::{
    chars_are, decimal_text, join_texts, lower_text, number_error_message, parse_unsigned,
    replace_each_char, replace_each_text, same_text, split_chars, split_lines, starts_with, to_chars,
    trim_text, NumberError,
};

fn output(success: bool, stdout: &[u8], stderr: &[u8]) -> CommandOutput {
    CommandOutput {
        success,
        status: "exit code: 3".to_string(),
        stdout: stdout.to_vec(),
        stderr: stderr.to_vec(),
    }
}

#[test]
fn successful_output_is_text() {
    assert_eq!(
        command_result("Tool", output(true, "grüße".as_bytes(), b"ignored")),
        Ok("grüße".to_string())
    );
    let error = String::from_utf8(vec![b'a', 0xc3]).unwrap_err();
    assert_eq!(
        command_result("Tool", output(true, &[b'a', 0xc3], b"")),
        Err(format!("Tool output was not UTF-8: {error}"))
    );
    assert_eq!(output_text("T", Ok("x".to_string())), Ok("x".to_string()));
    assert_eq!(
        output_text("T", Err("bad".to_string())),
        Err("T output was not UTF-8: bad".to_string())
    );
}

#[test]
fn failed_output_is_an_error() {
    assert_eq!(
        command_result("Tool", output(false, b" out \n", b" err \n")),
        Err("err\nout".to_string())
    );
    assert_eq!(
        command_result("Tool", output(false, b"out", b" ")),
        Err("out".to_string())
    );
    assert_eq!(
        command_result("Tool", output(false, b"", b"err")),
        Err("err".to_string())
    );
    assert_eq!(
        command_result("Tool", output(false, b"\n", b"")),
        Err("Tool exited with status exit code: 3.".to_string())
    );
    assert_eq!(
        command_result("Tool", output(false, &[0xff, b'x'], b"")),
        Err(String::from_utf8_lossy(&[0xff, b'x']).into_owned())
    );
    assert_eq!(failure_message("T", "s", "", ""), "T exited with status s.");
}

#[test]
fn programs_are_killed_after_their_time() {
    assert_eq!(poll_step("T", ProgramPoll::Ended, 1), PollStep::Collect);
    assert_eq!(
        poll_step("T", ProgramPoll::Running(19_999_999_999), 20),
        PollStep::Wait
    );
    assert_eq!(
        poll_step("T", ProgramPoll::Running(20_000_000_000), 20),
        PollStep::Kill("T timed out after 20 seconds.".to_string())
    );
    assert_eq!(
        poll_step("T", ProgramPoll::Failed("lost".to_string()), 20),
        PollStep::Kill("Could not monitor T: lost".to_string())
    );
    assert_eq!(start_failure("T", "e"), "Could not start T: e");
    assert_eq!(collect_failure("T", "e"), "Could not read T output: e");
}

#[test]
fn scripts_are_run_by_arguments() {
    assert_eq!(
        powershell_args("x", false),
        vec!["-NoProfile", "-NonInteractive", "-ExecutionPolicy", "Bypass", "-Command", "x"]
    );
    assert_eq!(
        powershell_args("x", true),
        vec![
            "-NoProfile",
            "-NonInteractive",
            "-Sta",
            "-ExecutionPolicy",
            "Bypass",
            "-Command",
            "x"
        ]
    );
}

#[test]
fn quoting_doubles_single_quotes() {
    assert_eq!(powershell_single_quoted("it's ''"), "it''s ''''");
    for value in ["", "'", "a'b", "'''"] {
        assert_eq!(powershell_single_quoted(value).replace("''", "'"), value);
    }
}

#[test]
fn last_line_is_trimmed() {
    assert_eq!(last_output_line("a\n b \n \n"), Some("b".to_string()));
    assert_eq!(last_output_line("\n \r\n"), None);
    assert_eq!(last_output_line(""), None);
}

fn strings(parts: Vec<Vec<char>>) -> Vec<String> {
    parts.into_iter().map(|part| part.into_iter().collect()).collect()
}

#[test]
fn texts_are_cut_like_strings() {
    for text in ["", "a", "a\tb", "\t", "a\t\tb\t", "\n", "a\r\nb\n\nc\r", "\r\n\r", "é\u{2003}"] {
        let chars = to_chars(text);
        let expected: Vec<String> = text.split('\t').map(str::to_string).collect();
        assert_eq!(strings(split_chars(&chars, '\t')), expected);
        let expected: Vec<String> = text.lines().map(str::to_string).collect();
        assert_eq!(strings(split_lines(&chars)), expected);
        assert_eq!(trim_text(text), text.trim());
    }
    for code in 0..0x3100u32 {
        if let Some(c) = char::from_u32(code) {
            let text = format!("{c}x{c}");
            assert_eq!(trim_text(&text), text.trim());
        }
    }
}

#[test]
fn texts_are_replaced_like_strings() {
    for text in ["", "aaa", "abab", "xabay", "aabb"] {
        let chars = to_chars(text);
        let replaced: String = replace_each_text(&chars, "ab", "-").into_iter().collect();
        assert_eq!(replaced, text.replace("ab", "-"));
        let replaced: String = replace_each_text(&chars, "aa", "").into_iter().collect();
        assert_eq!(replaced, text.replace("aa", ""));
        let replaced: String = replace_each_char(&chars, 'a', "bb").into_iter().collect();
        assert_eq!(replaced, text.replace('a', "bb"));
    }
    assert_eq!(lower_text("AbZÄ@["), "AbZÄ@[".to_ascii_lowercase());
    assert!(starts_with("abc", "ab"));
    assert!(!starts_with("a", "ab"));
    assert!(same_text("é", "é"));
    assert!(!same_text("e", "é"));
    assert!(chars_are(&['a'], "a"));
    assert_eq!(
        join_texts(&vec!["a".to_string(), "".to_string(), "b".to_string()], ", "),
        "a, , b"
    );
}

#[test]
fn numbers_are_written_and_read() {
    for n in [0u128, 9, 10, 99, 1_000_000_007, u128::MAX] {
        assert_eq!(decimal_text(n), n.to_string());
    }
    for text in ["", "+", "-", "+5", "0005", "255", "256", "25x", "9999x", "-1", "१", "++1", " 1"] {
        let expected = text.parse::<u8>().map(u64::from).map_err(|error| error.to_string());
        let read = parse_unsigned(&to_chars(text), 255)
            .map_err(|error| number_error_message(error).to_string());
        assert_eq!(read, expected, "{text}");
    }
    assert_eq!(parse_unsigned(&to_chars("18446744073709551615"), u64::MAX), Ok(u64::MAX));
    assert_eq!(
        parse_unsigned(&to_chars("18446744073709551616"), u64::MAX),
        Err(NumberError::TooLarge)
    );
}
