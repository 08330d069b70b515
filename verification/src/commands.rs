//! Running other programs: what their output means, how long to wait for them,
//! and how a text is quoted in a PowerShell script.

use crate::text::{
    char_texts, decimal, decimal_text, from_chars, lines, optional_text, replace_char,
    replace_each_char, replace_text, split_lines, text_result, texts, to_chars, trim, trim_chars,
    trim_text,
};
use vstd::prelude::*;
use vstd::string::*;
use vstd::utf8::{decode_utf8, valid_utf8};

verus! {

/// What `String::from_utf8` says of bytes that are not UTF-8.
pub uninterp spec fn utf8_fault(bytes: Seq<u8>) -> Seq<char>;

/// The text that `String::from_utf8_lossy` makes of bytes that are not UTF-8.
pub uninterp spec fn repaired_text(bytes: Seq<u8>) -> Seq<char>;

/// The text in UTF-8 bytes, or what is made of bytes that are not UTF-8.
pub open spec fn lossy_text(bytes: Seq<u8>) -> Seq<char> {
    if valid_utf8(bytes) {
        decode_utf8(bytes)
    } else {
        repaired_text(bytes)
    }
}

/// The text in UTF-8 bytes, or what is said of bytes that are not UTF-8.
pub open spec fn utf8_text(bytes: Seq<u8>) -> Result<Seq<char>, Seq<char>> {
    if valid_utf8(bytes) {
        Ok(decode_utf8(bytes))
    } else {
        Err(utf8_fault(bytes))
    }
}

/// Reads bytes as UTF-8 with `String::from_utf8`, which takes them exactly where
/// they are valid. Its error is handed on as the text that it displays.
#[verifier::external_body]
pub(crate) fn text_from_utf8(bytes: Vec<u8>) -> (result: Result<String, String>)
    ensures
        result is Ok <==> valid_utf8(bytes@),
        result is Ok ==> result->Ok_0@ == decode_utf8(bytes@),
        result is Err ==> result->Err_0@ == utf8_fault(bytes@),
{
    String::from_utf8(bytes).map_err(|error| error.to_string())
}

/// Reads bytes with `String::from_utf8_lossy`, which keeps valid UTF-8 as it is
/// and puts replacement characters in place of the rest.
#[verifier::external_body]
pub(crate) fn text_from_utf8_lossy(bytes: &[u8]) -> (text: String)
    ensures
        valid_utf8(bytes@) ==> text@ == decode_utf8(bytes@),
        !valid_utf8(bytes@) ==> text@ == repaired_text(bytes@),
{
    String::from_utf8_lossy(bytes).into_owned()
}

/// What a program that ended left behind.
#[derive(Debug, Clone, PartialEq, Eq)]
pub struct CommandOutput {
    pub success: bool,
    /// The exit status as it is shown.
    pub status: String,
    pub stdout: Vec<u8>,
    pub stderr: Vec<u8>,
}

/// What a failed program says: its errors and its output, trimmed, each on its
/// own lines, or its status where it says nothing.
pub open spec fn failure_text(
    label: Seq<char>,
    status: Seq<char>,
    stdout: Seq<char>,
    stderr: Seq<char>,
) -> Seq<char> {
    let errors = trim(stderr);
    let output = trim(stdout);
    if errors.len() == 0 && output.len() == 0 {
        label + " exited with status "@ + status + "."@
    } else if errors.len() == 0 {
        output
    } else if output.len() == 0 {
        errors
    } else {
        errors + "\n"@ + output
    }
}

/// The output of a program that succeeded, or what is said of its failure.
pub open spec fn command_outcome(
    label: Seq<char>,
    success: bool,
    status: Seq<char>,
    stdout: Seq<u8>,
    stderr: Seq<u8>,
) -> Result<Seq<char>, Seq<char>> {
    if success {
        match utf8_text(stdout) {
            Ok(text) => Ok(text),
            Err(error) => Err(label + " output was not UTF-8: "@ + error),
        }
    } else {
        Err(failure_text(label, status, lossy_text(stdout), lossy_text(stderr)))
    }
}

/// What a failed program says.
pub fn failure_message(label: &str, status: &str, stdout: &str, stderr: &str) -> (message: String)
    ensures
        message@ == failure_text(label@, status@, stdout@, stderr@),
{
    let errors = trim_text(stderr);
    let output = trim_text(stdout);
    let has_errors = errors.as_str().unicode_len() > 0;
    let has_output = output.as_str().unicode_len() > 0;
    if !has_errors && !has_output {
        let mut message = label.to_owned();
        message.append(" exited with status ");
        message.append(status);
        message.append(".");
        message
    } else if !has_errors {
        output
    } else if !has_output {
        errors
    } else {
        let mut message = errors;
        message.append("\n");
        message.append(output.as_str());
        message
    }
}

/// What is said of a program whose output could not be read as text.
pub fn output_text(label: &str, text: Result<String, String>) -> (result: Result<String, String>)
    ensures
        text_result(result) == match text_result(text) {
            Ok(text) => Ok::<Seq<char>, Seq<char>>(text),
            Err(error) => Err(label@ + " output was not UTF-8: "@ + error),
        },
{
    match text {
        Ok(text) => Ok(text),
        Err(error) => {
            let mut message = label.to_owned();
            message.append(" output was not UTF-8: ");
            message.append(error.as_str());
            Err(message)
        },
    }
}

/// The result of a program that ended.
pub fn command_result(label: &str, output: CommandOutput) -> (result: Result<String, String>)
    ensures
        text_result(result) == command_outcome(
            label@,
            output.success,
            output.status@,
            output.stdout@,
            output.stderr@,
        ),
{
    if output.success {
        let text = text_from_utf8(output.stdout);
        output_text(label, text)
    } else {
        let stderr = text_from_utf8_lossy(output.stderr.as_slice());
        let stdout = text_from_utf8_lossy(output.stdout.as_slice());
        Err(
            failure_message(
                label,
                output.status.as_str(),
                stdout.as_str(),
                stderr.as_str(),
            ),
        )
    }
}

/// What a look at a running program shows.
#[derive(Debug, Clone, PartialEq, Eq)]
pub enum ProgramPoll {
    /// It has ended.
    Ended,
    /// It is running, for this many nanoseconds so far.
    Running(u128),
    /// The look failed.
    Failed(String),
}

/// What to do about a program.
#[derive(Debug, Clone, PartialEq, Eq)]
pub enum PollStep {
    /// Collect its output.
    Collect,
    /// Look again after a while.
    Wait,
    /// Kill it with all that it started, and report this.
    Kill(String),
}

/// What to do about a program that may run for `timeout_seconds`.
pub fn poll_step(label: &str, poll: ProgramPoll, timeout_seconds: u64) -> (step: PollStep)
    ensures
        match poll {
            ProgramPoll::Ended => step is Collect,
            ProgramPoll::Running(elapsed) => if elapsed >= timeout_seconds * 1_000_000_000 {
                step is Kill && step->Kill_0@ == label@ + " timed out after "@ + decimal(
                    timeout_seconds as nat,
                ) + " seconds."@
            } else {
                step is Wait
            },
            ProgramPoll::Failed(error) => step is Kill && step->Kill_0@ == "Could not monitor "@
                + label@ + ": "@ + error@,
        },
{
    match poll {
        ProgramPoll::Ended => PollStep::Collect,
        ProgramPoll::Running(elapsed) => {
            if elapsed >= timeout_seconds as u128 * 1_000_000_000 {
                let seconds = decimal_text(timeout_seconds as u128);
                let mut message = label.to_owned();
                message.append(" timed out after ");
                message.append(seconds.as_str());
                message.append(" seconds.");
                PollStep::Kill(message)
            } else {
                PollStep::Wait
            }
        },
        ProgramPoll::Failed(error) => {
            let mut message = "Could not monitor ".to_owned();
            message.append(label);
            message.append(": ");
            message.append(error.as_str());
            PollStep::Kill(message)
        },
    }
}

/// What is said of a program that could not be started.
pub fn start_failure(label: &str, error: &str) -> (message: String)
    ensures
        message@ == "Could not start "@ + label@ + ": "@ + error@,
{
    let mut message = "Could not start ".to_owned();
    message.append(label);
    message.append(": ");
    message.append(error);
    message
}

/// What is said of a program whose output could not be collected.
pub fn collect_failure(label: &str, error: &str) -> (message: String)
    ensures
        message@ == "Could not read "@ + label@ + " output: "@ + error@,
{
    let mut message = "Could not read ".to_owned();
    message.append(label);
    message.append(" output: ");
    message.append(error);
    message
}

/// The arguments with which PowerShell runs a script.
pub open spec fn powershell_arguments(
    script: Seq<char>,
    single_threaded: bool,
) -> Seq<Seq<char>> {
    if single_threaded {
        seq![
            "-NoProfile"@,
            "-NonInteractive"@,
            "-Sta"@,
            "-ExecutionPolicy"@,
            "Bypass"@,
            "-Command"@,
            script,
        ]
    } else {
        seq![
            "-NoProfile"@,
            "-NonInteractive"@,
            "-ExecutionPolicy"@,
            "Bypass"@,
            "-Command"@,
            script,
        ]
    }
}

/// The arguments with which PowerShell runs a script.
pub fn powershell_args(script: &str, single_threaded: bool) -> (args: Vec<String>)
    ensures
        texts(args@) == powershell_arguments(script@, single_threaded),
{
    let mut args: Vec<String> = Vec::new();
    args.push("-NoProfile".to_owned());
    args.push("-NonInteractive".to_owned());
    if single_threaded {
        args.push("-Sta".to_owned());
    }
    args.push("-ExecutionPolicy".to_owned());
    args.push("Bypass".to_owned());
    args.push("-Command".to_owned());
    args.push(script.to_owned());
    assert(texts(args@) =~= powershell_arguments(script@, single_threaded));
    args
}

/// A text as it stands between the single quotes of a PowerShell literal: each
/// single quote doubled.
pub open spec fn single_quoted(value: Seq<char>) -> Seq<char> {
    replace_char(value, '\'', seq!['\'', '\''])
}

/// Quotes a text for a PowerShell literal.
pub fn powershell_single_quoted(value: &str) -> (quoted: String)
    ensures
        quoted@ == single_quoted(value@),
{
    proof {
        reveal_strlit("''");
    }
    assert("''"@ =~= seq!['\'', '\'']);
    let chars = to_chars(value);
    let out = replace_each_char(chars.as_slice(), '\'', "''");
    from_chars(out.as_slice())
}

/// What a PowerShell literal stands for: two single quotes for one.
pub open spec fn unquoted(value: Seq<char>) -> Seq<char> {
    replace_text(value, seq!['\'', '\''], seq!['\''])
}

proof fn lemma_unquote_append(s: Seq<char>, c: char)
    ensures
        unquoted(single_quoted(s.push(c))) == unquoted(single_quoted(s)).push(c),
        single_quoted(s.push(c)) == single_quoted(s) + if c == '\'' {
            seq!['\'', '\'']
        } else {
            seq![c]
        },
{
    assert(s.push(c).drop_last() == s);
    let tail = if c == '\'' {
        seq!['\'', '\'']
    } else {
        seq![c]
    };
    lemma_unquote_pieces(s, tail);
    let two = seq!['\'', '\''];
    if c == '\'' {
        assert(two.is_prefix_of(tail));
        assert(tail.skip(2) == Seq::<char>::empty());
        assert(unquoted(tail) =~= seq!['\''] + unquoted(tail.skip(2)));
        assert(unquoted(tail) =~= seq!['\'']);
    } else {
        if two.is_prefix_of(tail) {
            assert(tail[0] == two[0]);
        }
        assert(tail.skip(1) == Seq::<char>::empty());
        assert(unquoted(tail) =~= seq![c] + unquoted(tail.skip(1)));
        assert(unquoted(tail) =~= seq![c]);
    }
    assert(unquoted(single_quoted(s)) + seq![c] =~= unquoted(single_quoted(s)).push(c));
}

/// Quoted text is read the same whatever follows it.
proof fn lemma_unquote_pieces(s: Seq<char>, rest: Seq<char>)
    ensures
        unquoted(single_quoted(s) + rest) == unquoted(single_quoted(s)) + unquoted(rest),
    decreases s.len(),
{
    let two = seq!['\'', '\''];
    if s.len() == 0 {
        assert(single_quoted(s) + rest == rest);
        assert(unquoted(Seq::<char>::empty()) =~= Seq::<char>::empty());
        assert(Seq::<char>::empty() + unquoted(rest) == unquoted(rest));
    } else {
        let front = s.drop_last();
        let c = s.last();
        let piece = if c == '\'' {
            two
        } else {
            seq![c]
        };
        assert(single_quoted(s) == single_quoted(front) + piece);
        lemma_unquote_pieces(front, piece + rest);
        lemma_unquote_pieces(front, piece);
        assert(single_quoted(s) + rest == single_quoted(front) + (piece + rest));
        let all = piece + rest;
        if c == '\'' {
            assert(two =~= all.subrange(0, 2));
            assert(two.is_prefix_of(all));
            assert(all.skip(2) == rest);
            assert(two =~= piece.subrange(0, 2));
            assert(two.is_prefix_of(piece));
            assert(piece.skip(2) == Seq::<char>::empty());
            assert(unquoted(piece) =~= seq!['\''] + unquoted(Seq::<char>::empty()));
            assert(unquoted(piece) =~= seq!['\'']);
            assert(unquoted(all) == seq!['\''] + unquoted(rest));
        } else {
            if two.is_prefix_of(all) {
                assert(all[0] == two[0]);
            }
            if two.is_prefix_of(piece) {
                assert(piece[0] == two[0]);
            }
            assert(all.skip(1) == rest);
            assert(piece.skip(1) == Seq::<char>::empty());
            assert(unquoted(piece) =~= seq![c] + unquoted(Seq::<char>::empty()));
            assert(unquoted(piece) =~= seq![c]);
            assert(unquoted(all) == seq![c] + unquoted(rest));
        }
        let head = unquoted(single_quoted(front));
        assert(head + (unquoted(piece) + unquoted(rest)) == (head + unquoted(piece)) + unquoted(
            rest,
        ));
    }
}

/// A PowerShell literal stands for the text that was quoted in it.
pub proof fn quoting_keeps_the_text(value: Seq<char>)
    ensures
        unquoted(single_quoted(value)) == value,
    decreases value.len(),
{
    if value.len() > 0 {
        quoting_keeps_the_text(value.drop_last());
        lemma_unquote_append(value.drop_last(), value.last());
        assert(value.drop_last().push(value.last()) == value);
    }
}

/// The last line that is not blank, trimmed.
pub open spec fn last_line(found: Seq<Seq<char>>) -> Option<Seq<char>>
    decreases found.len(),
{
    if found.len() == 0 {
        None
    } else if trim(found.last()).len() > 0 {
        Some(trim(found.last()))
    } else {
        last_line(found.drop_last())
    }
}

/// The last line of an output that is not blank, trimmed.
pub fn last_output_line(output: &str) -> (line: Option<String>)
    ensures
        optional_text(line) == last_line(lines(output@)),
{
    let chars = to_chars(output);
    let found = split_lines(chars.as_slice());
    let ghost all = lines(output@);
    let mut n: usize = found.len();
    assert(char_texts(found@).len() == found@.len());
    assert(all.take(n as int) == all);
    while n > 0
        invariant
            n <= found@.len(),
            all == lines(output@),
            char_texts(found@) == all,
            last_line(all.take(n as int)) == last_line(all),
        decreases n,
    {
        assert(all[n - 1] == found@[n - 1]@);
        assert(all.take(n as int).drop_last() == all.take(n - 1));
        let line = trim_chars(found[n - 1].as_slice());
        if line.len() > 0 {
            return Some(from_chars(line.as_slice()));
        }
        n = n - 1;
    }
    None
}

} // verus!
