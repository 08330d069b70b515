//! The text in which the elevated helper hands an eject summary back.
//!
//! Each line is a record of fields with tabs between them. A percent sign, a
//! tab, a carriage return and a line feed inside a field are escaped.

use crate::text::{
    char_texts, chars_are, decimal, decimal_text, from_chars, is_digit, join, lemma_decimal_digits,
    lemma_split_append, lemma_split_join, lemma_split_nonempty, lines, parse_undoes_decimal,
    parse_unsigned, replace_each_text, replace_text, split, split_chars, split_lines, to_chars,
    unsigned_value, without_carriage_return,
};
use crate::usb::{
    action_views, ActionView, DriveInfo, DriveView, EjectMethod, ProcessAction, SummaryView,
    UsbEjectSummary,
};
use vstd::prelude::*;
use vstd::string::*;

verus! {

/// How one character of a field is written.
pub open spec fn escape(c: char) -> Seq<char> {
    if c == '%' {
        seq!['%', '2', '5']
    } else if c == '\t' {
        seq!['%', '0', '9']
    } else if c == '\r' {
        seq!['%', '0', 'D']
    } else if c == '\n' {
        seq!['%', '0', 'A']
    } else {
        seq![c]
    }
}

/// How a field is written: each of its characters escaped.
pub open spec fn encoded_field(value: Seq<char>) -> Seq<char>
    decreases value.len(),
{
    if value.len() == 0 {
        Seq::empty()
    } else {
        escape(value[0]) + encoded_field(value.skip(1))
    }
}

/// What a written field stands for.
pub open spec fn decoded_field(value: Seq<char>) -> Seq<char> {
    let a = replace_text(value, seq!['%', '0', 'A'], seq!['\n']);
    let b = replace_text(a, seq!['%', '0', 'D'], seq!['\r']);
    let c = replace_text(b, seq!['%', '0', '9'], seq!['\t']);
    replace_text(c, seq!['%', '2', '5'], seq!['%'])
}

/// Writes a field.
pub fn encode_field(value: &str) -> (out: String)
    ensures
        out@ == encoded_field(value@),
{
    let chars = to_chars(value);
    let mut out = String::new();
    assert(chars@.skip(0) == chars@);
    for i in 0..chars.len()
        invariant
            chars@ == value@,
            out@ + encoded_field(value@.skip(i as int)) == encoded_field(value@),
    {
        let ghost before = out@;
        let c = chars[i];
        assert(value@.skip(i as int).skip(1) == value@.skip(i + 1));
        if c == '%' {
            out.append("%25");
        } else if c == '\t' {
            out.append("%09");
        } else if c == '\r' {
            out.append("%0D");
        } else if c == '\n' {
            out.append("%0A");
        } else {
            out.push(c);
        }
        proof {
            reveal_strlit("%25");
            reveal_strlit("%09");
            reveal_strlit("%0D");
            reveal_strlit("%0A");
        }
        assert(out@ =~= before + escape(c));
        let ghost rest = encoded_field(value@.skip(i + 1));
        assert((before + escape(c)) + rest == before + (escape(c) + rest));
    }
    assert(value@.skip(value@.len() as int) == Seq::<char>::empty());
    assert(out@ + Seq::<char>::empty() == out@);
    out
}

/// Reads a written field.
pub fn decode_field(value: &[char]) -> (out: String)
    ensures
        out@ == decoded_field(value@),
{
    proof {
        reveal_strlit("%0A");
        reveal_strlit("%0D");
        reveal_strlit("%09");
        reveal_strlit("%25");
        reveal_strlit("\n");
        reveal_strlit("\r");
        reveal_strlit("\t");
        reveal_strlit("%");
    }
    assert("%0A"@ =~= seq!['%', '0', 'A']);
    assert("%0D"@ =~= seq!['%', '0', 'D']);
    assert("%09"@ =~= seq!['%', '0', '9']);
    assert("%25"@ =~= seq!['%', '2', '5']);
    assert("\n"@ =~= seq!['\n']);
    assert("\r"@ =~= seq!['\r']);
    assert("\t"@ =~= seq!['\t']);
    assert("%"@ =~= seq!['%']);
    let a = replace_each_text(value, "%0A", "\n");
    let b = replace_each_text(a.as_slice(), "%0D", "\r");
    let c = replace_each_text(b.as_slice(), "%09", "\t");
    let d = replace_each_text(c.as_slice(), "%25", "%");
    from_chars(d.as_slice())
}

/// How a character is written once the first `stage` kinds of escapes are read:
/// line feed, carriage return, tab and percent sign, in this order.
spec fn partly_read(c: char, stage: int) -> Seq<char> {
    if (c == '\n' && stage >= 1) || (c == '\r' && stage >= 2) || (c == '\t' && stage >= 3) || (c
        == '%' && stage >= 4) {
        seq![c]
    } else {
        escape(c)
    }
}

spec fn partly_read_field(value: Seq<char>, stage: int) -> Seq<char>
    decreases value.len(),
{
    if value.len() == 0 {
        Seq::empty()
    } else {
        partly_read(value[0], stage) + partly_read_field(value.skip(1), stage)
    }
}

spec fn stage_char(stage: int) -> char {
    if stage == 0 {
        '\n'
    } else if stage == 1 {
        '\r'
    } else if stage == 2 {
        '\t'
    } else {
        '%'
    }
}

/// Text without a percent sign passes a replacement unchanged.
proof fn lemma_replace_skips(s: Seq<char>, t: Seq<char>, pattern: Seq<char>, by: Seq<char>)
    requires
        pattern.len() == 3,
        pattern[0] == '%',
        !s.contains('%'),
    ensures
        replace_text(s + t, pattern, by) == s + replace_text(t, pattern, by),
    decreases s.len(),
{
    if s.len() == 0 {
        assert(s + t == t);
        assert(s + replace_text(t, pattern, by) == replace_text(t, pattern, by));
    } else {
        let u = s + t;
        assert(s.contains(s[0]));
        assert(u[0] == s[0]);
        if pattern.is_prefix_of(u) {
            assert(pattern[0] == u[0]);
        }
        assert forall|i: int| 0 <= i < s.skip(1).len() implies s.skip(1)[i] != '%' by {
            assert(s.contains(s[i + 1]));
        }
        assert(u.skip(1) == s.skip(1) + t);
        lemma_replace_skips(s.skip(1), t, pattern, by);
        let rest = replace_text(t, pattern, by);
        assert(seq![s[0]] + (s.skip(1) + rest) == s + rest);
    }
}

/// Each replacement reads one kind of escape.
proof fn lemma_stage(value: Seq<char>, stage: int)
    requires
        0 <= stage < 4,
    ensures
        replace_text(
            partly_read_field(value, stage),
            escape(stage_char(stage)),
            seq![stage_char(stage)],
        ) == partly_read_field(value, stage + 1),
    decreases value.len(),
{
    let pattern = escape(stage_char(stage));
    let by = seq![stage_char(stage)];
    if value.len() > 0 {
        let c = value[0];
        let token = partly_read(c, stage);
        let rest = partly_read_field(value.skip(1), stage);
        lemma_stage(value.skip(1), stage);
        let s = token + rest;
        if c == stage_char(stage) {
            assert(token == pattern);
            assert(s.subrange(0, 3) == pattern);
            assert(pattern.is_prefix_of(s));
            assert(s.skip(3) == rest);
        } else if token.len() == 1 {
            assert(token == seq![c]);
            assert(c != '%');
            lemma_replace_skips(token, rest, pattern, by);
        } else {
            assert(token == escape(c));
            assert(token.len() == 3);
            assert(token != pattern);
            if pattern.is_prefix_of(s) {
                assert(s.subrange(0, 3) == token);
            }
            assert(s.skip(1) == token.skip(1) + rest);
            lemma_replace_skips(token.skip(1), rest, pattern, by);
            let next = replace_text(rest, pattern, by);
            assert(seq![s[0]] + (token.skip(1) + next) == token + next);
        }
    }
}

proof fn lemma_stage_ends(value: Seq<char>)
    ensures
        partly_read_field(value, 0) == encoded_field(value),
        partly_read_field(value, 4) == value,
    decreases value.len(),
{
    if value.len() > 0 {
        lemma_stage_ends(value.skip(1));
        assert(seq![value[0]] + value.skip(1) == value);
    }
}

/// Reading a written field gives the field back.
pub proof fn decode_undoes_encode_field(value: Seq<char>)
    ensures
        decoded_field(encoded_field(value)) == value,
{
    lemma_stage_ends(value);
    lemma_stage(value, 0);
    lemma_stage(value, 1);
    lemma_stage(value, 2);
    lemma_stage(value, 3);
}

/// A written field holds neither a tab nor a line end.
pub proof fn encoded_field_stays_in_its_record(value: Seq<char>)
    ensures
        !encoded_field(value).contains('\t'),
        !encoded_field(value).contains('\r'),
        !encoded_field(value).contains('\n'),
    decreases value.len(),
{
    if value.len() > 0 {
        encoded_field_stays_in_its_record(value.skip(1));
        let head = escape(value[0]);
        let rest = encoded_field(value.skip(1));
        assert forall|i: int| 0 <= i < (head + rest).len() implies (head + rest)[i] != '\t' && (head
            + rest)[i] != '\r' && (head + rest)[i] != '\n' by {
            if i >= head.len() {
                assert(rest.contains(rest[i - head.len()]));
            }
        }
    }
}

/// The word for a way of ejecting.
pub open spec fn method_word(method: EjectMethod) -> Seq<char> {
    match method {
        EjectMethod::NotEjected => "none"@,
        EjectMethod::Shell => "shell"@,
        EjectMethod::Mountvol => "mountvol"@,
    }
}

/// The way of ejecting that a word stands for; an unknown word stands for none.
pub open spec fn method_of_word(word: Seq<char>) -> EjectMethod {
    if word == "shell"@ {
        EjectMethod::Shell
    } else if word == "mountvol"@ {
        EjectMethod::Mountvol
    } else {
        EjectMethod::NotEjected
    }
}

/// Writes a way of ejecting.
pub fn encode_eject_method(method: EjectMethod) -> (word: &'static str)
    ensures
        word@ == method_word(method),
{
    match method {
        EjectMethod::NotEjected => "none",
        EjectMethod::Shell => "shell",
        EjectMethod::Mountvol => "mountvol",
    }
}

/// Reads a way of ejecting.
pub fn decode_eject_method(word: &[char]) -> (method: EjectMethod)
    ensures
        method == method_of_word(word@),
{
    if chars_are(word, "shell") {
        EjectMethod::Shell
    } else if chars_are(word, "mountvol") {
        EjectMethod::Mountvol
    } else {
        EjectMethod::NotEjected
    }
}

/// Reading the word for a way of ejecting gives the way back.
pub proof fn decode_undoes_encode_method(method: EjectMethod)
    ensures
        method_of_word(method_word(method)) == method,
{
    reveal_strlit("none");
    reveal_strlit("shell");
    reveal_strlit("mountvol");
    assert("none"@.len() == 4 && "shell"@.len() == 5 && "mountvol"@.len() == 8);
}

/// The word for a yes or no.
pub open spec fn bool_word(value: bool) -> Seq<char> {
    if value {
        "true"@
    } else {
        "false"@
    }
}

fn bool_text(value: bool) -> (word: &'static str)
    ensures
        word@ == bool_word(value),
{
    if value {
        "true"
    } else {
        "false"
    }
}

/// The fields of a process action's record.
pub open spec fn action_record(kind: Seq<char>, action: ActionView) -> Seq<Seq<char>> {
    seq![
        kind,
        decimal(action.pid as nat),
        encoded_field(action.name),
        encoded_field(
            match action.path {
                Some(path) => path,
                None => Seq::empty(),
            },
        ),
        encoded_field(action.action),
    ]
}

/// The records of a summary, in the order in which they are written.
pub open spec fn summary_records(summary: SummaryView) -> Seq<Seq<Seq<char>>> {
    seq![
        seq!["EJECTED"@, bool_word(summary.ejected)],
        seq!["ADMIN"@, bool_word(summary.admin_required)],
        seq!["METHOD"@, method_word(summary.eject_method)],
        seq!["RESOURCES"@, decimal(summary.resources_registered as nat)],
        seq!["LIMITED"@, bool_word(summary.resource_scan_limited)],
    ] + summary.restart_manager_processes.map_values(|a: ActionView| action_record("RM"@, a))
        + summary.process_scan_actions.map_values(|a: ActionView| action_record("PS"@, a))
        + summary.notes.map_values(|note: Seq<char>| seq!["NOTE"@, encoded_field(note)])
}

/// A record as a line: its fields with tabs between them and a line feed.
pub open spec fn record_line(record: Seq<Seq<char>>) -> Seq<char> {
    join(record, seq!['\t']).push('\n')
}

/// Records as lines, one after the other.
pub open spec fn records_text(records: Seq<Seq<Seq<char>>>) -> Seq<char>
    decreases records.len(),
{
    if records.len() == 0 {
        Seq::empty()
    } else {
        records_text(records.drop_last()) + record_line(records.last())
    }
}

/// The text of a summary.
pub open spec fn encoded_summary(summary: SummaryView) -> Seq<char> {
    records_text(summary_records(summary))
}

/// The text of a failure.
pub open spec fn encoded_error(error: Seq<char>) -> Seq<char> {
    record_line(seq!["ERROR"@, encoded_field(error)])
}

proof fn lemma_pair_line(a: Seq<char>, b: Seq<char>)
    ensures
        record_line(seq![a, b]) == a + "\t"@ + b + "\n"@,
{
    reveal_strlit("\t");
    reveal_strlit("\n");
    assert(seq![a, b].drop_last() == seq![a]);
    assert(join(seq![a], seq!['\t']) == a);
    assert("\t"@ =~= seq!['\t']);
    assert(a + seq!['\t'] + b + "\n"@ =~= (a + seq!['\t'] + b).push('\n'));
}

/// A record of two fields as a line.
fn pair_line(name: &str, value: &str) -> (line: String)
    ensures
        line@ == record_line(seq![name@, value@]),
{
    let mut line = name.to_owned();
    line.append("\t");
    line.append(value);
    line.append("\n");
    proof {
        lemma_pair_line(name@, value@);
    }
    line
}

/// Writes a process action as a line.
pub fn encode_action(kind: &str, action: &ProcessAction) -> (line: String)
    ensures
        line@ == record_line(action_record(kind@, action@)),
{
    let pid = decimal_text(action.pid as u128);
    let name = encode_field(action.name.as_str());
    let path = match &action.path {
        Some(path) => encode_field(path.as_str()),
        None => encode_field(""),
    };
    proof {
        reveal_strlit("");
        reveal_strlit("\t");
        reveal_strlit("\n");
        assert(""@ =~= Seq::<char>::empty());
    }
    let what = encode_field(action.action.as_str());
    let mut line = kind.to_owned();
    line.append("\t");
    line.append(pid.as_str());
    line.append("\t");
    line.append(name.as_str());
    line.append("\t");
    line.append(path.as_str());
    line.append("\t");
    line.append(what.as_str());
    line.append("\n");
    proof {
        let fields = action_record(kind@, action@);
        let tab = seq!['\t'];
        assert("\t"@ =~= tab);
        assert(fields == seq![kind@, pid@, name@, path@, what@]);
        assert(fields.drop_last() =~= seq![kind@, pid@, name@, path@]);
        assert(fields.drop_last().drop_last() =~= seq![kind@, pid@, name@]);
        assert(fields.drop_last().drop_last().drop_last() =~= seq![kind@, pid@]);
        assert(fields.drop_last().drop_last().drop_last().drop_last() =~= seq![kind@]);
        assert(join(seq![kind@], tab) == kind@);
        assert(join(seq![kind@, pid@], tab) == kind@ + tab + pid@);
        assert(join(seq![kind@, pid@, name@], tab) == kind@ + tab + pid@ + tab + name@);
        assert(join(seq![kind@, pid@, name@, path@], tab) == kind@ + tab + pid@ + tab + name@ + tab
            + path@);
        assert(join(fields, tab) == kind@ + tab + pid@ + tab + name@ + tab + path@ + tab + what@);
        assert(line@ =~= record_line(fields));
    }
    line
}

proof fn lemma_records_push(records: Seq<Seq<Seq<char>>>, record: Seq<Seq<char>>)
    ensures
        records_text(records.push(record)) == records_text(records) + record_line(record),
{
    assert(records.push(record).drop_last() == records);
}

/// Writes a list of process actions after what is already written.
fn encode_actions(
    kind: &str,
    actions: &Vec<ProcessAction>,
    out: &mut String,
    Ghost(records): Ghost<Seq<Seq<Seq<char>>>>,
)
    requires
        old(out)@ == records_text(records),
    ensures
        final(out)@ == records_text(
            records + action_views(actions@).map_values(|a: ActionView| action_record(kind@, a)),
        ),
{
    let ghost lines = action_views(actions@).map_values(|a: ActionView| action_record(kind@, a));
    assert(records + lines.take(0) == records);
    for i in 0..actions.len()
        invariant
            lines == action_views(actions@).map_values(|a: ActionView| action_record(kind@, a)),
            out@ == records_text(records + lines.take(i as int)),
    {
        let line = encode_action(kind, &actions[i]);
        out.append(line.as_str());
        proof {
            lemma_records_push(records + lines.take(i as int), lines[i as int]);
            assert((records + lines.take(i as int)).push(lines[i as int]) == records + lines.take(
                i + 1,
            ));
        }
    }
    assert(lines.take(lines.len() as int) == lines);
}

/// Writes a summary.
pub fn encode_summary(summary: &UsbEjectSummary) -> (out: String)
    ensures
        out@ == encoded_summary(summary@),
{
    let resources = decimal_text(summary.resources_registered as u128);
    let ejected = pair_line("EJECTED", bool_text(summary.ejected));
    let admin = pair_line("ADMIN", bool_text(summary.admin_required));
    let method = pair_line("METHOD", encode_eject_method(summary.eject_method));
    let registered = pair_line("RESOURCES", resources.as_str());
    let limited = pair_line("LIMITED", bool_text(summary.resource_scan_limited));
    let mut out = ejected;
    out.append(admin.as_str());
    out.append(method.as_str());
    out.append(registered.as_str());
    out.append(limited.as_str());
    let ghost head = summary_records(summary@).take(5);
    proof {
        let r = summary_records(summary@);
        let none = Seq::<Seq<Seq<char>>>::empty();
        lemma_records_push(none, r[0]);
        lemma_records_push(none.push(r[0]), r[1]);
        lemma_records_push(none.push(r[0]).push(r[1]), r[2]);
        lemma_records_push(none.push(r[0]).push(r[1]).push(r[2]), r[3]);
        lemma_records_push(none.push(r[0]).push(r[1]).push(r[2]).push(r[3]), r[4]);
        assert(head =~= none.push(r[0]).push(r[1]).push(r[2]).push(r[3]).push(r[4]));
        assert(Seq::<char>::empty() + ejected@ == ejected@);
    }
    let ghost rm = summary@.restart_manager_processes.map_values(
        |a: ActionView| action_record("RM"@, a),
    );
    let ghost ps = summary@.process_scan_actions.map_values(
        |a: ActionView| action_record("PS"@, a),
    );
    let ghost notes = summary@.notes.map_values(
        |note: Seq<char>| seq!["NOTE"@, encoded_field(note)],
    );
    encode_actions("RM", &summary.restart_manager_processes, &mut out, Ghost(head));
    encode_actions("PS", &summary.process_scan_actions, &mut out, Ghost(head + rm));
    let ghost front = head + rm + ps;
    assert(front + notes.take(0) == front);
    for i in 0..summary.notes.len()
        invariant
            notes == summary@.notes.map_values(
                |note: Seq<char>| seq!["NOTE"@, encoded_field(note)],
            ),
            out@ == records_text(front + notes.take(i as int)),
    {
        let field = encode_field(summary.notes[i].as_str());
        let line = pair_line("NOTE", field.as_str());
        out.append(line.as_str());
        proof {
            assert(summary@.notes[i as int] == summary.notes@[i as int]@);
            assert(notes[i as int] == seq!["NOTE"@, encoded_field(summary.notes@[i as int]@)]);
            lemma_records_push(front + notes.take(i as int), notes[i as int]);
            assert((front + notes.take(i as int)).push(notes[i as int]) == front + notes.take(
                i + 1,
            ));
        }
    }
    assert(notes.take(notes.len() as int) == notes);
    assert(front + notes == summary_records(summary@));
    out
}

/// Writes a failure.
pub fn encode_error(error: &str) -> (out: String)
    ensures
        out@ == encoded_error(error@),
{
    let field = encode_field(error);
    pair_line("ERROR", field.as_str())
}

/// The field at index `i`, or `default` where the record is shorter.
pub open spec fn field_or(fields: Seq<Seq<char>>, i: int, default: Seq<char>) -> Seq<char> {
    if 0 <= i < fields.len() {
        fields[i]
    } else {
        default
    }
}

/// The process action of a record, if the second field is a process number.
pub open spec fn decoded_action(fields: Seq<Seq<char>>) -> Option<ActionView> {
    if fields.len() < 2 {
        None
    } else {
        match unsigned_value(fields[1], u32::MAX as nat) {
            Err(_) => None,
            Ok(pid) => Some(
                ActionView {
                    pid: pid as u32,
                    name: decoded_field(field_or(fields, 2, Seq::empty())),
                    path: if fields.len() > 3 && decoded_field(fields[3]).len() > 0 {
                        Some(decoded_field(fields[3]))
                    } else {
                        None
                    },
                    action: decoded_field(field_or(fields, 4, Seq::empty())),
                },
            ),
        }
    }
}

/// The summary before any record is read.
pub open spec fn empty_summary(drive: DriveView) -> SummaryView {
    SummaryView {
        drive,
        resources_registered: 0,
        resource_scan_limited: false,
        restart_manager_processes: Seq::empty(),
        process_scan_actions: Seq::empty(),
        notes: Seq::empty(),
        ejected: false,
        admin_required: false,
        eject_method: EjectMethod::NotEjected,
    }
}

/// What one record adds to a summary; an error record ends the reading.
pub open spec fn decoded_record(summary: SummaryView, fields: Seq<Seq<char>>) -> Result<
    SummaryView,
    Seq<char>,
> {
    let name = field_or(fields, 0, Seq::empty());
    let yes = fields.len() > 1 && fields[1] == "true"@;
    if name == "ERROR"@ {
        Err(decoded_field(field_or(fields, 1, "Elevated helper failed."@)))
    } else if name == "EJECTED"@ {
        Ok(SummaryView { ejected: yes, ..summary })
    } else if name == "ADMIN"@ {
        Ok(SummaryView { admin_required: yes, ..summary })
    } else if name == "METHOD"@ {
        Ok(SummaryView { eject_method: method_of_word(field_or(fields, 1, "none"@)), ..summary })
    } else if name == "RESOURCES"@ {
        let count = match unsigned_value(field_or(fields, 1, "0"@), usize::MAX as nat) {
            Ok(count) => count as usize,
            Err(_) => 0,
        };
        Ok(SummaryView { resources_registered: count, ..summary })
    } else if name == "LIMITED"@ {
        Ok(SummaryView { resource_scan_limited: yes, ..summary })
    } else if name == "RM"@ {
        match decoded_action(fields) {
            Some(action) => Ok(
                SummaryView {
                    restart_manager_processes: summary.restart_manager_processes.push(action),
                    ..summary
                },
            ),
            None => Ok(summary),
        }
    } else if name == "PS"@ {
        match decoded_action(fields) {
            Some(action) => Ok(
                SummaryView {
                    process_scan_actions: summary.process_scan_actions.push(action),
                    ..summary
                },
            ),
            None => Ok(summary),
        }
    } else if name == "NOTE"@ {
        Ok(
            SummaryView {
                notes: summary.notes.push(decoded_field(field_or(fields, 1, Seq::empty()))),
                ..summary
            },
        )
    } else {
        Ok(summary)
    }
}

/// What records add to a summary, read in order.
pub open spec fn decoded_records(summary: SummaryView, records: Seq<Seq<Seq<char>>>) -> Result<
    SummaryView,
    Seq<char>,
>
    decreases records.len(),
{
    if records.len() == 0 {
        Ok(summary)
    } else {
        match decoded_records(summary, records.drop_last()) {
            Ok(next) => decoded_record(next, records.last()),
            Err(error) => Err(error),
        }
    }
}

/// The records of a text: its lines, cut at the tabs.
pub open spec fn records_of(encoded: Seq<char>) -> Seq<Seq<Seq<char>>> {
    lines(encoded).map_values(|line: Seq<char>| split(line, '\t'))
}

/// The summary that a text holds for a drive.
pub open spec fn decoded_summary(encoded: Seq<char>, drive: DriveView) -> Result<
    SummaryView,
    Seq<char>,
> {
    decoded_records(empty_summary(drive), records_of(encoded))
}

/// A summary or a failure as plain values.
pub open spec fn summary_result(result: Result<UsbEjectSummary, String>) -> Result<
    SummaryView,
    Seq<char>,
> {
    match result {
        Ok(summary) => Ok(summary@),
        Err(error) => Err(error@),
    }
}

proof fn lemma_decode_error(summary: SummaryView, records: Seq<Seq<Seq<char>>>, i: int)
    requires
        0 <= i <= records.len(),
        decoded_records(summary, records.take(i)) is Err,
    ensures
        decoded_records(summary, records) == decoded_records(summary, records.take(i)),
    decreases records.len() - i,
{
    if i == records.len() {
        assert(records.take(i) == records);
    } else {
        assert(records.take(i + 1).drop_last() == records.take(i));
        lemma_decode_error(summary, records, i + 1);
    }
}

/// Reads a process action from the fields of a record.
pub fn decode_action(fields: &Vec<Vec<char>>) -> (action: Option<ProcessAction>)
    ensures
        match action {
            Some(action) => decoded_action(char_texts(fields@)) == Some(action@),
            None => decoded_action(char_texts(fields@)) is None,
        },
{
    let ghost all = char_texts(fields@);
    let n: usize = fields.len();
    if n < 2 {
        return None;
    }
    assert(all[1] == fields@[1]@);
    let pid: u32 = match parse_unsigned(fields[1].as_slice(), u32::MAX as u64) {
        Ok(pid) => pid as u32,
        Err(_) => return None,
    };
    let nothing: Vec<char> = Vec::new();
    let name = if n > 2 {
        assert(all[2] == fields@[2]@);
        decode_field(fields[2].as_slice())
    } else {
        decode_field(nothing.as_slice())
    };
    let path = if n > 3 {
        assert(all[3] == fields@[3]@);
        let path = decode_field(fields[3].as_slice());
        if path.as_str().unicode_len() > 0 {
            Some(path)
        } else {
            None
        }
    } else {
        None
    };
    let what = if n > 4 {
        assert(all[4] == fields@[4]@);
        decode_field(fields[4].as_slice())
    } else {
        decode_field(nothing.as_slice())
    };
    Some(ProcessAction { pid, name, path, action: what })
}

proof fn lemma_push_action(actions: Seq<ProcessAction>, action: ProcessAction)
    ensures
        action_views(actions.push(action)) == action_views(actions).push(action@),
{
    assert(action_views(actions.push(action)) =~= action_views(actions).push(action@));
}

/// Reads a summary for a drive.
pub fn decode_summary(encoded: &str, drive: DriveInfo) -> (result: Result<UsbEjectSummary, String>)
    ensures
        summary_result(result) == decoded_summary(encoded@, drive@),
{
    let ghost start = empty_summary(drive@);
    let mut summary = UsbEjectSummary {
        drive,
        resources_registered: 0,
        resource_scan_limited: false,
        restart_manager_processes: Vec::new(),
        process_scan_actions: Vec::new(),
        notes: Vec::new(),
        ejected: false,
        admin_required: false,
        eject_method: EjectMethod::NotEjected,
    };
    let chars = to_chars(encoded);
    let found = split_lines(chars.as_slice());
    let ghost records = records_of(encoded@);
    assert(summary@.restart_manager_processes =~= Seq::empty());
    assert(summary@.process_scan_actions =~= Seq::empty());
    assert(summary@.notes =~= Seq::empty());
    assert(records.take(0) == Seq::<Seq<Seq<char>>>::empty());
    for i in 0..found.len()
        invariant
            char_texts(found@) == lines(encoded@),
            records == records_of(encoded@),
            start == empty_summary(drive@),
            decoded_records(start, records.take(i as int)) == Ok::<SummaryView, Seq<char>>(summary@),
    {
        let fields = split_chars(found[i].as_slice(), '\t');
        let n: usize = fields.len();
        let ghost before = summary@;
        let ghost all = records[i as int];
        proof {
            assert(lines(encoded@)[i as int] == found@[i as int]@);
            assert(all == char_texts(fields@));
            lemma_split_nonempty(found@[i as int]@, '\t');
            assert(records.take(i + 1).drop_last() == records.take(i as int));
            assert(records.take(i + 1).last() == all);
            assert(forall|k: int| 0 <= k < n ==> #[trigger] all[k] == fields@[k]@);
        }
        let yes = n > 1 && chars_are(fields[1].as_slice(), "true");
        if chars_are(fields[0].as_slice(), "ERROR") {
            let error = if n > 1 {
                decode_field(fields[1].as_slice())
            } else {
                let default = to_chars("Elevated helper failed.");
                decode_field(default.as_slice())
            };
            proof {
                lemma_decode_error(start, records, i + 1);
            }
            return Err(error);
        } else if chars_are(fields[0].as_slice(), "EJECTED") {
            summary.ejected = yes;
        } else if chars_are(fields[0].as_slice(), "ADMIN") {
            summary.admin_required = yes;
        } else if chars_are(fields[0].as_slice(), "METHOD") {
            summary.eject_method =
            if n > 1 {
                decode_eject_method(fields[1].as_slice())
            } else {
                let default = to_chars("none");
                decode_eject_method(default.as_slice())
            };
        } else if chars_are(fields[0].as_slice(), "RESOURCES") {
            let parsed = if n > 1 {
                parse_unsigned(fields[1].as_slice(), usize::MAX as u64)
            } else {
                let default = to_chars("0");
                parse_unsigned(default.as_slice(), usize::MAX as u64)
            };
            summary.resources_registered =
            match parsed {
                Ok(count) => count as usize,
                Err(_) => 0,
            };
        } else if chars_are(fields[0].as_slice(), "LIMITED") {
            summary.resource_scan_limited = yes;
        } else if chars_are(fields[0].as_slice(), "RM") {
            match decode_action(&fields) {
                Some(action) => {
                    proof {
                        lemma_push_action(summary.restart_manager_processes@, action);
                    }
                    summary.restart_manager_processes.push(action);
                },
                None => {},
            }
        } else if chars_are(fields[0].as_slice(), "PS") {
            match decode_action(&fields) {
                Some(action) => {
                    proof {
                        lemma_push_action(summary.process_scan_actions@, action);
                    }
                    summary.process_scan_actions.push(action);
                },
                None => {},
            }
        } else if chars_are(fields[0].as_slice(), "NOTE") {
            let note = if n > 1 {
                decode_field(fields[1].as_slice())
            } else {
                let nothing: Vec<char> = Vec::new();
                decode_field(nothing.as_slice())
            };
            summary.notes.push(note);
            assert(summary@.notes =~= before.notes.push(note@));
        }
        assert(Ok::<SummaryView, Seq<char>>(summary@) == decoded_record(before, all));
    }
    assert(records.take(records.len() as int) == records);
    Ok(summary)
}

/// A field that cannot be taken for more than one, nor for a line end.
spec fn is_plain(field: Seq<char>) -> bool {
    !field.contains('\t') && !field.contains('\r') && !field.contains('\n')
}

spec fn is_plain_record(record: Seq<Seq<char>>) -> bool {
    record.len() >= 2 && forall|i: int| 0 <= i < record.len() ==> is_plain(#[trigger] record[i])
}

proof fn lemma_joined_plain(record: Seq<Seq<char>>)
    requires
        record.len() > 0,
        forall|i: int| 0 <= i < record.len() ==> is_plain(#[trigger] record[i]),
    ensures
        !join(record, seq!['\t']).contains('\n'),
        !join(record, seq!['\t']).contains('\r'),
    decreases record.len(),
{
    let all = join(record, seq!['\t']);
    if record.len() > 1 {
        let front = join(record.drop_last(), seq!['\t']);
        lemma_joined_plain(record.drop_last());
        let last = record.last();
        assert forall|i: int| 0 <= i < all.len() implies all[i] != '\n' && all[i] != '\r' by {
            if i < front.len() {
                assert(front.contains(front[i]));
            } else if i > front.len() {
                assert(last.contains(last[i - front.len() - 1]));
            }
        }
    }
}

proof fn lemma_records_split(records: Seq<Seq<Seq<char>>>)
    requires
        forall|i: int| 0 <= i < records.len() ==> is_plain_record(#[trigger] records[i]),
    ensures
        split(records_text(records), '\n') == records.map_values(
            |r: Seq<Seq<char>>| join(r, seq!['\t']),
        ).push(Seq::empty()),
    decreases records.len(),
{
    let joined = records.map_values(|r: Seq<Seq<char>>| join(r, seq!['\t']));
    if records.len() == 0 {
        assert(joined.push(Seq::<char>::empty()) =~= seq![Seq::<char>::empty()]);
    } else {
        let front = records.drop_last();
        let last = records.last();
        lemma_records_split(front);
        lemma_joined_plain(last);
        let body = join(last, seq!['\t']);
        let before = records_text(front);
        lemma_split_append(before, body, '\n');
        let front_joined = front.map_values(|r: Seq<Seq<char>>| join(r, seq!['\t']));
        assert(front_joined.push(Seq::<char>::empty()).drop_last() == front_joined);
        assert(Seq::<char>::empty() + body == body);
        assert(split(before + body, '\n') == front_joined.push(body));
        assert(front_joined.push(body) =~= joined);
        let text = records_text(records);
        assert(text =~= (before + body).push('\n'));
        assert(text.drop_last() == before + body);
    }
}

proof fn lemma_records_of(records: Seq<Seq<Seq<char>>>)
    requires
        forall|i: int| 0 <= i < records.len() ==> is_plain_record(#[trigger] records[i]),
    ensures
        records_of(records_text(records)) == records,
{
    lemma_records_split(records);
    let joined = records.map_values(|r: Seq<Seq<char>>| join(r, seq!['\t']));
    let pieces = split(records_text(records), '\n');
    assert(pieces.drop_last() == joined);
    let found = records_of(records_text(records));
    assert(found.len() == records.len());
    assert forall|i: int| 0 <= i < records.len() implies found[i] == records[i] by {
        let record = records[i];
        assert(is_plain_record(record));
        assert(forall|k: int| 0 <= k < record.len() ==> is_plain(#[trigger] record[k]));
        lemma_joined_plain(record);
        let line = join(record, seq!['\t']);
        assert(joined[i] == line);
        if line.len() > 0 && line.last() == '\r' {
            assert(line.contains(line.last()));
        }
        assert(without_carriage_return(line) == line);
        lemma_split_join(record, '\t');
    }
    assert(found =~= records);
}

proof fn lemma_decode_append(
    summary: SummaryView,
    a: Seq<Seq<Seq<char>>>,
    b: Seq<Seq<Seq<char>>>,
)
    ensures
        decoded_records(summary, a + b) == match decoded_records(summary, a) {
            Ok(next) => decoded_records(next, b),
            Err(error) => Err(error),
        },
    decreases b.len(),
{
    if b.len() == 0 {
        assert(a + b == a);
    } else {
        lemma_decode_append(summary, a, b.drop_last());
        assert((a + b).drop_last() == a + b.drop_last());
        assert((a + b).last() == b.last());
    }
}

/// The record names differ, and they and the words are plain.
proof fn lemma_words()
    ensures
        "ERROR"@ != "EJECTED"@ && "ERROR"@ != "ADMIN"@ && "ERROR"@ != "METHOD"@ && "ERROR"@
            != "RESOURCES"@ && "ERROR"@ != "LIMITED"@ && "ERROR"@ != "RM"@ && "ERROR"@ != "PS"@
            && "ERROR"@ != "NOTE"@,
        "EJECTED"@ != "ADMIN"@ && "EJECTED"@ != "METHOD"@ && "EJECTED"@ != "RESOURCES"@
            && "EJECTED"@ != "LIMITED"@ && "EJECTED"@ != "RM"@ && "EJECTED"@ != "PS"@ && "EJECTED"@
            != "NOTE"@,
        "ADMIN"@ != "METHOD"@ && "ADMIN"@ != "RESOURCES"@ && "ADMIN"@ != "LIMITED"@ && "ADMIN"@
            != "RM"@ && "ADMIN"@ != "PS"@ && "ADMIN"@ != "NOTE"@,
        "METHOD"@ != "RESOURCES"@ && "METHOD"@ != "LIMITED"@ && "METHOD"@ != "RM"@ && "METHOD"@
            != "PS"@ && "METHOD"@ != "NOTE"@,
        "RESOURCES"@ != "LIMITED"@ && "RESOURCES"@ != "RM"@ && "RESOURCES"@ != "PS"@ && "RESOURCES"@
            != "NOTE"@,
        "LIMITED"@ != "RM"@ && "LIMITED"@ != "PS"@ && "LIMITED"@ != "NOTE"@,
        "RM"@ != "PS"@ && "RM"@ != "NOTE"@ && "PS"@ != "NOTE"@,
        "true"@ != "false"@,
        is_plain("ERROR"@) && is_plain("EJECTED"@) && is_plain("ADMIN"@) && is_plain("METHOD"@)
            && is_plain("RESOURCES"@) && is_plain("LIMITED"@) && is_plain("RM"@) && is_plain("PS"@)
            && is_plain("NOTE"@),
        is_plain("true"@) && is_plain("false"@) && is_plain("none"@) && is_plain("shell"@)
            && is_plain("mountvol"@),
{
    reveal_strlit("ERROR");
    reveal_strlit("EJECTED");
    reveal_strlit("ADMIN");
    reveal_strlit("METHOD");
    reveal_strlit("RESOURCES");
    reveal_strlit("LIMITED");
    reveal_strlit("RM");
    reveal_strlit("PS");
    reveal_strlit("NOTE");
    reveal_strlit("true");
    reveal_strlit("false");
    reveal_strlit("none");
    reveal_strlit("shell");
    reveal_strlit("mountvol");
    assert("ERROR"@[0] == 'E' && "ADMIN"@[0] == 'A');
    assert("EJECTED"@[0] == 'E' && "LIMITED"@[0] == 'L');
    assert("RM"@[0] == 'R' && "PS"@[0] == 'P');
    assert("ERROR"@.len() == 5 && "EJECTED"@.len() == 7 && "ADMIN"@.len() == 5 && "METHOD"@.len()
        == 6 && "RESOURCES"@.len() == 9 && "LIMITED"@.len() == 7 && "RM"@.len() == 2 && "PS"@.len()
        == 2 && "NOTE"@.len() == 4 && "true"@.len() == 4 && "false"@.len() == 5);
}

proof fn lemma_plain_decimal(n: nat)
    ensures
        is_plain(decimal(n)),
{
    lemma_decimal_digits(n);
    assert(forall|i: int| 0 <= i < decimal(n).len() ==> is_digit(#[trigger] decimal(n)[i]));
}

/// A path that is there is not empty: the record writes both as nothing.
pub open spec fn has_writable_path(action: ActionView) -> bool {
    match action.path {
        Some(path) => path.len() > 0,
        None => true,
    }
}

proof fn lemma_action_round_trip(kind: Seq<char>, action: ActionView)
    requires
        has_writable_path(action),
        is_plain(kind),
    ensures
        decoded_action(action_record(kind, action)) == Some(action),
        is_plain_record(action_record(kind, action)),
{
    parse_undoes_decimal(action.pid as nat, u32::MAX as nat);
    lemma_plain_decimal(action.pid as nat);
    let path = match action.path {
        Some(path) => path,
        None => Seq::empty(),
    };
    decode_undoes_encode_field(action.name);
    decode_undoes_encode_field(path);
    decode_undoes_encode_field(action.action);
    encoded_field_stays_in_its_record(action.name);
    encoded_field_stays_in_its_record(path);
    encoded_field_stays_in_its_record(action.action);
}

proof fn lemma_rm_records(summary: SummaryView, actions: Seq<ActionView>)
    requires
        forall|i: int| 0 <= i < actions.len() ==> has_writable_path(#[trigger] actions[i]),
    ensures
        decoded_records(
            summary,
            actions.map_values(|a: ActionView| action_record("RM"@, a)),
        ) == Ok::<SummaryView, Seq<char>>(
            SummaryView {
                restart_manager_processes: summary.restart_manager_processes + actions,
                ..summary
            },
        ),
    decreases actions.len(),
{
    let records = actions.map_values(|a: ActionView| action_record("RM"@, a));
    if actions.len() == 0 {
        assert(summary.restart_manager_processes + actions == summary.restart_manager_processes);
    } else {
        let front = actions.drop_last();
        lemma_rm_records(summary, front);
        assert(records.drop_last() =~= front.map_values(|a: ActionView| action_record("RM"@, a)));
        lemma_words();
        lemma_action_round_trip("RM"@, actions.last());
        assert((summary.restart_manager_processes + front).push(actions.last())
            == summary.restart_manager_processes + actions);
    }
}

proof fn lemma_ps_records(summary: SummaryView, actions: Seq<ActionView>)
    requires
        forall|i: int| 0 <= i < actions.len() ==> has_writable_path(#[trigger] actions[i]),
    ensures
        decoded_records(
            summary,
            actions.map_values(|a: ActionView| action_record("PS"@, a)),
        ) == Ok::<SummaryView, Seq<char>>(
            SummaryView {
                process_scan_actions: summary.process_scan_actions + actions,
                ..summary
            },
        ),
    decreases actions.len(),
{
    let records = actions.map_values(|a: ActionView| action_record("PS"@, a));
    if actions.len() == 0 {
        assert(summary.process_scan_actions + actions == summary.process_scan_actions);
    } else {
        let front = actions.drop_last();
        lemma_ps_records(summary, front);
        assert(records.drop_last() =~= front.map_values(|a: ActionView| action_record("PS"@, a)));
        lemma_words();
        lemma_action_round_trip("PS"@, actions.last());
        assert((summary.process_scan_actions + front).push(actions.last())
            == summary.process_scan_actions + actions);
    }
}

proof fn lemma_note_records(summary: SummaryView, notes: Seq<Seq<char>>)
    ensures
        decoded_records(
            summary,
            notes.map_values(|note: Seq<char>| seq!["NOTE"@, encoded_field(note)]),
        ) == Ok::<SummaryView, Seq<char>>(SummaryView { notes: summary.notes + notes, ..summary }),
    decreases notes.len(),
{
    let records = notes.map_values(|note: Seq<char>| seq!["NOTE"@, encoded_field(note)]);
    if notes.len() == 0 {
        assert(summary.notes + notes == summary.notes);
    } else {
        let front = notes.drop_last();
        lemma_note_records(summary, front);
        assert(records.drop_last() =~= front.map_values(
            |note: Seq<char>| seq!["NOTE"@, encoded_field(note)],
        ));
        lemma_words();
        decode_undoes_encode_field(notes.last());
        assert((summary.notes + front).push(notes.last()) == summary.notes + notes);
    }
}

proof fn lemma_head_records(summary: SummaryView, start: SummaryView)
    ensures
        decoded_records(start, summary_records(summary).take(5)) == Ok::<SummaryView, Seq<char>>(
            SummaryView {
                ejected: summary.ejected,
                admin_required: summary.admin_required,
                eject_method: summary.eject_method,
                resources_registered: summary.resources_registered,
                resource_scan_limited: summary.resource_scan_limited,
                ..start
            },
        ),
{
    lemma_words();
    decode_undoes_encode_method(summary.eject_method);
    parse_undoes_decimal(summary.resources_registered as nat, usize::MAX as nat);
    let r = summary_records(summary);
    let none = Seq::<Seq<Seq<char>>>::empty();
    let r1 = none.push(r[0]);
    let r2 = r1.push(r[1]);
    let r3 = r2.push(r[2]);
    let r4 = r3.push(r[3]);
    let r5 = r4.push(r[4]);
    assert(r.take(5) =~= r5);
    assert(r1.drop_last() == none);
    assert(r2.drop_last() == r1);
    assert(r3.drop_last() == r2);
    assert(r4.drop_last() == r3);
    assert(r5.drop_last() == r4);
    let s1 = SummaryView { ejected: summary.ejected, ..start };
    let s2 = SummaryView { admin_required: summary.admin_required, ..s1 };
    let s3 = SummaryView { eject_method: summary.eject_method, ..s2 };
    let s4 = SummaryView { resources_registered: summary.resources_registered, ..s3 };
    let s5 = SummaryView { resource_scan_limited: summary.resource_scan_limited, ..s4 };
    assert(decoded_records(start, none) == Ok::<SummaryView, Seq<char>>(start));
    assert(decoded_records(start, r1) == Ok::<SummaryView, Seq<char>>(s1));
    assert(decoded_records(start, r2) == Ok::<SummaryView, Seq<char>>(s2));
    assert(decoded_records(start, r3) == Ok::<SummaryView, Seq<char>>(s3));
    assert(decoded_records(start, r4) == Ok::<SummaryView, Seq<char>>(s4));
    assert(decoded_records(start, r5) == Ok::<SummaryView, Seq<char>>(s5));
}

proof fn lemma_summary_records_plain(summary: SummaryView)
    requires
        forall|i: int|
            0 <= i < summary.restart_manager_processes.len() ==> has_writable_path(
                #[trigger] summary.restart_manager_processes[i],
            ),
        forall|i: int|
            0 <= i < summary.process_scan_actions.len() ==> has_writable_path(
                #[trigger] summary.process_scan_actions[i],
            ),
    ensures
        forall|i: int|
            0 <= i < summary_records(summary).len() ==> is_plain_record(
                #[trigger] summary_records(summary)[i],
            ),
{
    lemma_words();
    lemma_plain_decimal(summary.resources_registered as nat);
    let r = summary_records(summary);
    let rm = summary.restart_manager_processes;
    let ps = summary.process_scan_actions;
    assert forall|i: int| 0 <= i < r.len() implies is_plain_record(#[trigger] r[i]) by {
        if i < 5 {
        } else if i < 5 + rm.len() {
            lemma_action_round_trip("RM"@, rm[i - 5]);
        } else if i < 5 + rm.len() + ps.len() {
            lemma_action_round_trip("PS"@, ps[i - 5 - rm.len()]);
        } else {
            let note = summary.notes[i - 5 - rm.len() - ps.len()];
            encoded_field_stays_in_its_record(note);
            assert(r[i] == seq!["NOTE"@, encoded_field(note)]);
        }
    }
}

/// Reading a written summary for a drive gives the summary back, with that
/// drive.
pub proof fn decode_undoes_encode_summary(summary: SummaryView, drive: DriveView)
    requires
        forall|i: int|
            0 <= i < summary.restart_manager_processes.len() ==> has_writable_path(
                #[trigger] summary.restart_manager_processes[i],
            ),
        forall|i: int|
            0 <= i < summary.process_scan_actions.len() ==> has_writable_path(
                #[trigger] summary.process_scan_actions[i],
            ),
    ensures
        decoded_summary(encoded_summary(summary), drive) == Ok::<SummaryView, Seq<char>>(
            SummaryView { drive, ..summary },
        ),
{
    let r = summary_records(summary);
    lemma_summary_records_plain(summary);
    lemma_records_of(r);
    let head = r.take(5);
    let rm = summary.restart_manager_processes.map_values(
        |a: ActionView| action_record("RM"@, a),
    );
    let ps = summary.process_scan_actions.map_values(|a: ActionView| action_record("PS"@, a));
    let notes = summary.notes.map_values(|note: Seq<char>| seq!["NOTE"@, encoded_field(note)]);
    assert(r =~= head + rm + ps + notes);
    let start = empty_summary(drive);
    lemma_head_records(summary, start);
    let s1 = decoded_records(start, head)->Ok_0;
    lemma_decode_append(start, head, rm);
    lemma_rm_records(s1, summary.restart_manager_processes);
    let s2 = decoded_records(s1, rm)->Ok_0;
    lemma_decode_append(start, head + rm, ps);
    lemma_ps_records(s2, summary.process_scan_actions);
    let s3 = decoded_records(s2, ps)->Ok_0;
    lemma_decode_append(start, head + rm + ps, notes);
    lemma_note_records(s3, summary.notes);
    let empty = Seq::<ActionView>::empty();
    assert(empty + summary.restart_manager_processes == summary.restart_manager_processes);
    assert(empty + summary.process_scan_actions == summary.process_scan_actions);
    assert(Seq::<Seq<char>>::empty() + summary.notes == summary.notes);
}

/// Reading a written failure gives the failure back.
pub proof fn decode_undoes_encode_error(error: Seq<char>, drive: DriveView)
    ensures
        decoded_summary(encoded_error(error), drive) == Err::<SummaryView, Seq<char>>(error),
{
    lemma_words();
    encoded_field_stays_in_its_record(error);
    decode_undoes_encode_field(error);
    let record = seq!["ERROR"@, encoded_field(error)];
    let records = seq![record];
    assert(records.drop_last() == Seq::<Seq<Seq<char>>>::empty());
    assert(records_text(records.drop_last()) == Seq::<char>::empty());
    assert(Seq::<char>::empty() + record_line(record) == record_line(record));
    lemma_records_of(records);
    assert(decoded_records(empty_summary(drive), records.drop_last()) == Ok::<
        SummaryView,
        Seq<char>,
    >(empty_summary(drive)));
}

} // verus!
