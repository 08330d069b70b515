//! Texts are cut, trimmed, spelled and quoted without losing anything.

use crate::commands::{
    command_outcome, last_line, lossy_text, powershell_arguments, single_quoted,
};
use crate::page_counter::office::{
    word_export_text, WORD_EXPORT_1, WORD_EXPORT_2, WORD_EXPORT_3,
};
use crate::text::{
    decimal, is_whitespace, join, lemma_split_nonempty, lines, lower, replace_char, split, trim,
    trim_end, trim_start, unsigned_value, without_carriage_return,
};
use crate::usb::drives::{
    bytes_text, double_step, drive_text, nearest_double, normalized_root, round_even, unit_index,
    unit_name, unit_size,
};
use crate::usb::scripts::{
    elevation_text, explorer_cleanup_text, process_cleanup_text, shell_eject_text, with_slashes,
    without_end_backslashes, ELEVATION_1, ELEVATION_2, ELEVATION_3, ELEVATION_4,
    EXPLORER_CLEANUP_1, EXPLORER_CLEANUP_2, EXPLORER_CLEANUP_3, PROCESS_CLEANUP_1,
    PROCESS_CLEANUP_2, PROCESS_CLEANUP_3, SHELL_EJECT_1, SHELL_EJECT_2, SHELL_EJECT_3,
};
use crate::usb::DriveView;
use crate::wide::{before_zero, char_units, utf16};
use vstd::prelude::*;
use vstd::string::*;
use vstd::utf8::{decode_utf8, valid_utf8};

verus! {

/// The pieces of a text, put together again with the separator, are the text, and
/// none of them holds the separator.
pub proof fn splitting_loses_nothing(s: Seq<char>, separator: char)
    ensures
        join(split(s, separator), seq![separator]) == s,
        forall|i: int, j: int|
            0 <= i < split(s, separator).len() && 0 <= j < split(s, separator)[i].len()
                ==> #[trigger] split(s, separator)[i][j] != separator,
    decreases s.len(),
{
    let pieces = split(s, separator);
    let sep = seq![separator];
    if s.len() == 0 {
        assert(join(pieces, sep) =~= s);
    } else {
        let front = s.drop_last();
        let before = split(front, separator);
        splitting_loses_nothing(front, separator);
        lemma_split_nonempty(front, separator);
        if s.last() == separator {
            assert(pieces.drop_last() =~= before);
            assert(join(pieces, sep) =~= join(before, sep) + sep + Seq::<char>::empty());
            assert(join(pieces, sep) =~= s);
        } else {
            assert(pieces.drop_last() =~= before.drop_last());
            if before.len() == 1 {
                assert(pieces.len() == 1);
                assert(pieces[0] == before[0].push(s.last()));
                assert(join(before, sep) == before[0]);
                assert(join(pieces, sep) == pieces[0]);
                assert(front.push(s.last()) =~= s);
            } else {
                let head = join(before.drop_last(), sep) + sep;
                assert(join(before, sep) == head + before.last());
                assert(pieces.last() == before.last().push(s.last()));
                assert(join(pieces, sep) == head + pieces.last());
                assert(head + before.last().push(s.last()) =~= (head + before.last()).push(
                    s.last(),
                ));
                assert(front.push(s.last()) =~= s);
            }
            assert forall|i: int, j: int|
                0 <= i < pieces.len() && 0 <= j < pieces[i].len() implies #[trigger] pieces[i][j]
                != separator by {
                if i < before.len() - 1 {
                    assert(pieces[i] == before[i]);
                    assert(before[i][j] != separator);
                } else if j < before.last().len() {
                    assert(before[before.len() - 1][j] != separator);
                }
            }
        }
    }
}

/// The lines of a text that ends with a line are those of what comes before it, and
/// that line, whether or not a carriage return stands before the line feed.
pub proof fn every_line_is_found(before: Seq<char>, line: Seq<char>)
    requires
        before.len() == 0 || before.last() == '\n',
        forall|i: int| 0 <= i < line.len() ==> line[i] != '\n' && line[i] != '\r',
    ensures
        lines(before + line + seq!['\n']) == lines(before).push(line),
        lines(before + line + seq!['\r', '\n']) == lines(before).push(line),
        line.len() > 0 ==> lines(before + line) == lines(before).push(line),
        lines(Seq::<char>::empty()) == Seq::<Seq<char>>::empty(),
{
    assert(!line.contains('\n'));
    lemma_split_nonempty(before, '\n');
    let pieces = split(before, '\n');
    assert(pieces.last().len() == 0) by {
        if before.len() > 0 {
            lemma_split_nonempty(before.drop_last(), '\n');
        }
    }
    crate::text::lemma_split_append(before, line, '\n');
    let one = split(before + line, '\n');
    assert(pieces.last() + line =~= line);
    assert(one =~= pieces.drop_last().push(line));
    let with_return = line.push('\r');
    assert forall|i: int| 0 <= i < with_return.len() implies with_return[i] != '\n' by {}
    assert(!with_return.contains('\n'));
    crate::text::lemma_split_append(before, with_return, '\n');
    assert(pieces.last() + with_return =~= with_return);
    let two = split(before + with_return, '\n');
    assert(two =~= pieces.drop_last().push(with_return));
    let a = before + line + seq!['\n'];
    assert(a.drop_last() =~= before + line);
    assert(split(a, '\n') =~= one.push(Seq::empty()));
    let b = before + line + seq!['\r', '\n'];
    assert(b.drop_last() =~= before + with_return);
    assert(split(b, '\n') =~= two.push(Seq::empty()));
    let cut = |l: Seq<char>| without_carriage_return(l);
    assert(split(a, '\n').drop_last() =~= one);
    assert(split(b, '\n').drop_last() =~= two);
    assert(without_carriage_return(with_return) =~= line);
    assert(without_carriage_return(line) =~= line);
    assert(lines(before) =~= pieces.drop_last().map_values(cut));
    assert(lines(a) =~= lines(before).push(line));
    assert(lines(b) =~= lines(before).push(line));
    if line.len() > 0 {
        assert(one.drop_last() =~= pieces.drop_last());
        assert(lines(before + line) =~= lines(before).push(line));
    }
    assert(lines(Seq::<char>::empty()) =~= Seq::empty());
}

/// Trimming takes the white space off both ends and nothing else.
pub proof fn trimming_takes_white_space_only(front: Seq<char>, core: Seq<char>, back: Seq<char>)
    requires
        forall|i: int| 0 <= i < front.len() ==> is_whitespace(#[trigger] front[i]),
        forall|i: int| 0 <= i < back.len() ==> is_whitespace(#[trigger] back[i]),
        core.len() > 0 ==> !is_whitespace(core[0]) && !is_whitespace(core.last()),
    ensures
        trim(front + core + back) == core,
    decreases front.len() + back.len(),
{
    if core.len() > 0 {
        lemma_trim_start(front, core + back);
        assert(front + core + back =~= front + (core + back));
        lemma_trim_end(core, back);
    } else {
        let all = front + core + back;
        assert forall|i: int| 0 <= i < all.len() implies is_whitespace(#[trigger] all[i]) by {
            if i < front.len() {
                assert(all[i] == front[i]);
            } else {
                assert(all[i] == back[i - front.len()]);
            }
        }
        lemma_all_white(all);
        assert(trim(all) =~= core);
    }
}

proof fn lemma_trim_start(front: Seq<char>, rest: Seq<char>)
    requires
        forall|i: int| 0 <= i < front.len() ==> is_whitespace(#[trigger] front[i]),
        rest.len() > 0,
        !is_whitespace(rest[0]),
    ensures
        trim_start(front + rest) == rest,
    decreases front.len(),
{
    if front.len() == 0 {
        assert(front + rest =~= rest);
    } else {
        assert(is_whitespace(front[0]));
        assert((front + rest).drop_first() =~= front.drop_first() + rest);
        assert forall|i: int| 0 <= i < front.drop_first().len() implies is_whitespace(
            #[trigger] front.drop_first()[i],
        ) by {
            assert(front.drop_first()[i] == front[i + 1]);
        }
        lemma_trim_start(front.drop_first(), rest);
    }
}

proof fn lemma_trim_end(core: Seq<char>, back: Seq<char>)
    requires
        forall|i: int| 0 <= i < back.len() ==> is_whitespace(#[trigger] back[i]),
        core.len() > 0,
        !is_whitespace(core.last()),
    ensures
        trim_end(core + back) == core,
    decreases back.len(),
{
    if back.len() == 0 {
        assert(core + back =~= core);
    } else {
        assert(is_whitespace(back[back.len() - 1]));
        assert((core + back).drop_last() =~= core + back.drop_last());
        lemma_trim_end(core, back.drop_last());
    }
}

proof fn lemma_all_white(s: Seq<char>)
    requires
        forall|i: int| 0 <= i < s.len() ==> is_whitespace(#[trigger] s[i]),
    ensures
        trim_start(s).len() == 0,
    decreases s.len(),
{
    if s.len() > 0 {
        assert forall|i: int| 0 <= i < s.drop_first().len() implies is_whitespace(
            #[trigger] s.drop_first()[i],
        ) by {
            assert(s.drop_first()[i] == s[i + 1]);
        }
        lemma_all_white(s.drop_first());
    }
}

/// White space is the space, the tab and the ends of lines, and among the characters
/// up to `~` nothing else but the vertical tab and the form feed.
pub proof fn white_space_is_what_it_is(c: char)
    ensures
        is_whitespace(' '),
        is_whitespace('\t'),
        is_whitespace('\n'),
        is_whitespace('\r'),
        '!' <= c <= '~' ==> !is_whitespace(c),
        c <= '\u{8}' ==> !is_whitespace(c),
        '\u{e}' <= c <= '\u{1f}' ==> !is_whitespace(c),
{
}

/// Capitals become small letters one for one, and nothing else changes.
pub proof fn capitals_become_small_letters(s: Seq<char>, i: int)
    requires
        0 <= i < s.len(),
    ensures
        lower(s).len() == s.len(),
        'A' <= s[i] <= 'Z' ==> lower(s)[i] as u32 == s[i] as u32 + 32,
        !('A' <= s[i] <= 'Z') ==> lower(s)[i] == s[i],
{
}

/// Replacing goes through the whole text, character by character.
pub proof fn replacing_goes_through_the_whole_text(
    a: Seq<char>,
    b: Seq<char>,
    c: char,
    by: Seq<char>,
)
    ensures
        replace_char(a + b, c, by) == replace_char(a, c, by) + replace_char(b, c, by),
        replace_char(seq![c], c, by) == by,
        forall|d: char| d != c ==> #[trigger] replace_char(seq![d], c, by) == seq![d],
    decreases b.len(),
{
    assert(seq![c].drop_last() =~= Seq::<char>::empty());
    assert(replace_char(Seq::<char>::empty(), c, by) + by =~= by);
    assert forall|d: char| d != c implies #[trigger] replace_char(seq![d], c, by) == seq![d] by {
        assert(seq![d].drop_last() =~= Seq::<char>::empty());
        assert(replace_char(seq![d], c, by) =~= seq![d]);
    }
    if b.len() == 0 {
        assert(a + b =~= a);
        assert(replace_char(a, c, by) + replace_char(b, c, by) =~= replace_char(a, c, by));
    } else {
        replacing_goes_through_the_whole_text(a, b.drop_last(), c, by);
        assert((a + b).drop_last() =~= a + b.drop_last());
        assert(replace_char(a + b, c, by) =~= replace_char(a, c, by) + replace_char(b, c, by));
    }
}

/// A number is written in its decimal digits, the last of which is the remainder by
/// ten, without zeros in front.
pub proof fn numbers_are_written_in_decimal(n: nat)
    ensures
        decimal(n).last() as u32 == 48 + n % 10,
        n < 10 ==> decimal(n).len() == 1,
        n >= 10 ==> decimal(n).drop_last() == decimal(n / 10),
        n > 0 ==> decimal(n)[0] != '0',
    decreases n,
{
    if n >= 10 {
        numbers_are_written_in_decimal(n / 10);
        crate::text::lemma_decimal_digits(n / 10);
        assert(decimal(n).drop_last() =~= decimal(n / 10));
        assert(decimal(n)[0] == decimal(n / 10)[0]);
    }
}

/// A run of digits is read from the left; what is no digit makes it no number.
pub proof fn numbers_are_read_in_decimal(s: Seq<char>, c: char, max: nat)
    requires
        s.len() > 0,
        s[0] != '+',
    ensures
        unsigned_value(s.push(c), max) is Ok <==> unsigned_value(s, max) is Ok && '0' <= c <= '9'
            && unsigned_value(s, max)->Ok_0 * 10 + (c as u32 - 48) <= max,
        unsigned_value(s.push(c), max) is Ok ==> unsigned_value(s.push(c), max)->Ok_0
            == unsigned_value(s, max)->Ok_0 * 10 + (c as u32 - 48),
        unsigned_value(Seq::<char>::empty(), max) is Err,
{
    assert(s.push(c).drop_last() =~= s);
}

/// The last line that says something is the one that is taken, trimmed.
pub proof fn the_last_line_that_says_something_is_taken(
    before: Seq<Seq<char>>,
    line: Seq<char>,
    after: Seq<Seq<char>>,
)
    requires
        trim(line).len() > 0,
        forall|i: int| 0 <= i < after.len() ==> trim(#[trigger] after[i]).len() == 0,
    ensures
        last_line(before.push(line) + after) == Some(trim(line)),
        last_line(after) is None,
    decreases after.len(),
{
    if after.len() == 0 {
        assert(before.push(line) + after =~= before.push(line));
        assert(before.push(line).last() == line);
    } else {
        let front = after.drop_last();
        assert forall|i: int| 0 <= i < front.len() implies trim(#[trigger] front[i]).len() == 0 by {
            assert(front[i] == after[i]);
        }
        the_last_line_that_says_something_is_taken(before, line, front);
        assert((before.push(line) + after).drop_last() =~= before.push(line) + front);
        assert((before.push(line) + after).last() == after[after.len() - 1]);
    }
}

/// The size of a unit, by its name.
pub open spec fn bytes_in(unit: Seq<char>) -> nat {
    if unit == "KB"@ {
        1024
    } else if unit == "MB"@ {
        1_048_576
    } else if unit == "GB"@ {
        1_073_741_824
    } else {
        1_099_511_627_776
    }
}

/// Whether a text gives a size with one decimal, rounded to the nearest, in the
/// largest unit that the size reaches.
pub open spec fn gives_size(text: Seq<char>, size: nat, tenths: nat, unit: Seq<char>) -> bool {
    &&& text == decimal(tenths / 10) + "."@ + decimal(tenths % 10) + " "@ + unit
    &&& unit == "KB"@ || unit == "MB"@ || unit == "GB"@ || unit == "TB"@
    &&& bytes_in(unit) <= size
    &&& unit != "TB"@ ==> size < 1024 * bytes_in(unit)
    &&& 2 * tenths * bytes_in(unit) <= 20 * size + bytes_in(unit)
    &&& 20 * size <= 2 * tenths * bytes_in(unit) + bytes_in(unit)
}

proof fn lemma_units()
    ensures
        "KB"@ =~= seq!['K', 'B'],
        "MB"@ =~= seq!['M', 'B'],
        "GB"@ =~= seq!['G', 'B'],
        "TB"@ =~= seq!['T', 'B'],
        "KB"@[0] == 'K',
        "MB"@[0] == 'M',
        "GB"@[0] == 'G',
        "TB"@[0] == 'T',
{
    reveal_strlit("KB");
    reveal_strlit("MB");
    reveal_strlit("GB");
    reveal_strlit("TB");
}

/// A size below a kilobyte is shown to the byte, and one above with one decimal in
/// the largest unit that it reaches, rounded to the nearest.
pub proof fn sizes_are_shown_as_they_are(size: u64)
    requires
        size < 0x20_0000_0000_0000,
    ensures
        size < 1024 ==> bytes_text(Some(size)) == decimal(size as nat) + " "@ + "B"@,
        size >= 1024 ==> exists|tenths: nat, unit: Seq<char>| #[trigger]
            gives_size(bytes_text(Some(size)), size as nat, tenths, unit),
        bytes_text(None) == "unknown"@,
{
    lemma_units();
    let n = size as nat;
    assert(double_step(n) == 1);
    assert(round_even(n, 1) == n);
    assert(nearest_double(n) == n);
    if size >= 1024 {
        let unit = unit_name(unit_index(n));
        let u = unit_size(unit_index(n));
        assert(bytes_in(unit) == u);
        let tenths = round_even(n * 10, u);
        lemma_round(n * 10, u);
        assert(2 * tenths * u == 2 * (tenths * u)) by (nonlinear_arith);
        assert(gives_size(bytes_text(Some(size)), n, tenths, unit));
    }
}

proof fn lemma_round(n: nat, d: nat)
    requires
        d > 0,
    ensures
        2 * (round_even(n, d) * d) <= 2 * n + d,
        2 * n <= 2 * (round_even(n, d) * d) + d,
{
    let q = n / d;
    let r = n % d;
    assert(n == q * d + r && 0 <= r < d) by (nonlinear_arith)
        requires
            q == n / d,
            r == n % d,
            d > 0,
    ;
    assert((q + 1) * d == q * d + d) by (nonlinear_arith);
}

/// A drive is shown by its letter, its label and its sizes.
pub proof fn drives_are_shown_by_letter_label_and_size(drive: DriveView)
    ensures
        drive.letter.is_prefix_of(drive_text(drive)),
        drive.label.len() > 0 ==> (drive.letter + " "@ + drive.label + " - "@ + bytes_text(
            drive.total_bytes,
        ) + " total, "@ + bytes_text(drive.free_bytes) + " free ("@).is_prefix_of(
            drive_text(drive),
        ),
        drive.label.len() == 0 ==> (drive.letter + " "@ + "Untitled"@ + " - "@ + bytes_text(
            drive.total_bytes,
        ) + " total, "@ + bytes_text(drive.free_bytes) + " free ("@).is_prefix_of(
            drive_text(drive),
        ),
{
    let text = drive_text(drive);
    let label = if drive.label.len() == 0 {
        "Untitled"@
    } else {
        drive.label
    };
    let head = drive.letter + " "@ + label + " - "@ + bytes_text(drive.total_bytes) + " total, "@
        + bytes_text(drive.free_bytes) + " free ("@;
    assert(drive.letter =~= text.subrange(0, drive.letter.len() as int));
    assert(head =~= text.subrange(0, head.len() as int));
}

/// A path on a drive leads to the root of that drive: its letter in capitals, a colon
/// and a backslash. Nothing else has one.
pub proof fn roots_are_those_of_the_drive(root: Seq<char>)
    ensures
        root.len() > 0 && 'A' <= root[0] <= 'Z' ==> normalized_root(root) == Ok::<
            Seq<char>,
            Seq<char>,
        >(seq![root[0], ':', '\\']),
        root.len() > 0 && 'a' <= root[0] <= 'z' ==> normalized_root(root) is Ok
            && normalized_root(root)->Ok_0.len() == 3 && normalized_root(root)->Ok_0[0] as u32
            == root[0] as u32 - 32 && normalized_root(root)->Ok_0[1] == ':' && normalized_root(
            root,
        )->Ok_0[2] == '\\',
        root.len() == 0 || !('A' <= root[0] <= 'Z' || 'a' <= root[0] <= 'z') ==> normalized_root(
            root,
        ) is Err,
{
}

/// Whether a text holds another one.
pub open spec fn holds(text: Seq<char>, part: Seq<char>) -> bool {
    exists|at: int|
        0 <= at && at + part.len() <= text.len() && #[trigger] text.subrange(
            at,
            at + part.len(),
        ) == part
}

proof fn lemma_holds(front: Seq<char>, part: Seq<char>, back: Seq<char>)
    ensures
        holds(front + part + back, part),
{
    let text = front + part + back;
    let at = front.len() as int;
    assert(text.subrange(at, at + part.len()) =~= part);
}

/// Every script is about the drive that it is made for, which is quoted in it as it
/// is, and the one that starts the helper about its program and its report.
pub proof fn scripts_are_about_their_drive(
    root: Seq<char>,
    program: Seq<char>,
    report: Seq<char>,
)
    ensures
        holds(explorer_cleanup_text(root), single_quoted(root)),
        holds(explorer_cleanup_text(root), single_quoted(with_slashes(root))),
        holds(process_cleanup_text(root), single_quoted(root)),
        holds(process_cleanup_text(root), single_quoted(with_slashes(root))),
        holds(shell_eject_text(root), single_quoted(root)),
        holds(shell_eject_text(root), single_quoted(without_end_backslashes(root))),
        holds(elevation_text(program, root, report), single_quoted(program)),
        holds(elevation_text(program, root, report), single_quoted(report)),
        holds(
            elevation_text(program, root, report),
            single_quoted(without_end_backslashes(root)),
        ),
{
    let quoted = single_quoted(root);
    let slashes = single_quoted(with_slashes(root));
    let drive = single_quoted(without_end_backslashes(root));
    lemma_holds_both(
        EXPLORER_CLEANUP_1@,
        quoted,
        EXPLORER_CLEANUP_2@,
        slashes,
        EXPLORER_CLEANUP_3@,
    );
    lemma_holds_both(PROCESS_CLEANUP_1@, quoted, PROCESS_CLEANUP_2@, slashes, PROCESS_CLEANUP_3@);
    lemma_holds_both(SHELL_EJECT_1@, quoted, SHELL_EJECT_2@, drive, SHELL_EJECT_3@);
    let tail = ELEVATION_3@ + single_quoted(report) + ELEVATION_4@;
    let all = elevation_text(program, root, report);
    lemma_holds_both(ELEVATION_1@, single_quoted(program), ELEVATION_2@, drive, tail);
    assert(all =~= ELEVATION_1@ + single_quoted(program) + ELEVATION_2@ + drive + tail);
    lemma_holds(
        ELEVATION_1@ + single_quoted(program) + ELEVATION_2@ + drive + ELEVATION_3@,
        single_quoted(report),
        ELEVATION_4@,
    );
}

proof fn lemma_holds_both(
    a: Seq<char>,
    first: Seq<char>,
    b: Seq<char>,
    second: Seq<char>,
    c: Seq<char>,
)
    ensures
        holds(a + first + b + second + c, first),
        holds(a + first + b + second + c, second),
{
    lemma_holds(a, first, b + second + c);
    assert(a + first + (b + second + c) =~= a + first + b + second + c);
    lemma_holds(a + first + b, second, c);
}

/// Slashes take the place of backslashes one for one, and the backslashes at the end
/// of a path are taken off, and no other character.
pub proof fn paths_change_only_their_backslashes(path: Seq<char>, i: int)
    ensures
        with_slashes(path).len() == path.len(),
        0 <= i < path.len() ==> with_slashes(path)[i] == if path[i] == '\\' {
            '/'
        } else {
            path[i]
        },
        without_end_backslashes(path).is_prefix_of(path),
        without_end_backslashes(path).len() > 0 ==> without_end_backslashes(path).last() != '\\',
        without_end_backslashes(path).len() <= i < path.len() ==> path[i] == '\\',
    decreases path.len(),
{
    if path.len() > 0 {
        let front = path.drop_last();
        paths_change_only_their_backslashes(front, i);
        if i == path.len() - 1 && front.len() > 0 {
            paths_change_only_their_backslashes(front, 0);
        }
        if path.last() == '\\' {
            let kept = without_end_backslashes(front);
            assert(kept =~= path.subrange(0, kept.len() as int)) by {
                assert(kept == front.subrange(0, kept.len() as int));
            }
        } else {
            assert(path =~= path.subrange(0, path.len() as int));
        }
    } else {
        assert(path =~= path.subrange(0, 0));
    }
}

/// A program that ends well gives its output, and one that fails all that it said,
/// or its status where it said nothing.
pub proof fn programs_are_heard(
    label: Seq<char>,
    status: Seq<char>,
    stdout: Seq<u8>,
    stderr: Seq<u8>,
)
    ensures
        valid_utf8(stdout) ==> command_outcome(label, true, status, stdout, stderr) == Ok::<
            Seq<char>,
            Seq<char>,
        >(decode_utf8(stdout)),
        !valid_utf8(stdout) ==> command_outcome(label, true, status, stdout, stderr) is Err,
        command_outcome(label, false, status, stdout, stderr) is Err,
        ({
            let said = command_outcome(label, false, status, stdout, stderr)->Err_0;
            &&& valid_utf8(stdout) ==> holds(said, trim(decode_utf8(stdout)))
            &&& valid_utf8(stderr) ==> holds(said, trim(decode_utf8(stderr)))
            &&& trim(lossy_text(stdout)).len() == 0 && trim(lossy_text(stderr)).len() == 0
                ==> holds(said, status) && label.is_prefix_of(said)
        }),
{
    let said = command_outcome(label, false, status, stdout, stderr)->Err_0;
    let output = trim(lossy_text(stdout));
    let errors = trim(lossy_text(stderr));
    let nothing = Seq::<char>::empty();
    if errors.len() == 0 && output.len() == 0 {
        assert(errors =~= nothing && output =~= nothing);
        lemma_holds(nothing, nothing, said);
        assert(nothing + nothing + said =~= said);
        lemma_holds(label + " exited with status "@, status, "."@);
        assert(label =~= said.subrange(0, label.len() as int));
    } else if errors.len() == 0 {
        assert(errors =~= nothing);
        lemma_holds(nothing, nothing, said);
        assert(nothing + nothing + said =~= said);
        lemma_holds(nothing, output, nothing);
        assert(nothing + output + nothing =~= said);
    } else if output.len() == 0 {
        assert(output =~= nothing);
        lemma_holds(nothing, nothing, said);
        assert(nothing + nothing + said =~= said);
        lemma_holds(nothing, errors, nothing);
        assert(nothing + errors + nothing =~= said);
    } else {
        lemma_holds(nothing, errors, "\n"@ + output);
        assert(nothing + errors + ("\n"@ + output) =~= said);
        lemma_holds(errors + "\n"@, output, nothing);
        assert(errors + "\n"@ + output + nothing =~= said);
    }
}

/// PowerShell is given the script as it is, as its command, and loads no profile.
pub proof fn powershell_is_given_the_script(script: Seq<char>, single_threaded: bool)
    ensures
        ({
            let args = powershell_arguments(script, single_threaded);
            &&& args.last() == script
            &&& args[args.len() - 2] == "-Command"@
            &&& args[0] == "-NoProfile"@
            &&& args.contains("-Sta"@) <==> single_threaded || script == "-Sta"@
        }),
{
    let args = powershell_arguments(script, single_threaded);
    reveal_strlit("-NoProfile");
    reveal_strlit("-NonInteractive");
    reveal_strlit("-ExecutionPolicy");
    reveal_strlit("Bypass");
    reveal_strlit("-Command");
    reveal_strlit("-Sta");
    assert("-Sta"@.len() == 4);
    assert("-NoProfile"@.len() != 4 && "-NonInteractive"@.len() != 4 && "-ExecutionPolicy"@.len()
        != 4 && "Bypass"@.len() != 4 && "-Command"@.len() != 4);
    if single_threaded {
        assert(args[2] == "-Sta"@);
    } else if script == "-Sta"@ {
        assert(args[5] == "-Sta"@);
    } else if args.contains("-Sta"@) {
        let k = choose|k: int| 0 <= k < args.len() && args[k] == "-Sta"@;
        assert(k == 0 || k == 1 || k == 2 || k == 3 || k == 4 || k == 5);
    }
}

/// The script with which Word exports a document is about that document and the PDF
/// that it is to write.
pub proof fn word_exports_the_document(path: Seq<char>, pdf_path: Seq<char>)
    ensures
        holds(word_export_text(path, pdf_path), single_quoted(path)),
        holds(word_export_text(path, pdf_path), single_quoted(pdf_path)),
{
    lemma_holds_both(
        WORD_EXPORT_1@,
        single_quoted(path),
        WORD_EXPORT_2@,
        single_quoted(pdf_path),
        WORD_EXPORT_3@,
    );
}

/// A text of plain letters has one unit for each of them, of the same number, and a
/// text is read and written piece by piece.
pub proof fn plain_letters_are_their_own_units(c: char, s: Seq<char>)
    ensures
        utf16(seq![c] + s) == char_units(c) + utf16(s),
        (c as u32) < 0xd800 ==> char_units(c) == seq![c as u16],
        (c as u32) >= 0x1_0000 ==> char_units(c).len() == 2 && 0xd800 <= char_units(c)[0] < 0xdc00
            && 0xdc00 <= char_units(c)[1] < 0xe000 && c as u32 == 0x1_0000 + (char_units(c)[0]
            - 0xd800) * 0x400 + (char_units(c)[1] - 0xdc00),
        utf16(Seq::<char>::empty()).len() == 0,
{
    assert((seq![c] + s)[0] == c);
    assert((seq![c] + s).skip(1) =~= s);
    vstd::utf8::char_is_scalar(c);
    vstd::utf8::char_u32_cast(c, c as u32);
    if (c as u32) < 0xd800 {
        assert(char_units(c) =~= seq![c as u16]);
    }
}

/// What stands before the first zero of a buffer is what counts, all of it.
pub proof fn buffers_end_at_their_first_zero(units: Seq<u16>, rest: Seq<u16>)
    requires
        forall|i: int| 0 <= i < units.len() ==> units[i] != 0,
    ensures
        before_zero(units) == units,
        before_zero(units + seq![0u16] + rest) == units,
    decreases units.len(),
{
    let all = units + seq![0u16] + rest;
    if units.len() == 0 {
        assert(before_zero(units) =~= units);
        assert(all[0] == 0);
        assert(before_zero(all) =~= units);
    } else {
        let tail = units.skip(1);
        assert forall|i: int| 0 <= i < tail.len() implies tail[i] != 0 by {
            assert(tail[i] == units[i + 1]);
        }
        buffers_end_at_their_first_zero(tail, rest);
        assert(all.skip(1) =~= tail + seq![0u16] + rest);
        assert(all[0] == units[0]);
        assert(seq![units[0]] + tail =~= units);
    }
}

/// Texts are put together one after the other, with the separator between them.
pub proof fn joining_keeps_every_text(fields: Seq<Seq<char>>, last: Seq<char>, separator: Seq<char>)
    ensures
        fields.len() > 0 ==> join(fields.push(last), separator) == join(fields, separator)
            + separator + last,
        fields.len() == 0 ==> join(fields.push(last), separator) == last,
        join(Seq::<Seq<char>>::empty(), separator).len() == 0,
{
    assert(fields.push(last).drop_last() =~= fields);
}

} // verus!
