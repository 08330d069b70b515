//! Texts as sequences of characters: searching, splitting, trimming, replacing,
//! and decimal numbers.

use vstd::prelude::*;
use vstd::string::*;

verus! {

/// Appends one character at the end: `String::push`.
pub assume_specification[ String::push ](text: &mut String, c: char)
    ensures
        final(text)@ == old(text)@.push(c),
;

/// The texts of a list of strings.
pub open spec fn texts(strings: Seq<String>) -> Seq<Seq<char>> {
    strings.map_values(|s: String| s@)
}

/// The texts of a list of character vectors.
pub open spec fn char_texts(parts: Seq<Vec<char>>) -> Seq<Seq<char>> {
    parts.map_values(|p: Vec<char>| p@)
}

/// The text behind an optional string.
pub open spec fn optional_text(value: Option<String>) -> Option<Seq<char>> {
    match value {
        Some(s) => Some(s@),
        None => None,
    }
}

/// A result with its error string taken as a text.
pub open spec fn error_text<T>(result: Result<T, String>) -> Result<T, Seq<char>> {
    match result {
        Ok(value) => Ok(value),
        Err(error) => Err(error@),
    }
}

/// A result with both its strings taken as texts.
pub open spec fn text_result(result: Result<String, String>) -> Result<Seq<char>, Seq<char>> {
    match result {
        Ok(value) => Ok(value@),
        Err(error) => Err(error@),
    }
}

/// The characters of a text.
pub fn to_chars(text: &str) -> (chars: Vec<char>)
    ensures
        chars@ == text@,
{
    let mut chars: Vec<char> = Vec::new();
    for c in it: text.chars()
        invariant
            it.seq() == text@,
            chars@ == text@.take(it.index()),
    {
        chars.push(c);
    }
    chars
}

/// The text made of some characters.
pub fn from_chars(chars: &[char]) -> (text: String)
    ensures
        text@ == chars@,
{
    let mut text = String::new();
    for i in 0..chars.len()
        invariant
            text@ == chars@.take(i as int),
    {
        text.push(chars[i]);
    }
    text
}

/// Whether some characters spell `text`.
pub fn chars_are(chars: &[char], text: &str) -> (same: bool)
    ensures
        same == (chars@ == text@),
{
    let other = to_chars(text);
    if chars.len() != other.len() {
        return false;
    }
    for i in 0..chars.len()
        invariant
            chars@.len() == other@.len(),
            other@ == text@,
            chars@.take(i as int) == other@.take(i as int),
    {
        if chars[i] != other[i] {
            return false;
        }
        assert(chars@.take(i + 1) == chars@.take(i as int).push(chars@[i as int]));
        assert(other@.take(i + 1) == other@.take(i as int).push(other@[i as int]));
    }
    assert(chars@.take(chars@.len() as int) == chars@);
    assert(other@.take(other@.len() as int) == other@);
    true
}

/// Whether two texts are the same.
pub fn same_text(a: &str, b: &str) -> (same: bool)
    ensures
        same == (a@ == b@),
{
    let chars = to_chars(a);
    chars_are(chars.as_slice(), b)
}

/// Whether `text` begins with `prefix`.
pub fn starts_with(text: &str, prefix: &str) -> (found: bool)
    ensures
        found == prefix@.is_prefix_of(text@),
{
    let chars = to_chars(text);
    let start = to_chars(prefix);
    if start.len() > chars.len() {
        return false;
    }
    for i in 0..start.len()
        invariant
            chars@ == text@,
            start@ == prefix@,
            start@.len() <= chars@.len(),
            forall|j: int| 0 <= j < i ==> start@[j] == chars@[j],
    {
        if start[i] != chars[i] {
            return false;
        }
    }
    assert(prefix@ =~= text@.subrange(0, prefix@.len() as int));
    true
}

/// The pieces of `s` between the occurrences of `separator`, in order. A text
/// without a separator is its own only piece.
pub open spec fn split(s: Seq<char>, separator: char) -> Seq<Seq<char>>
    decreases s.len(),
{
    if s.len() == 0 {
        seq![Seq::empty()]
    } else {
        let pieces = split(s.drop_last(), separator);
        if s.last() == separator {
            pieces.push(Seq::empty())
        } else {
            pieces.drop_last().push(pieces.last().push(s.last()))
        }
    }
}

/// `fields` written one after the other with `separator` between them.
pub open spec fn join(fields: Seq<Seq<char>>, separator: Seq<char>) -> Seq<char>
    decreases fields.len(),
{
    if fields.len() == 0 {
        Seq::empty()
    } else if fields.len() == 1 {
        fields[0]
    } else {
        join(fields.drop_last(), separator) + separator + fields.last()
    }
}

/// A line without the carriage return that may end it.
pub open spec fn without_carriage_return(line: Seq<char>) -> Seq<char> {
    if line.len() > 0 && line.last() == '\r' {
        line.drop_last()
    } else {
        line
    }
}

/// The lines of `s`: what stands before each line feed, without a carriage
/// return directly in front of it, and what stands after the last line feed, if
/// anything does.
pub open spec fn lines(s: Seq<char>) -> Seq<Seq<char>> {
    let pieces = split(s, '\n');
    let ended = pieces.drop_last().map_values(|line: Seq<char>| without_carriage_return(line));
    if pieces.last().len() > 0 {
        ended.push(pieces.last())
    } else {
        ended
    }
}

/// There is always at least one piece.
pub proof fn lemma_split_nonempty(s: Seq<char>, separator: char)
    ensures
        split(s, separator).len() > 0,
    decreases s.len(),
{
    if s.len() > 0 {
        lemma_split_nonempty(s.drop_last(), separator);
    }
}

/// Text without a separator lengthens the last piece.
pub proof fn lemma_split_append(s: Seq<char>, t: Seq<char>, separator: char)
    requires
        !t.contains(separator),
    ensures
        split(s + t, separator) == split(s, separator).drop_last().push(
            split(s, separator).last() + t,
        ),
    decreases t.len(),
{
    lemma_split_nonempty(s, separator);
    if t.len() == 0 {
        assert(s + t == s);
        assert(split(s, separator).last() + t == split(s, separator).last());
        assert(split(s, separator) == split(s, separator).drop_last().push(
            split(s, separator).last(),
        ));
    } else {
        let u = t.drop_last();
        assert forall|i: int| 0 <= i < u.len() implies u[i] != separator by {
            assert(u[i] == t[i]);
        }
        lemma_split_append(s, u, separator);
        assert((s + t).drop_last() == s + u);
        assert((s + t).last() == t.last());
        assert(t.contains(t.last()));
        assert(split(s, separator).last() + t == (split(s, separator).last() + u).push(t.last()));
        let pieces = split(s + u, separator);
        assert(pieces.drop_last() == split(s, separator).drop_last());
    }
}

/// Splitting gives back the fields that were joined, where none of them holds
/// the separator.
pub proof fn lemma_split_join(fields: Seq<Seq<char>>, separator: char)
    requires
        fields.len() > 0,
        forall|i: int| 0 <= i < fields.len() ==> !(#[trigger] fields[i]).contains(separator),
    ensures
        split(join(fields, seq![separator]), separator) == fields,
    decreases fields.len(),
{
    if fields.len() == 1 {
        lemma_split_append(Seq::empty(), fields[0], separator);
        assert(Seq::<char>::empty() + fields[0] == fields[0]);
        assert(split(fields[0], separator) == fields);
    } else {
        let front = fields.drop_last();
        lemma_split_join(front, separator);
        let head = join(front, seq![separator]);
        let mid = head + seq![separator];
        assert(mid.drop_last() == head);
        assert(split(mid, separator) == front.push(Seq::empty()));
        lemma_split_append(mid, fields.last(), separator);
        assert(Seq::<char>::empty() + fields.last() == fields.last());
        assert(front.push(Seq::<char>::empty()).drop_last() == front);
        assert(front.push(fields.last()) == fields);
    }
}

/// Cuts `chars` at every `separator`.
pub fn split_chars(chars: &[char], separator: char) -> (pieces: Vec<Vec<char>>)
    ensures
        char_texts(pieces@) == split(chars@, separator),
{
    let mut pieces: Vec<Vec<char>> = Vec::new();
    let mut current: Vec<char> = Vec::new();
    assert(chars@.take(0) == Seq::<char>::empty());
    assert(char_texts(pieces@).push(current@) == split(chars@.take(0), separator));
    for i in 0..chars.len()
        invariant
            char_texts(pieces@).push(current@) == split(chars@.take(i as int), separator),
    {
        let ghost before = char_texts(pieces@);
        let ghost line = current@;
        assert(chars@.take(i + 1).drop_last() == chars@.take(i as int));
        assert(chars@.take(i + 1).last() == chars@[i as int]);
        assert(before.push(line).drop_last() == before);
        if chars[i] == separator {
            pieces.push(current);
            assert(char_texts(pieces@) == before.push(line));
            current = Vec::new();
        } else {
            current.push(chars[i]);
        }
    }
    let ghost before = char_texts(pieces@);
    let ghost line = current@;
    pieces.push(current);
    assert(char_texts(pieces@) == before.push(line));
    assert(chars@.take(chars@.len() as int) == chars@);
    pieces
}

/// The lines of a text.
pub fn split_lines(chars: &[char]) -> (found: Vec<Vec<char>>)
    ensures
        char_texts(found@) == lines(chars@),
{
    let pieces = split_chars(chars, '\n');
    let ghost all = split(chars@, '\n');
    proof {
        lemma_split_nonempty(chars@, '\n');
    }
    assert(char_texts(pieces@).len() == pieces@.len());
    let last: usize = pieces.len() - 1;
    let ghost ended = all.drop_last().map_values(
        |line: Seq<char>| without_carriage_return(line),
    );
    let mut found: Vec<Vec<char>> = Vec::new();
    for i in 0..last
        invariant
            last == pieces@.len() - 1,
            all == char_texts(pieces@),
            ended == all.drop_last().map_values(
                |line: Seq<char>| without_carriage_return(line),
            ),
            char_texts(found@) == ended.take(i as int),
    {
        let ghost before = char_texts(found@);
        assert(all[i as int] == pieces@[i as int]@);
        assert(ended.take(i + 1) == ended.take(i as int).push(
            without_carriage_return(pieces@[i as int]@),
        ));
        let piece = &pieces[i];
        let n: usize = piece.len();
        let mut line: Vec<char> = Vec::new();
        let keep: usize = if n > 0 && piece[n - 1] == '\r' {
            n - 1
        } else {
            n
        };
        copy_range(piece.as_slice(), 0, keep, &mut line);
        assert(line@ == without_carriage_return(pieces@[i as int]@));
        found.push(line);
        assert(char_texts(found@) == before.push(line@));
    }
    assert(ended.take(last as int) == ended);
    assert(all[last as int] == pieces@[last as int]@);
    if pieces[last].len() > 0 {
        let ghost before = char_texts(found@);
        let mut line: Vec<char> = Vec::new();
        copy_range(pieces[last].as_slice(), 0, pieces[last].len(), &mut line);
        assert(line@ == pieces@[last as int]@);
        found.push(line);
        assert(char_texts(found@) == before.push(line@));
    }
    found
}

/// Appends the characters from `start` up to `end`.
pub fn copy_range(chars: &[char], start: usize, end: usize, out: &mut Vec<char>)
    requires
        start <= end <= chars@.len(),
    ensures
        final(out)@ == old(out)@ + chars@.subrange(start as int, end as int),
{
    for i in start..end
        invariant
            start <= end <= chars@.len(),
            out@ == old(out)@ + chars@.subrange(start as int, i as int),
    {
        out.push(chars[i]);
        assert(chars@.subrange(start as int, i + 1) == chars@.subrange(start as int, i as int).push(
            chars@[i as int],
        ));
    }
}

/// Writes texts one after the other, with `separator` between them.
pub fn join_texts(parts: &Vec<String>, separator: &str) -> (text: String)
    ensures
        text@ == join(texts(parts@), separator@),
{
    let ghost all = texts(parts@);
    let mut text = String::new();
    assert(all.take(0) == Seq::<Seq<char>>::empty());
    for i in 0..parts.len()
        invariant
            all == texts(parts@),
            text@ == join(all.take(i as int), separator@),
    {
        let ghost before = text@;
        assert(all[i as int] == parts@[i as int]@);
        assert(all.take(i + 1).drop_last() == all.take(i as int));
        if i > 0 {
            text.append(separator);
        }
        text.append(parts[i].as_str());
        proof {
            if i == 0 {
                assert(text@ =~= all[0]);
                assert(all.take(1)[0] == all[0]);
            }
        }
    }
    assert(all.take(all.len() as int) == all);
    text
}

/// Whether Unicode counts `c` as white space.
pub open spec fn is_whitespace(c: char) -> bool {
    ||| '\u{9}' <= c <= '\u{d}'
    ||| c == ' '
    ||| c == '\u{85}'
    ||| c == '\u{a0}'
    ||| c == '\u{1680}'
    ||| '\u{2000}' <= c <= '\u{200a}'
    ||| c == '\u{2028}'
    ||| c == '\u{2029}'
    ||| c == '\u{202f}'
    ||| c == '\u{205f}'
    ||| c == '\u{3000}'
}

/// Whether `c` is white space.
pub fn whitespace(c: char) -> (r: bool)
    ensures
        r == is_whitespace(c),
{
    ('\u{9}' <= c && c <= '\u{d}') || c == ' ' || c == '\u{85}' || c == '\u{a0}' || c
        == '\u{1680}' || ('\u{2000}' <= c && c <= '\u{200a}') || c == '\u{2028}' || c
        == '\u{2029}' || c == '\u{202f}' || c == '\u{205f}' || c == '\u{3000}'
}

/// `s` without the white space it begins with.
pub open spec fn trim_start(s: Seq<char>) -> Seq<char>
    decreases s.len(),
{
    if s.len() > 0 && is_whitespace(s[0]) {
        trim_start(s.drop_first())
    } else {
        s
    }
}

/// `s` without the white space it ends with.
pub open spec fn trim_end(s: Seq<char>) -> Seq<char>
    decreases s.len(),
{
    if s.len() > 0 && is_whitespace(s.last()) {
        trim_end(s.drop_last())
    } else {
        s
    }
}

/// `s` without the white space at either end.
pub open spec fn trim(s: Seq<char>) -> Seq<char> {
    trim_end(trim_start(s))
}

/// Cuts the white space off both ends.
pub fn trim_chars(chars: &[char]) -> (trimmed: Vec<char>)
    ensures
        trimmed@ == trim(chars@),
{
    let n: usize = chars.len();
    let mut start: usize = 0;
    assert(chars@.skip(0) == chars@);
    while start < n && whitespace(chars[start])
        invariant
            n == chars@.len(),
            start <= n,
            trim_start(chars@) == trim_start(chars@.skip(start as int)),
        decreases n - start,
    {
        assert(chars@.skip(start as int).drop_first() == chars@.skip(start + 1));
        start = start + 1;
    }
    assert(trim_start(chars@) == chars@.skip(start as int));
    let mut end: usize = n;
    assert(chars@.subrange(start as int, n as int) == chars@.skip(start as int));
    while start < end && whitespace(chars[end - 1])
        invariant
            n == chars@.len(),
            start <= end <= n,
            trim_end(chars@.skip(start as int)) == trim_end(
                chars@.subrange(start as int, end as int),
            ),
        decreases end,
    {
        assert(chars@.subrange(start as int, end as int).drop_last() == chars@.subrange(
            start as int,
            end - 1,
        ));
        end = end - 1;
    }
    let mut trimmed: Vec<char> = Vec::new();
    copy_range(chars, start, end, &mut trimmed);
    assert(trimmed@ == chars@.subrange(start as int, end as int));
    trimmed
}

/// Cuts the white space off both ends of a text.
pub fn trim_text(text: &str) -> (trimmed: String)
    ensures
        trimmed@ == trim(text@),
{
    let chars = to_chars(text);
    let trimmed = trim_chars(chars.as_slice());
    from_chars(trimmed.as_slice())
}

/// `s` with `replacement` in place of every `c`.
pub open spec fn replace_char(s: Seq<char>, c: char, replacement: Seq<char>) -> Seq<char>
    decreases s.len(),
{
    if s.len() == 0 {
        Seq::empty()
    } else {
        replace_char(s.drop_last(), c, replacement) + if s.last() == c {
            replacement
        } else {
            seq![s.last()]
        }
    }
}

/// Puts `replacement` in place of every `c`.
pub fn replace_each_char(chars: &[char], c: char, replacement: &str) -> (out: Vec<char>)
    ensures
        out@ == replace_char(chars@, c, replacement@),
{
    let by = to_chars(replacement);
    let mut out: Vec<char> = Vec::new();
    assert(chars@.take(0) == Seq::<char>::empty());
    for i in 0..chars.len()
        invariant
            by@ == replacement@,
            out@ == replace_char(chars@.take(i as int), c, replacement@),
    {
        assert(chars@.take(i + 1).drop_last() == chars@.take(i as int));
        if chars[i] == c {
            copy_range(by.as_slice(), 0, by.len(), &mut out);
            assert(by@.subrange(0, by@.len() as int) == replacement@);
        } else {
            let ghost before = out@;
            out.push(chars[i]);
            assert(out@ == before + seq![chars@[i as int]]);
        }
    }
    assert(chars@.take(chars@.len() as int) == chars@);
    out
}

/// `s` with `replacement` in place of every `pattern`, found from the left and
/// without overlaps.
pub open spec fn replace_text(
    s: Seq<char>,
    pattern: Seq<char>,
    replacement: Seq<char>,
) -> Seq<char>
    decreases s.len(),
{
    if s.len() == 0 || pattern.len() == 0 {
        s
    } else if pattern.is_prefix_of(s) {
        replacement + replace_text(s.skip(pattern.len() as int), pattern, replacement)
    } else {
        seq![s[0]] + replace_text(s.skip(1), pattern, replacement)
    }
}

/// Whether `pattern` stands in `chars` from index `at` on.
pub fn stands_at(chars: &[char], at: usize, pattern: &[char]) -> (found: bool)
    requires
        at <= chars@.len(),
    ensures
        found == pattern@.is_prefix_of(chars@.skip(at as int)),
{
    let n: usize = chars.len();
    if n - at < pattern.len() {
        return false;
    }
    for i in 0..pattern.len()
        invariant
            at + pattern@.len() <= n == chars@.len(),
            forall|j: int| 0 <= j < i ==> pattern@[j] == chars@[at + j],
    {
        if chars[at + i] != pattern[i] {
            assert(chars@.skip(at as int)[i as int] == chars@[at + i]);
            return false;
        }
    }
    assert(pattern@ =~= chars@.skip(at as int).subrange(0, pattern@.len() as int));
    true
}

/// Puts `replacement` in place of every `pattern`.
pub fn replace_each_text(chars: &[char], pattern: &str, replacement: &str) -> (out: Vec<char>)
    requires
        pattern@.len() > 0,
    ensures
        out@ == replace_text(chars@, pattern@, replacement@),
{
    let old_part = to_chars(pattern);
    let new_part = to_chars(replacement);
    let mut out: Vec<char> = Vec::new();
    let mut i: usize = 0;
    assert(chars@.skip(0) == chars@);
    while i < chars.len()
        invariant
            i <= chars@.len(),
            old_part@ == pattern@,
            new_part@ == replacement@,
            pattern@.len() > 0,
            out@ + replace_text(chars@.skip(i as int), pattern@, replacement@) == replace_text(
                chars@,
                pattern@,
                replacement@,
            ),
        decreases chars@.len() - i,
    {
        let ghost rest = chars@.skip(i as int);
        let ghost before = out@;
        if stands_at(chars, i, old_part.as_slice()) {
            let ghost next = replace_text(
                rest.skip(pattern@.len() as int),
                pattern@,
                replacement@,
            );
            copy_range(new_part.as_slice(), 0, new_part.len(), &mut out);
            assert(new_part@.subrange(0, new_part@.len() as int) == replacement@);
            assert(rest.skip(pattern@.len() as int) == chars@.skip(i + pattern@.len()));
            assert((before + replacement@) + next == before + (replacement@ + next));
            i = i + old_part.len();
        } else {
            let ghost next = replace_text(rest.skip(1), pattern@, replacement@);
            out.push(chars[i]);
            assert(rest.skip(1) == chars@.skip(i + 1));
            assert(before.push(rest[0]) + next == before + (seq![rest[0]] + next));
            i = i + 1;
        }
    }
    assert(chars@.skip(chars@.len() as int) == Seq::<char>::empty());
    assert(out@ + Seq::<char>::empty() == out@);
    out
}

/// The small letter of an ASCII capital, and any other character unchanged.
pub open spec fn ascii_lower(c: char) -> char {
    if 'A' <= c <= 'Z' {
        (c as u8 + 32) as u8 as char
    } else {
        c
    }
}

/// The capital of a small ASCII letter, and any other character unchanged.
pub open spec fn ascii_upper(c: char) -> char {
    if 'a' <= c <= 'z' {
        (c as u8 - 32) as u8 as char
    } else {
        c
    }
}

/// `s` in small ASCII letters.
pub open spec fn lower(s: Seq<char>) -> Seq<char> {
    s.map_values(|c: char| ascii_lower(c))
}

/// The small letter of an ASCII capital.
pub fn to_lower(c: char) -> (r: char)
    ensures
        r == ascii_lower(c),
{
    if 'A' <= c && c <= 'Z' {
        (c as u8 + 32) as char
    } else {
        c
    }
}

/// The capital of a small ASCII letter.
pub fn to_upper(c: char) -> (r: char)
    ensures
        r == ascii_upper(c),
{
    if 'a' <= c && c <= 'z' {
        (c as u8 - 32) as char
    } else {
        c
    }
}

/// A text in small ASCII letters.
pub fn lower_text(text: &str) -> (out: String)
    ensures
        out@ == lower(text@),
{
    let chars = to_chars(text);
    let mut out = String::new();
    for i in 0..chars.len()
        invariant
            chars@ == text@,
            out@ == lower(text@).take(i as int),
    {
        out.push(to_lower(chars[i]));
        assert(lower(text@).take(i + 1) == lower(text@).take(i as int).push(
            ascii_lower(chars@[i as int]),
        ));
    }
    assert(lower(text@).take(text@.len() as int) == lower(text@));
    out
}

/// The decimal digit of a number below ten.
pub open spec fn digit(n: nat) -> char {
    (48 + n) as u8 as char
}

/// A number in decimal digits, without leading zeros.
pub open spec fn decimal(n: nat) -> Seq<char>
    decreases n,
{
    if n < 10 {
        seq![digit(n)]
    } else {
        decimal(n / 10).push(digit(n % 10))
    }
}

/// Writes a number in decimal digits.
pub fn decimal_text(n: u128) -> (text: String)
    ensures
        text@ == decimal(n as nat),
    decreases n,
{
    let mut text = if n < 10 {
        String::new()
    } else {
        decimal_text(n / 10)
    };
    text.push((48 + (n % 10) as u8) as char);
    assert(n < 10 ==> text@ =~= seq![digit(n as nat)]);
    text
}

/// Why a text is no unsigned number.
#[derive(Debug, Clone, Copy, PartialEq, Eq, Structural)]
pub enum NumberError {
    Empty,
    InvalidDigit,
    TooLarge,
}

/// Whether `c` is a decimal digit.
pub open spec fn is_digit(c: char) -> bool {
    '0' <= c <= '9'
}

/// The value of a run of digits that stays at or below `max`. The first
/// character that is no digit or exceeds `max` decides the error.
pub open spec fn digits_value(s: Seq<char>, max: nat) -> Result<nat, NumberError>
    decreases s.len(),
{
    if s.len() == 0 {
        Ok(0)
    } else {
        match digits_value(s.drop_last(), max) {
            Err(error) => Err(error),
            Ok(value) => if !is_digit(s.last()) {
                Err(NumberError::InvalidDigit)
            } else {
                let next = (value * 10 + (s.last() as u32 - 48)) as nat;
                if next > max {
                    Err(NumberError::TooLarge)
                } else {
                    Ok(next)
                }
            },
        }
    }
}

/// The unsigned number that `s` writes, which may begin with a plus sign.
pub open spec fn unsigned_value(s: Seq<char>, max: nat) -> Result<nat, NumberError> {
    if s.len() == 0 {
        Err(NumberError::Empty)
    } else if s.len() > 1 && s[0] == '+' {
        digits_value(s.skip(1), max)
    } else {
        digits_value(s, max)
    }
}

/// A failure at an earlier character is the failure of the whole.
pub proof fn lemma_digits_error(s: Seq<char>, i: int, max: nat)
    requires
        0 <= i <= s.len(),
        digits_value(s.take(i), max) is Err,
    ensures
        digits_value(s, max) == digits_value(s.take(i), max),
    decreases s.len() - i,
{
    if i == s.len() {
        assert(s.take(i) == s);
    } else {
        assert(s.take(i + 1).drop_last() == s.take(i));
        lemma_digits_error(s, i + 1, max);
    }
}

/// Reads an unsigned number of at most `max`.
pub fn parse_unsigned(chars: &[char], max: u64) -> (result: Result<u64, NumberError>)
    ensures
        match result {
            Ok(value) => unsigned_value(chars@, max as nat) == Ok::<nat, NumberError>(value as nat),
            Err(error) => unsigned_value(chars@, max as nat) == Err::<nat, NumberError>(error),
        },
{
    let n: usize = chars.len();
    if n == 0 {
        return Err(NumberError::Empty);
    }
    let start: usize = if n > 1 && chars[0] == '+' {
        1
    } else {
        0
    };
    let ghost body = chars@.skip(start as int);
    assert(start == 0 ==> body == chars@);
    assert(unsigned_value(chars@, max as nat) == digits_value(body, max as nat));
    let mut value: u64 = 0;
    assert(body.take(0) == Seq::<char>::empty());
    for i in start..n
        invariant
            n == chars@.len(),
            start <= n,
            body == chars@.skip(start as int),
            value <= max,
            unsigned_value(chars@, max as nat) == digits_value(body, max as nat),
            digits_value(body.take(i - start), max as nat) == Ok::<nat, NumberError>(value as nat),
    {
        let c = chars[i];
        let ghost part = body.take(i - start + 1);
        assert(part.drop_last() == body.take(i - start));
        assert(part.last() == c);
        if !('0' <= c && c <= '9') {
            proof {
                lemma_digits_error(body, i - start + 1, max as nat);
            }
            return Err(NumberError::InvalidDigit);
        }
        let next: u128 = value as u128 * 10 + (c as u32 - 48) as u128;
        if next > max as u128 {
            proof {
                lemma_digits_error(body, i - start + 1, max as nat);
            }
            return Err(NumberError::TooLarge);
        }
        value = next as u64;
    }
    assert(body.take(n - start) == body);
    Ok(value)
}

/// What is said of a text that is no unsigned number.
pub open spec fn number_error_text(error: NumberError) -> Seq<char> {
    match error {
        NumberError::Empty => "cannot parse integer from empty string"@,
        NumberError::InvalidDigit => "invalid digit found in string"@,
        NumberError::TooLarge => "number too large to fit in target type"@,
    }
}

/// What is said of a text that is no unsigned number.
pub fn number_error_message(error: NumberError) -> (text: &'static str)
    ensures
        text@ == number_error_text(error),
{
    match error {
        NumberError::Empty => "cannot parse integer from empty string",
        NumberError::InvalidDigit => "invalid digit found in string",
        NumberError::TooLarge => "number too large to fit in target type",
    }
}

/// Every character of a decimal number is a digit, and there is at least one.
pub proof fn lemma_decimal_digits(n: nat)
    ensures
        decimal(n).len() > 0,
        forall|i: int| 0 <= i < decimal(n).len() ==> is_digit(#[trigger] decimal(n)[i]),
    decreases n,
{
    if n >= 10 {
        lemma_decimal_digits(n / 10);
    }
}

/// Reading a written number gives the number back.
pub proof fn parse_undoes_decimal(n: nat, max: nat)
    requires
        n <= max,
    ensures
        unsigned_value(decimal(n), max) == Ok::<nat, NumberError>(n),
{
    lemma_digits_of_decimal(n, max);
    lemma_decimal_digits(n);
    assert(is_digit(decimal(n)[0]));
}

proof fn lemma_digits_of_decimal(n: nat, max: nat)
    requires
        n <= max,
    ensures
        digits_value(decimal(n), max) == Ok::<nat, NumberError>(n),
    decreases n,
{
    if n >= 10 {
        lemma_digits_of_decimal(n / 10, max);
        assert(decimal(n).drop_last() == decimal(n / 10));
    } else {
        assert(decimal(n).drop_last() == Seq::<char>::empty());
        assert(digits_value(Seq::<char>::empty(), max) == Ok::<nat, NumberError>(0));
    }
}

} // verus!
