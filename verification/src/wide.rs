//! Texts in UTF-16, as Windows takes and gives them.

use crate::text::to_chars;
use vstd::prelude::*;
use vstd::string::*;
use vstd::utf8::{char_is_scalar, char_u32_cast};

verus! {

/// The character with a number, where there is one: `char::from_u32`. Numbers
/// above 0x10ffff and those of surrogates have none.
pub assume_specification[ char::from_u32 ](value: u32) -> (found: Option<char>)
    ensures
        match found {
            Some(c) => c as u32 == value,
            None => 0xd800 <= value <= 0xdfff || value > 0x10ffff,
        },
;

/// The units of one character.
pub open spec fn char_units(c: char) -> Seq<u16> {
    let n = c as u32;
    if n < 0x10000 {
        seq![n as u16]
    } else {
        seq![(0xd800 + (n - 0x10000) / 1024) as u16, (0xdc00 + (n - 0x10000) % 1024) as u16]
    }
}

/// The units of a text.
pub open spec fn utf16(s: Seq<char>) -> Seq<u16>
    decreases s.len(),
{
    if s.len() == 0 {
        Seq::empty()
    } else {
        char_units(s[0]) + utf16(s.skip(1))
    }
}

/// The text that units stand for. A surrogate without its other half stands for
/// the replacement character.
pub open spec fn utf16_text(units: Seq<u16>) -> Seq<char>
    decreases units.len(),
{
    if units.len() == 0 {
        Seq::empty()
    } else {
        let u = units[0];
        if u < 0xd800 || 0xe000 <= u {
            seq![u as u32 as char] + utf16_text(units.skip(1))
        } else if u < 0xdc00 && units.len() > 1 && 0xdc00 <= units[1] < 0xe000 {
            let n = 0x10000 + (u - 0xd800) * 1024 + (units[1] - 0xdc00);
            seq![n as u32 as char] + utf16_text(units.skip(2))
        } else {
            seq!['\u{fffd}'] + utf16_text(units.skip(1))
        }
    }
}

/// What stands before the first zero, or everything where there is none.
pub open spec fn before_zero(units: Seq<u16>) -> Seq<u16>
    decreases units.len(),
{
    if units.len() == 0 || units[0] == 0 {
        Seq::empty()
    } else {
        seq![units[0]] + before_zero(units.skip(1))
    }
}

/// The units of a text, without a zero at the end.
pub fn encode_utf16(text: &str) -> (units: Vec<u16>)
    ensures
        units@ == utf16(text@),
{
    let chars = to_chars(text);
    let mut units: Vec<u16> = Vec::new();
    assert(text@.skip(0) == text@);
    for i in 0..chars.len()
        invariant
            chars@ == text@,
            units@ + utf16(text@.skip(i as int)) == utf16(text@),
    {
        let ghost before = units@;
        assert(text@.skip(i as int).skip(1) == text@.skip(i + 1));
        let n: u32 = chars[i] as u32;
        if n < 0x10000 {
            units.push(n as u16);
        } else {
            let m: u32 = n - 0x10000;
            units.push((0xd800 + m / 1024) as u16);
            units.push((0xdc00 + m % 1024) as u16);
        }
        assert(units@ =~= before + char_units(chars@[i as int]));
        let ghost rest = utf16(text@.skip(i + 1));
        assert((before + char_units(chars@[i as int])) + rest == before + (char_units(
            chars@[i as int],
        ) + rest));
    }
    assert(text@.skip(text@.len() as int) == Seq::<char>::empty());
    assert(units@ + Seq::<u16>::empty() == units@);
    units
}

/// The units of a text, with a zero at the end.
pub fn wide_null(text: &str) -> (units: Vec<u16>)
    ensures
        units@ == utf16(text@).push(0),
{
    let mut units = encode_utf16(text);
    units.push(0);
    units
}

/// The text in a buffer of fixed length, which ends at the first zero.
pub fn wide_fixed_to_string(units: &[u16]) -> (text: String)
    ensures
        text@ == utf16_text(before_zero(units@)),
{
    let n: usize = units.len();
    let mut end: usize = 0;
    assert(units@.skip(0) == units@);
    assert(units@.take(0) == Seq::<u16>::empty());
    assert(Seq::<u16>::empty() + before_zero(units@) == before_zero(units@));
    while end < n && units[end] != 0
        invariant
            n == units@.len(),
            end <= n,
            before_zero(units@) == units@.take(end as int) + before_zero(units@.skip(end as int)),
        decreases n - end,
    {
        let ghost rest = units@.skip(end as int);
        assert(rest.skip(1) == units@.skip(end + 1));
        assert(units@.take(end + 1) == units@.take(end as int).push(units@[end as int]));
        assert(units@.take(end as int) + (seq![rest[0]] + before_zero(rest.skip(1)))
            == units@.take(end + 1) + before_zero(rest.skip(1)));
        end = end + 1;
    }
    let ghost body = units@.take(end as int);
    assert(body + Seq::<u16>::empty() == body);
    assert(before_zero(units@) == body);
    let mut text = String::new();
    let mut i: usize = 0;
    assert(body.skip(0) == body);
    while i < end
        invariant
            i <= end <= units@.len(),
            body == units@.take(end as int),
            text@ + utf16_text(body.skip(i as int)) == utf16_text(body),
        decreases end - i,
    {
        let ghost before = text@;
        let ghost rest = body.skip(i as int);
        assert(rest.skip(1) == body.skip(i + 1));
        let u: u16 = units[i];
        if u < 0xd800 || 0xe000 <= u {
            push_scalar(&mut text, u as u32);
            assert(text@ + utf16_text(rest.skip(1)) == before + (seq![u as u32 as char]
                + utf16_text(rest.skip(1))));
            i = i + 1;
        } else if u < 0xdc00 && i + 1 < end && 0xdc00 <= units[i + 1] && units[i + 1] < 0xe000 {
            let low: u16 = units[i + 1];
            let n: u32 = 0x10000 + (u as u32 - 0xd800) * 1024 + (low as u32 - 0xdc00);
            assert(rest.skip(2) == body.skip(i + 2));
            push_scalar(&mut text, n);
            assert(text@ + utf16_text(rest.skip(2)) == before + (seq![n as char] + utf16_text(
                rest.skip(2),
            )));
            i = i + 2;
        } else {
            text.push('\u{fffd}');
            assert(text@ + utf16_text(rest.skip(1)) == before + (seq!['\u{fffd}'] + utf16_text(
                rest.skip(1),
            )));
            i = i + 1;
        }
    }
    assert(body.skip(end as int) == Seq::<u16>::empty());
    assert(text@ + Seq::<char>::empty() == text@);
    text
}

fn push_scalar(text: &mut String, n: u32)
    requires
        n < 0xd800 || 0xe000 <= n <= 0x10ffff,
    ensures
        final(text)@ == old(text)@.push(n as char),
{
    match char::from_u32(n) {
        Some(c) => {
            proof {
                char_u32_cast(c, n);
            }
            text.push(c);
        },
        None => {},
    }
}

/// Reading the units of a text gives the text back.
pub proof fn decode_undoes_encode_utf16(s: Seq<char>)
    ensures
        utf16_text(utf16(s)) == s,
    decreases s.len(),
{
    if s.len() > 0 {
        decode_undoes_encode_utf16(s.skip(1));
        let n = s[0] as u32;
        char_is_scalar(s[0]);
        char_u32_cast(s[0], n);
        let rest = utf16(s.skip(1));
        let all = char_units(s[0]) + rest;
        if n < 0x10000 {
            assert(all.skip(1) == rest);
        } else {
            assert(all.skip(2) == rest);
            let m = n - 0x10000;
            assert(m == (m / 1024) * 1024 + m % 1024);
        }
        assert(seq![s[0]] + s.skip(1) == s);
    }
}

/// A text without a zero character survives the way through a buffer.
pub proof fn buffer_gives_text_back(s: Seq<char>, rest: Seq<u16>)
    requires
        !s.contains('\0'),
    ensures
        utf16_text(before_zero(utf16(s).push(0) + rest)) == s,
{
    lemma_units_nonzero(s);
    lemma_before_zero(utf16(s), seq![0u16] + rest);
    assert(utf16(s).push(0) + rest == utf16(s) + (seq![0u16] + rest));
    decode_undoes_encode_utf16(s);
}

proof fn lemma_units_nonzero(s: Seq<char>)
    requires
        !s.contains('\0'),
    ensures
        !utf16(s).contains(0),
    decreases s.len(),
{
    if s.len() > 0 {
        assert(s.contains(s[0]));
        assert forall|i: int| 0 <= i < s.skip(1).len() implies s.skip(1)[i] != '\0' by {
            assert(s.contains(s[i + 1]));
        }
        lemma_units_nonzero(s.skip(1));
        let head = char_units(s[0]);
        char_is_scalar(s[0]);
        char_u32_cast(s[0], s[0] as u32);
        assert(s[0] as u32 != 0);
        let tail = utf16(s.skip(1));
        assert forall|i: int| 0 <= i < (head + tail).len() implies (head + tail)[i] != 0 by {
            if i >= head.len() {
                assert(tail.contains(tail[i - head.len()]));
            }
        }
    }
}

proof fn lemma_before_zero(a: Seq<u16>, b: Seq<u16>)
    requires
        !a.contains(0),
        b.len() > 0,
        b[0] == 0,
    ensures
        before_zero(a + b) == a,
    decreases a.len(),
{
    if a.len() == 0 {
        assert(a + b == b);
        assert(a == Seq::<u16>::empty());
    } else {
        assert(a.contains(a[0]));
        assert forall|i: int| 0 <= i < a.skip(1).len() implies a.skip(1)[i] != 0 by {
            assert(a.contains(a[i + 1]));
        }
        assert((a + b).skip(1) == a.skip(1) + b);
        lemma_before_zero(a.skip(1), b);
        assert(seq![a[0]] + a.skip(1) == a);
    }
}

/// A buffer of fixed length after a text is written into it: the text up to its
/// first zero, a zero, and what the buffer held before. Its last unit is zero.
pub open spec fn written_wide(buffer: Seq<u16>, s: Seq<char>) -> Seq<u16> {
    let units = before_zero(utf16(s)).push(0);
    Seq::new(
        buffer.len(),
        |i: int|
            if i == buffer.len() - 1 {
                0
            } else if i < units.len() {
                units[i]
            } else {
                buffer[i]
            },
    )
}

proof fn lemma_before_zero_prefix(units: Seq<u16>, i: int)
    requires
        0 <= i <= units.len(),
        forall|j: int| 0 <= j < i ==> units[j] != 0,
    ensures
        before_zero(units) == units.take(i) + before_zero(units.skip(i)),
    decreases i,
{
    if i == 0 {
        assert(units.skip(0) == units);
        assert(units.take(0) + before_zero(units) == before_zero(units));
    } else {
        lemma_before_zero_prefix(units.skip(1), i - 1);
        assert(units.skip(1).skip(i - 1) == units.skip(i));
        assert(seq![units[0]] + units.skip(1).take(i - 1) == units.take(i));
        let rest = before_zero(units.skip(i));
        assert(seq![units[0]] + (units.skip(1).take(i - 1) + rest) == units.take(i) + rest);
    }
}

/// Writes a text into a buffer of fixed length, so that a zero follows it.
pub fn write_wide_fixed(buffer: &mut Vec<u16>, text: &str)
    ensures
        final(buffer)@ == written_wide(old(buffer)@, text@),
{
    let units = encode_utf16(text);
    let n: usize = buffer.len();
    let mut i: usize = 0;
    while i < n && i < units.len() && units[i] != 0
        invariant
            n == buffer@.len() == old(buffer)@.len(),
            i <= n,
            i <= units@.len(),
            units@ == utf16(text@),
            forall|j: int| 0 <= j < i ==> units@[j] != 0,
            forall|j: int| 0 <= j < i ==> buffer@[j] == units@[j],
            forall|j: int| i <= j < n ==> buffer@[j] == old(buffer)@[j],
        decreases n - i,
    {
        buffer.set(i, units[i]);
        i = i + 1;
    }
    proof {
        lemma_before_zero_prefix(units@, i as int);
        if i < n {
            assert(before_zero(units@.skip(i as int)) == Seq::<u16>::empty());
            assert(before_zero(units@) == units@.take(i as int));
        }
    }
    if i < n {
        buffer.set(i, 0);
    }
    if n > 0 {
        buffer.set(n - 1, 0);
    }
    assert(buffer@ =~= written_wide(old(buffer)@, text@));
}

} // verus!
