//! Text to and from the UTF-16 units that Windows works with.

use vstd::prelude::*;

use crate::text::chars_of;

verus! {

/// The UTF-16 units of a character: itself, or a surrogate pair.
pub open spec fn utf16_of_char(c: char) -> Seq<u16> {
    let code = c as int;
    if code < 0x1_0000 {
        seq![code as u16]
    } else {
        seq![
            (0xD800 + (code - 0x1_0000) / 0x400) as u16,
            (0xDC00 + (code - 0x1_0000) % 0x400) as u16,
        ]
    }
}

/// The UTF-16 units of a text.
pub open spec fn utf16(text: Seq<char>) -> Seq<u16>
    decreases text.len(),
{
    if text.len() == 0 {
        Seq::empty()
    } else {
        utf16(text.drop_last()) + utf16_of_char(text.last())
    }
}

/// Appends the UTF-16 units of a character.
fn push_utf16(units: &mut Vec<u16>, c: char)
    ensures
        final(units)@ == old(units)@ + utf16_of_char(c),
{
    let code: u32 = c as u32;
    if code < 0x1_0000 {
        units.push(code as u16);
    } else {
        units.push((0xD800 + (code - 0x1_0000) / 0x400) as u16);
        units.push((0xDC00 + (code - 0x1_0000) % 0x400) as u16);
    }
    assert(units@ =~= old(units)@ + utf16_of_char(c));
}

/// A text in UTF-16, without a terminator: what `DrawTextW` takes, which
/// measures the text by the length of the slice.
pub fn wide(text: &str) -> (units: Vec<u16>)
    ensures
        units@ == utf16(text@),
{
    let chars = chars_of(text);
    let mut units: Vec<u16> = Vec::new();
    let mut i: usize = 0;
    while i < chars.len()
        invariant
            i <= chars@.len(),
            units@ == utf16(chars@.take(i as int)),
        decreases chars@.len() - i,
    {
        push_utf16(&mut units, chars[i]);
        assert(chars@.take(i + 1).drop_last() =~= chars@.take(i as int));
        i += 1;
    }
    assert(chars@.take(chars@.len() as int) =~= chars@);
    units
}

/// A text in UTF-16 with a terminating NUL: what `ShellExecuteW` takes.
pub fn wide_nul(text: &str) -> (units: Vec<u16>)
    ensures
        units@ == utf16(text@).push(0),
{
    let mut units = wide(text);
    units.push(0);
    units
}

/// The unit is the first of a surrogate pair.
pub open spec fn is_high_surrogate(unit: u16) -> bool {
    0xD800 <= unit < 0xDC00
}

/// The unit is the second of a surrogate pair.
pub open spec fn is_low_surrogate(unit: u16) -> bool {
    0xDC00 <= unit < 0xE000
}

/// The text that UTF-16 units encode, with a replacement character for each
/// surrogate that is not part of a pair.
pub open spec fn utf16_lossy(units: Seq<u16>) -> Seq<char>
    decreases units.len(),
{
    if units.len() == 0 {
        Seq::empty()
    } else if units.len() > 1 && is_high_surrogate(units[0]) && is_low_surrogate(units[1]) {
        let code = 0x1_0000 + (units[0] - 0xD800) * 0x400 + (units[1] - 0xDC00);
        seq![code as char] + utf16_lossy(units.skip(2))
    } else if is_high_surrogate(units[0]) || is_low_surrogate(units[0]) {
        seq!['\u{FFFD}'] + utf16_lossy(units.skip(1))
    } else {
        seq![units[0] as char] + utf16_lossy(units.skip(1))
    }
}

/// `String::from_utf16_lossy`: the text that the units encode, with the
/// replacement character for each unpaired surrogate.
#[verifier::external_body]
pub(crate) fn from_utf16_lossy(units: &[u16]) -> (text: String)
    ensures
        text@ == utf16_lossy(units@),
{
    String::from_utf16_lossy(units)
}

/// A text up to its last character that is not NUL.
pub open spec fn without_trailing_nuls(text: Seq<char>) -> Seq<char>
    decreases text.len(),
{
    if text.len() > 0 && text.last() == '\0' {
        without_trailing_nuls(text.drop_last())
    } else {
        text
    }
}

/// Drops the NULs at the end of a text.
pub fn trim_nuls(text: &str) -> (trimmed: String)
    ensures
        trimmed@ == without_trailing_nuls(text@),
{
    let chars = chars_of(text);
    let mut end: usize = chars.len();
    assert(text@.take(end as int) =~= text@);
    while end > 0 && chars[end - 1] == '\0'
        invariant
            end <= chars@.len(),
            chars@ == text@,
            without_trailing_nuls(text@) == without_trailing_nuls(text@.take(end as int)),
        decreases end,
    {
        assert(text@.take(end as int).drop_last() =~= text@.take(end - 1));
        end -= 1;
    }
    text.substring_char(0, end).to_string()
}

/// The title in the buffer that a window's text was read into, which goes on
/// with NULs behind it.
pub fn title_text(buffer: &[u16]) -> (title: String)
    ensures
        title@ == without_trailing_nuls(utf16_lossy(buffer@)),
{
    let text = from_utf16_lossy(buffer);
    trim_nuls(text.as_str())
}

} // verus!
