//! The texts of the volume widget and of the clock.

use vstd::prelude::*;

verus! {

/// The character of a decimal digit.
pub open spec fn digit_char(digit: int) -> char {
    (('0' as int) + digit) as char
}

/// A number in decimal, without leading zeros.
pub open spec fn decimal(number: nat) -> Seq<char>
    decreases number,
{
    if number < 10 {
        seq![digit_char(number as int)]
    } else {
        decimal(number / 10).push(digit_char((number % 10) as int))
    }
}

/// The text of one decimal digit.
fn digit_text(digit: u32) -> (text: &'static str)
    requires
        digit < 10,
    ensures
        text@ == seq![digit_char(digit as int)],
{
    proof {
        reveal_strlit("0");
        reveal_strlit("1");
        reveal_strlit("2");
        reveal_strlit("3");
        reveal_strlit("4");
        reveal_strlit("5");
        reveal_strlit("6");
        reveal_strlit("7");
        reveal_strlit("8");
        reveal_strlit("9");
    }
    let text = match digit {
        0 => "0",
        1 => "1",
        2 => "2",
        3 => "3",
        4 => "4",
        5 => "5",
        6 => "6",
        7 => "7",
        8 => "8",
        _ => "9",
    };
    assert(text@ =~= seq![digit_char(digit as int)]);
    text
}

/// Appends a number in decimal.
fn push_decimal(text: &mut String, number: u32)
    ensures
        final(text)@ == old(text)@ + decimal(number as nat),
    decreases number,
{
    if number >= 10 {
        push_decimal(text, number / 10);
    }
    text.append(digit_text(number % 10));
    assert(text@ =~= old(text)@ + decimal(number as nat));
}

/// What the volume widget reads: the level in percent, or that it is muted.
pub open spec fn volume_label(percent: u32, muted: bool) -> Seq<char> {
    if muted {
        "Mute"@
    } else {
        "Vol "@ + decimal(percent as nat) + "%"@
    }
}

/// The text of the volume widget.
pub fn volume_text(percent: u32, muted: bool) -> (text: String)
    ensures
        text@ == volume_label(percent, muted),
{
    if muted {
        "Mute".to_string()
    } else {
        let mut text = "Vol ".to_string();
        push_decimal(&mut text, percent);
        text.append("%");
        text
    }
}

/// A number below one hundred in two digits.
pub open spec fn two_digits(number: int) -> Seq<char> {
    seq![digit_char(number / 10), digit_char(number % 10)]
}

/// A time of day as the clock shows it.
pub open spec fn clock_label(hour: int, minute: int, second: int) -> Seq<char> {
    two_digits(hour) + seq![':'] + two_digits(minute) + seq![':'] + two_digits(second)
}

/// The text reads as a time of day. `chrono` counts a leap second as second 60.
pub open spec fn is_clock_label(text: Seq<char>) -> bool {
    exists|hour: int, minute: int, second: int|
        0 <= hour < 24 && 0 <= minute < 60 && 0 <= second <= 60 && text == #[trigger] clock_label(
            hour,
            minute,
            second,
        )
}

/// The clock shows hours, minutes and seconds.
pub const CLOCK_FORMAT: &'static str = "%H:%M:%S";

/// `chrono::Local::now` and `DateTime::format`: the local time of day, written
/// as hour, minute and second in two digits each with colons between. Which
/// time it is depends on the machine's clock and zone, and is left open here.
#[verifier::external_body]
fn format_local_time(format: &str) -> (text: String)
    requires
        format@ == "%H:%M:%S"@,
    ensures
        is_clock_label(text@),
{
    chrono::Local::now().format(format).to_string()
}

/// The machine gave this text for its local time when it was asked. What it may
/// give is for [`format_local_time`] alone to say.
pub closed spec fn is_local_time_reading(text: Seq<char>) -> bool {
    exists|shown: String| #[trigger]
        call_ensures(format_local_time, (CLOCK_FORMAT,), shown) && shown@ == text
}

/// Nothing but the machine's local time gives a reading of it.
proof fn readings_come_from_the_local_time(text: Seq<char>)
    ensures
        is_local_time_reading(text) <==> exists|shown: String| #[trigger]
            call_ensures(format_local_time, (CLOCK_FORMAT,), shown) && shown@ == text,
{
}

/// The text of the clock, now.
pub fn clock_text() -> (text: String)
    ensures
        is_clock_label(text@),
        is_local_time_reading(text@),
{
    format_local_time(CLOCK_FORMAT)
}

} // verus!
