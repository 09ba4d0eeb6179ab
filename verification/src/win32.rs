//! The part of the Win32 vocabulary that the bar decides on: message, key and
//! notification numbers, and the words packed into `WPARAM` and `LPARAM`.

use vstd::prelude::*;

verus! {

pub const WM_CREATE: u32 = 0x0001;

pub const WM_DESTROY: u32 = 0x0002;

pub const WM_ACTIVATE: u32 = 0x0006;

pub const WM_PAINT: u32 = 0x000F;

pub const WM_KEYDOWN: u32 = 0x0100;

pub const WM_COMMAND: u32 = 0x0111;

pub const WM_TIMER: u32 = 0x0113;

pub const WM_CTLCOLOREDIT: u32 = 0x0133;

pub const WM_LBUTTONDOWN: u32 = 0x0201;

pub const WM_MOUSEWHEEL: u32 = 0x020A;

pub const WM_HOTKEY: u32 = 0x0312;

/// `EN_CHANGE`: the text of an edit control changed.
pub const EN_CHANGE: u32 = 0x0300;

/// `WA_INACTIVE`: the window is losing the focus.
pub const WA_INACTIVE: u32 = 0;

/// `EVENT_SYSTEM_FOREGROUND`: another window took the focus.
pub const EVENT_SYSTEM_FOREGROUND: u32 = 0x0003;

/// `MOD_ALT`: a hotkey with the Alt key.
pub const MOD_ALT: u32 = 0x0001;

pub const VK_RETURN: u16 = 0x0D;

pub const VK_ESCAPE: u16 = 0x1B;

pub const VK_SPACE: u16 = 0x20;

pub const VK_UP: u16 = 0x26;

pub const VK_DOWN: u16 = 0x28;

/// The lowest 16 bits of `v`, read as a two's complement number.
pub open spec fn signed16(v: int) -> int {
    let word = v % 0x1_0000;
    if word < 0x8000 {
        word
    } else {
        word - 0x1_0000
    }
}

/// The lowest 32 bits of `v`, read as a two's complement number.
pub open spec fn signed32(v: int) -> int {
    let word = v % 0x1_0000_0000;
    if word < 0x8000_0000 {
        word
    } else {
        word - 0x1_0000_0000
    }
}

/// The x coordinate in the `LPARAM` of a mouse message.
pub fn lparam_x(lparam: isize) -> (x: i32)
    ensures
        x == signed16(lparam as int),
{
    let word: isize = lparam & 0xFFFF;
    assert(lparam & 0xFFFF == lparam % 0x1_0000) by (bit_vector);
    assert(0 <= word < 0x1_0000 ==> #[verifier::truncate]
    (word as i16) == if word < 0x8000 {
        word as int
    } else {
        word - 0x1_0000
    }) by (bit_vector);
    #[verifier::truncate]
    (word as i16) as i32
}

/// The y coordinate in the `LPARAM` of a mouse message.
pub fn lparam_y(lparam: isize) -> (y: i32)
    ensures
        y == signed16(lparam as int / 0x1_0000),
{
    let shifted: isize = lparam >> 16;
    assert(lparam >> 16 == lparam / 0x1_0000) by (bit_vector);
    lparam_x(shifted)
}

/// The wheel movement in the `WPARAM` of `WM_MOUSEWHEEL`: positive away from
/// the user.
pub fn wheel_delta(wparam: usize) -> (delta: i16)
    ensures
        delta == signed16(wparam as int / 0x1_0000),
{
    let word: usize = (wparam >> 16) & 0xFFFF;
    assert((wparam >> 16) & 0xFFFF == (wparam / 0x1_0000) % 0x1_0000) by (bit_vector);
    assert(0 <= word < 0x1_0000 ==> #[verifier::truncate]
    (word as i16) == if word < 0x8000 {
        word as int
    } else {
        word - 0x1_0000
    }) by (bit_vector);
    #[verifier::truncate]
    (word as i16)
}

/// The notification code in the `WPARAM` of `WM_COMMAND`.
pub fn notification_code(wparam: usize) -> (code: u32)
    ensures
        code == (wparam as int / 0x1_0000) % 0x1_0000_0000,
{
    let shifted: u64 = (wparam >> 16) as u64;
    assert(wparam >> 16 == wparam / 0x1_0000) by (bit_vector);
    assert(#[verifier::truncate]
    (shifted as u32) == shifted % 0x1_0000_0000) by (bit_vector);
    #[verifier::truncate]
    (shifted as u32)
}

/// The activation state in the `WPARAM` of `WM_ACTIVATE`.
pub fn activation_state(wparam: usize) -> (state: u32)
    ensures
        state == wparam as int % 0x1_0000,
{
    assert(wparam & 0xFFFF == wparam % 0x1_0000) by (bit_vector);
    (wparam & 0xFFFF) as u32
}

/// The virtual key code in the `WPARAM` of `WM_KEYDOWN`.
pub fn virtual_key(wparam: usize) -> (key: u16)
    ensures
        key == wparam as int % 0x1_0000,
{
    assert(#[verifier::truncate]
    (wparam as u16) == wparam % 0x1_0000) by (bit_vector);
    #[verifier::truncate]
    (wparam as u16)
}

/// The hotkey number in the `WPARAM` of `WM_HOTKEY`.
pub fn hotkey_number(wparam: usize) -> (id: i32)
    ensures
        id == signed32(wparam as int),
{
    let wide: u64 = wparam as u64;
    let low: u32 = #[verifier::truncate]
    (wide as u32);
    assert(#[verifier::truncate]
    (wide as u32) == wide % 0x1_0000_0000) by (bit_vector);
    assert(#[verifier::truncate]
    (low as i32) == if low < 0x8000_0000 {
        low as int
    } else {
        low - 0x1_0000_0000
    }) by (bit_vector);
    #[verifier::truncate]
    (low as i32)
}

} // verus!
