//! Windows virtual-key codes, in both directions.
//!
//! Declared once, as the table in `vk_of`, so the two directions cannot
//! disagree: the law below proves that they do not.

use vstd::prelude::*;

use crate::keys::{key_at, Key};

verus! {

/// Left and right Shift, Ctrl and Alt, as Windows reports them.
pub const VK_LSHIFT: u32 = 0xA0;
pub const VK_RSHIFT: u32 = 0xA1;
pub const VK_LCONTROL: u32 = 0xA2;
pub const VK_RCONTROL: u32 = 0xA3;
pub const VK_LMENU: u32 = 0xA4;
pub const VK_RMENU: u32 = 0xA5;

/// The virtual-key code Footman sends or compares against for a `Key`.
pub open spec fn vk_of(key: Key) -> u32 {
    match key {
        Key::A => 0x41,
        Key::B => 0x42,
        Key::C => 0x43,
        Key::D => 0x44,
        Key::E => 0x45,
        Key::F => 0x46,
        Key::G => 0x47,
        Key::H => 0x48,
        Key::I => 0x49,
        Key::J => 0x4A,
        Key::K => 0x4B,
        Key::L => 0x4C,
        Key::M => 0x4D,
        Key::N => 0x4E,
        Key::O => 0x4F,
        Key::P => 0x50,
        Key::Q => 0x51,
        Key::R => 0x52,
        Key::S => 0x53,
        Key::T => 0x54,
        Key::U => 0x55,
        Key::V => 0x56,
        Key::W => 0x57,
        Key::X => 0x58,
        Key::Y => 0x59,
        Key::Z => 0x5A,
        Key::Digit0 => 0x30,
        Key::Digit1 => 0x31,
        Key::Digit2 => 0x32,
        Key::Digit3 => 0x33,
        Key::Digit4 => 0x34,
        Key::Digit5 => 0x35,
        Key::Digit6 => 0x36,
        Key::Digit7 => 0x37,
        Key::Digit8 => 0x38,
        Key::Digit9 => 0x39,
        Key::F1 => 0x70,
        Key::F2 => 0x71,
        Key::F3 => 0x72,
        Key::F4 => 0x73,
        Key::F5 => 0x74,
        Key::F6 => 0x75,
        Key::F7 => 0x76,
        Key::F8 => 0x77,
        Key::F9 => 0x78,
        Key::F10 => 0x79,
        Key::F11 => 0x7A,
        Key::F12 => 0x7B,
        Key::F13 => 0x7C,
        Key::F14 => 0x7D,
        Key::F15 => 0x7E,
        Key::F16 => 0x7F,
        Key::F17 => 0x80,
        Key::F18 => 0x81,
        Key::F19 => 0x82,
        Key::F20 => 0x83,
        Key::F21 => 0x84,
        Key::F22 => 0x85,
        Key::F23 => 0x86,
        Key::F24 => 0x87,
        Key::Left => 0x25,
        Key::Right => 0x27,
        Key::Up => 0x26,
        Key::Down => 0x28,
        Key::Space => 0x20,
        Key::Enter => 0x0D,
        Key::Tab => 0x09,
        Key::Backspace => 0x08,
        Key::Escape => 0x1B,
        Key::Delete => 0x2E,
        Key::Insert => 0x2D,
        Key::Home => 0x24,
        Key::End => 0x23,
        Key::PageUp => 0x21,
        Key::PageDown => 0x22,
        Key::CapsLock => 0x14,
        Key::Shift => 0x10,
        Key::Ctrl => 0x11,
        Key::Alt => 0x12,
    }
}

/// The `Key` a virtual-key code stands for, if Footman can bind it.
///
/// Windows reports each modifier as a specific side; a Chord is written
/// `Shift+C` and never `LeftShift+C`, so both sides arrive as the same Key.
pub open spec fn key_of_vk(vk: u32) -> Option<Key> {
    if vk == 0x41 {
        Some(Key::A)
    } else if vk == 0x42 {
        Some(Key::B)
    } else if vk == 0x43 {
        Some(Key::C)
    } else if vk == 0x44 {
        Some(Key::D)
    } else if vk == 0x45 {
        Some(Key::E)
    } else if vk == 0x46 {
        Some(Key::F)
    } else if vk == 0x47 {
        Some(Key::G)
    } else if vk == 0x48 {
        Some(Key::H)
    } else if vk == 0x49 {
        Some(Key::I)
    } else if vk == 0x4A {
        Some(Key::J)
    } else if vk == 0x4B {
        Some(Key::K)
    } else if vk == 0x4C {
        Some(Key::L)
    } else if vk == 0x4D {
        Some(Key::M)
    } else if vk == 0x4E {
        Some(Key::N)
    } else if vk == 0x4F {
        Some(Key::O)
    } else if vk == 0x50 {
        Some(Key::P)
    } else if vk == 0x51 {
        Some(Key::Q)
    } else if vk == 0x52 {
        Some(Key::R)
    } else if vk == 0x53 {
        Some(Key::S)
    } else if vk == 0x54 {
        Some(Key::T)
    } else if vk == 0x55 {
        Some(Key::U)
    } else if vk == 0x56 {
        Some(Key::V)
    } else if vk == 0x57 {
        Some(Key::W)
    } else if vk == 0x58 {
        Some(Key::X)
    } else if vk == 0x59 {
        Some(Key::Y)
    } else if vk == 0x5A {
        Some(Key::Z)
    } else if vk == 0x30 {
        Some(Key::Digit0)
    } else if vk == 0x31 {
        Some(Key::Digit1)
    } else if vk == 0x32 {
        Some(Key::Digit2)
    } else if vk == 0x33 {
        Some(Key::Digit3)
    } else if vk == 0x34 {
        Some(Key::Digit4)
    } else if vk == 0x35 {
        Some(Key::Digit5)
    } else if vk == 0x36 {
        Some(Key::Digit6)
    } else if vk == 0x37 {
        Some(Key::Digit7)
    } else if vk == 0x38 {
        Some(Key::Digit8)
    } else if vk == 0x39 {
        Some(Key::Digit9)
    } else if vk == 0x70 {
        Some(Key::F1)
    } else if vk == 0x71 {
        Some(Key::F2)
    } else if vk == 0x72 {
        Some(Key::F3)
    } else if vk == 0x73 {
        Some(Key::F4)
    } else if vk == 0x74 {
        Some(Key::F5)
    } else if vk == 0x75 {
        Some(Key::F6)
    } else if vk == 0x76 {
        Some(Key::F7)
    } else if vk == 0x77 {
        Some(Key::F8)
    } else if vk == 0x78 {
        Some(Key::F9)
    } else if vk == 0x79 {
        Some(Key::F10)
    } else if vk == 0x7A {
        Some(Key::F11)
    } else if vk == 0x7B {
        Some(Key::F12)
    } else if vk == 0x7C {
        Some(Key::F13)
    } else if vk == 0x7D {
        Some(Key::F14)
    } else if vk == 0x7E {
        Some(Key::F15)
    } else if vk == 0x7F {
        Some(Key::F16)
    } else if vk == 0x80 {
        Some(Key::F17)
    } else if vk == 0x81 {
        Some(Key::F18)
    } else if vk == 0x82 {
        Some(Key::F19)
    } else if vk == 0x83 {
        Some(Key::F20)
    } else if vk == 0x84 {
        Some(Key::F21)
    } else if vk == 0x85 {
        Some(Key::F22)
    } else if vk == 0x86 {
        Some(Key::F23)
    } else if vk == 0x87 {
        Some(Key::F24)
    } else if vk == 0x25 {
        Some(Key::Left)
    } else if vk == 0x27 {
        Some(Key::Right)
    } else if vk == 0x26 {
        Some(Key::Up)
    } else if vk == 0x28 {
        Some(Key::Down)
    } else if vk == 0x20 {
        Some(Key::Space)
    } else if vk == 0x0D {
        Some(Key::Enter)
    } else if vk == 0x09 {
        Some(Key::Tab)
    } else if vk == 0x08 {
        Some(Key::Backspace)
    } else if vk == 0x1B {
        Some(Key::Escape)
    } else if vk == 0x2E {
        Some(Key::Delete)
    } else if vk == 0x2D {
        Some(Key::Insert)
    } else if vk == 0x24 {
        Some(Key::Home)
    } else if vk == 0x23 {
        Some(Key::End)
    } else if vk == 0x21 {
        Some(Key::PageUp)
    } else if vk == 0x22 {
        Some(Key::PageDown)
    } else if vk == 0x14 {
        Some(Key::CapsLock)
    } else if vk == 0x10 {
        Some(Key::Shift)
    } else if vk == 0x11 {
        Some(Key::Ctrl)
    } else if vk == 0x12 {
        Some(Key::Alt)
    } else if vk == VK_LSHIFT || vk == VK_RSHIFT {
        Some(Key::Shift)
    } else if vk == VK_LCONTROL || vk == VK_RCONTROL {
        Some(Key::Ctrl)
    } else if vk == VK_LMENU || vk == VK_RMENU {
        Some(Key::Alt)
    } else {
        None
    }
}

/// The virtual-key code Footman sends or compares against for a `Key`.
pub fn key_to_vk(key: Key) -> (vk: u32)
    ensures
        vk == vk_of(key),
{
    match key {
        Key::A => 0x41,
        Key::B => 0x42,
        Key::C => 0x43,
        Key::D => 0x44,
        Key::E => 0x45,
        Key::F => 0x46,
        Key::G => 0x47,
        Key::H => 0x48,
        Key::I => 0x49,
        Key::J => 0x4A,
        Key::K => 0x4B,
        Key::L => 0x4C,
        Key::M => 0x4D,
        Key::N => 0x4E,
        Key::O => 0x4F,
        Key::P => 0x50,
        Key::Q => 0x51,
        Key::R => 0x52,
        Key::S => 0x53,
        Key::T => 0x54,
        Key::U => 0x55,
        Key::V => 0x56,
        Key::W => 0x57,
        Key::X => 0x58,
        Key::Y => 0x59,
        Key::Z => 0x5A,
        Key::Digit0 => 0x30,
        Key::Digit1 => 0x31,
        Key::Digit2 => 0x32,
        Key::Digit3 => 0x33,
        Key::Digit4 => 0x34,
        Key::Digit5 => 0x35,
        Key::Digit6 => 0x36,
        Key::Digit7 => 0x37,
        Key::Digit8 => 0x38,
        Key::Digit9 => 0x39,
        Key::F1 => 0x70,
        Key::F2 => 0x71,
        Key::F3 => 0x72,
        Key::F4 => 0x73,
        Key::F5 => 0x74,
        Key::F6 => 0x75,
        Key::F7 => 0x76,
        Key::F8 => 0x77,
        Key::F9 => 0x78,
        Key::F10 => 0x79,
        Key::F11 => 0x7A,
        Key::F12 => 0x7B,
        Key::F13 => 0x7C,
        Key::F14 => 0x7D,
        Key::F15 => 0x7E,
        Key::F16 => 0x7F,
        Key::F17 => 0x80,
        Key::F18 => 0x81,
        Key::F19 => 0x82,
        Key::F20 => 0x83,
        Key::F21 => 0x84,
        Key::F22 => 0x85,
        Key::F23 => 0x86,
        Key::F24 => 0x87,
        Key::Left => 0x25,
        Key::Right => 0x27,
        Key::Up => 0x26,
        Key::Down => 0x28,
        Key::Space => 0x20,
        Key::Enter => 0x0D,
        Key::Tab => 0x09,
        Key::Backspace => 0x08,
        Key::Escape => 0x1B,
        Key::Delete => 0x2E,
        Key::Insert => 0x2D,
        Key::Home => 0x24,
        Key::End => 0x23,
        Key::PageUp => 0x21,
        Key::PageDown => 0x22,
        Key::CapsLock => 0x14,
        Key::Shift => 0x10,
        Key::Ctrl => 0x11,
        Key::Alt => 0x12,
    }
}

/// The `Key` a virtual-key code stands for, if Footman can bind it.
///
/// `None` means "not ours": punctuation (layout-dependent, so deliberately
/// unbindable), the numeric keypad, Win, and everything else. The hook passes
/// those straight through.
pub fn vk_to_key(vk: u32) -> (key: Option<Key>)
    ensures
        key == key_of_vk(vk),
{
    if vk == 0x41 {
        Some(Key::A)
    } else if vk == 0x42 {
        Some(Key::B)
    } else if vk == 0x43 {
        Some(Key::C)
    } else if vk == 0x44 {
        Some(Key::D)
    } else if vk == 0x45 {
        Some(Key::E)
    } else if vk == 0x46 {
        Some(Key::F)
    } else if vk == 0x47 {
        Some(Key::G)
    } else if vk == 0x48 {
        Some(Key::H)
    } else if vk == 0x49 {
        Some(Key::I)
    } else if vk == 0x4A {
        Some(Key::J)
    } else if vk == 0x4B {
        Some(Key::K)
    } else if vk == 0x4C {
        Some(Key::L)
    } else if vk == 0x4D {
        Some(Key::M)
    } else if vk == 0x4E {
        Some(Key::N)
    } else if vk == 0x4F {
        Some(Key::O)
    } else if vk == 0x50 {
        Some(Key::P)
    } else if vk == 0x51 {
        Some(Key::Q)
    } else if vk == 0x52 {
        Some(Key::R)
    } else if vk == 0x53 {
        Some(Key::S)
    } else if vk == 0x54 {
        Some(Key::T)
    } else if vk == 0x55 {
        Some(Key::U)
    } else if vk == 0x56 {
        Some(Key::V)
    } else if vk == 0x57 {
        Some(Key::W)
    } else if vk == 0x58 {
        Some(Key::X)
    } else if vk == 0x59 {
        Some(Key::Y)
    } else if vk == 0x5A {
        Some(Key::Z)
    } else if vk == 0x30 {
        Some(Key::Digit0)
    } else if vk == 0x31 {
        Some(Key::Digit1)
    } else if vk == 0x32 {
        Some(Key::Digit2)
    } else if vk == 0x33 {
        Some(Key::Digit3)
    } else if vk == 0x34 {
        Some(Key::Digit4)
    } else if vk == 0x35 {
        Some(Key::Digit5)
    } else if vk == 0x36 {
        Some(Key::Digit6)
    } else if vk == 0x37 {
        Some(Key::Digit7)
    } else if vk == 0x38 {
        Some(Key::Digit8)
    } else if vk == 0x39 {
        Some(Key::Digit9)
    } else if vk == 0x70 {
        Some(Key::F1)
    } else if vk == 0x71 {
        Some(Key::F2)
    } else if vk == 0x72 {
        Some(Key::F3)
    } else if vk == 0x73 {
        Some(Key::F4)
    } else if vk == 0x74 {
        Some(Key::F5)
    } else if vk == 0x75 {
        Some(Key::F6)
    } else if vk == 0x76 {
        Some(Key::F7)
    } else if vk == 0x77 {
        Some(Key::F8)
    } else if vk == 0x78 {
        Some(Key::F9)
    } else if vk == 0x79 {
        Some(Key::F10)
    } else if vk == 0x7A {
        Some(Key::F11)
    } else if vk == 0x7B {
        Some(Key::F12)
    } else if vk == 0x7C {
        Some(Key::F13)
    } else if vk == 0x7D {
        Some(Key::F14)
    } else if vk == 0x7E {
        Some(Key::F15)
    } else if vk == 0x7F {
        Some(Key::F16)
    } else if vk == 0x80 {
        Some(Key::F17)
    } else if vk == 0x81 {
        Some(Key::F18)
    } else if vk == 0x82 {
        Some(Key::F19)
    } else if vk == 0x83 {
        Some(Key::F20)
    } else if vk == 0x84 {
        Some(Key::F21)
    } else if vk == 0x85 {
        Some(Key::F22)
    } else if vk == 0x86 {
        Some(Key::F23)
    } else if vk == 0x87 {
        Some(Key::F24)
    } else if vk == 0x25 {
        Some(Key::Left)
    } else if vk == 0x27 {
        Some(Key::Right)
    } else if vk == 0x26 {
        Some(Key::Up)
    } else if vk == 0x28 {
        Some(Key::Down)
    } else if vk == 0x20 {
        Some(Key::Space)
    } else if vk == 0x0D {
        Some(Key::Enter)
    } else if vk == 0x09 {
        Some(Key::Tab)
    } else if vk == 0x08 {
        Some(Key::Backspace)
    } else if vk == 0x1B {
        Some(Key::Escape)
    } else if vk == 0x2E {
        Some(Key::Delete)
    } else if vk == 0x2D {
        Some(Key::Insert)
    } else if vk == 0x24 {
        Some(Key::Home)
    } else if vk == 0x23 {
        Some(Key::End)
    } else if vk == 0x21 {
        Some(Key::PageUp)
    } else if vk == 0x22 {
        Some(Key::PageDown)
    } else if vk == 0x14 {
        Some(Key::CapsLock)
    } else if vk == 0x10 {
        Some(Key::Shift)
    } else if vk == 0x11 {
        Some(Key::Ctrl)
    } else if vk == 0x12 {
        Some(Key::Alt)
    } else if vk == VK_LSHIFT || vk == VK_RSHIFT {
        Some(Key::Shift)
    } else if vk == VK_LCONTROL || vk == VK_RCONTROL {
        Some(Key::Ctrl)
    } else if vk == VK_LMENU || vk == VK_RMENU {
        Some(Key::Alt)
    } else {
        None
    }
}

/// Every key survives a round trip through Windows.
pub proof fn lemma_vk_round_trip(key: Key)
    ensures
        key_of_vk(vk_of(key)) == Some(key),
{
}

/// A code that reads as a key is that key's own code, or the left or right
/// variant of the modifier it names.
pub proof fn lemma_vk_reads_only_its_own_key(vk: u32, key: Key)
    requires
        key_of_vk(vk) == Some(key),
    ensures
        vk == vk_of(key) || (key == Key::Shift && (vk == VK_LSHIFT || vk == VK_RSHIFT)) || (key
            == Key::Ctrl && (vk == VK_LCONTROL || vk == VK_RCONTROL)) || (key == Key::Alt && (vk
            == VK_LMENU || vk == VK_RMENU)),
{
}

/// The codes are the ones Windows documents, read in both directions: the
/// letters are their upper-case ASCII codes (`VK_A` = 0x41 to `VK_Z` = 0x5A),
/// the top-row digits theirs (0x30 to 0x39), `VK_F1` to `VK_F24` run from
/// 0x70 to 0x87, and each named key has its own `VK_` constant.
pub proof fn lemma_codes_are_the_documented_ones()
    ensures
        forall|i: int|
            0 <= i < 26 ==> key_of_vk((0x41 + i) as u32) == Some(#[trigger] key_at(i))
                && vk_of(key_at(i)) == 0x41 + i,
        forall|d: int|
            0 <= d < 10 ==> key_of_vk((0x30 + d) as u32) == Some(#[trigger] key_at(26 + d))
                && vk_of(key_at(26 + d)) == 0x30 + d,
        forall|n: int|
            0 <= n < 24 ==> key_of_vk((0x70 + n) as u32) == Some(#[trigger] key_at(36 + n))
                && vk_of(key_at(36 + n)) == 0x70 + n,
        key_of_vk(0x25) == Some(Key::Left) && vk_of(Key::Left) == 0x25,
        key_of_vk(0x26) == Some(Key::Up) && vk_of(Key::Up) == 0x26,
        key_of_vk(0x27) == Some(Key::Right) && vk_of(Key::Right) == 0x27,
        key_of_vk(0x28) == Some(Key::Down) && vk_of(Key::Down) == 0x28,
        key_of_vk(0x20) == Some(Key::Space) && vk_of(Key::Space) == 0x20,
        key_of_vk(0x0D) == Some(Key::Enter) && vk_of(Key::Enter) == 0x0D,
        key_of_vk(0x09) == Some(Key::Tab) && vk_of(Key::Tab) == 0x09,
        key_of_vk(0x08) == Some(Key::Backspace) && vk_of(Key::Backspace) == 0x08,
        key_of_vk(0x1B) == Some(Key::Escape) && vk_of(Key::Escape) == 0x1B,
        key_of_vk(0x2E) == Some(Key::Delete) && vk_of(Key::Delete) == 0x2E,
        key_of_vk(0x2D) == Some(Key::Insert) && vk_of(Key::Insert) == 0x2D,
        key_of_vk(0x24) == Some(Key::Home) && vk_of(Key::Home) == 0x24,
        key_of_vk(0x23) == Some(Key::End) && vk_of(Key::End) == 0x23,
        key_of_vk(0x21) == Some(Key::PageUp) && vk_of(Key::PageUp) == 0x21,
        key_of_vk(0x22) == Some(Key::PageDown) && vk_of(Key::PageDown) == 0x22,
        key_of_vk(0x14) == Some(Key::CapsLock) && vk_of(Key::CapsLock) == 0x14,
        key_of_vk(0x10) == Some(Key::Shift) && vk_of(Key::Shift) == 0x10,
        key_of_vk(0x11) == Some(Key::Ctrl) && vk_of(Key::Ctrl) == 0x11,
        key_of_vk(0x12) == Some(Key::Alt) && vk_of(Key::Alt) == 0x12,
{
    assert forall|i: int| 0 <= i < 26 implies key_of_vk((0x41 + i) as u32) == Some(
        #[trigger] key_at(i),
    ) && vk_of(key_at(i)) == 0x41 + i by {}
    assert forall|d: int| 0 <= d < 10 implies key_of_vk((0x30 + d) as u32) == Some(
        #[trigger] key_at(26 + d),
    ) && vk_of(key_at(26 + d)) == 0x30 + d by {}
    assert forall|n: int| 0 <= n < 24 implies key_of_vk((0x70 + n) as u32) == Some(
        #[trigger] key_at(36 + n),
    ) && vk_of(key_at(36 + n)) == 0x70 + n by {}
}

} // verus!
