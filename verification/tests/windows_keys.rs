//! Translation between Windows virtual-key codes and Footman's `Key`.

use footman::windows::{key_to_vk, vk_to_key};
use footman::Key;

#[test]
fn every_key_survives_a_round_trip_through_windows() {
    for key in Key::all() {
        assert_eq!(
            vk_to_key(key_to_vk(key)),
            Some(key),
            "{} did not survive the round trip",
            key.to_string()
        );
    }
}

#[test]
fn left_and_right_modifiers_collapse_to_one_key() {
    const VK_LSHIFT: u32 = 0xA0;
    const VK_RSHIFT: u32 = 0xA1;
    const VK_LCONTROL: u32 = 0xA2;
    const VK_RCONTROL: u32 = 0xA3;
    const VK_LMENU: u32 = 0xA4;
    const VK_RMENU: u32 = 0xA5;

    assert_eq!(vk_to_key(VK_LSHIFT), Some(Key::Shift));
    assert_eq!(vk_to_key(VK_RSHIFT), Some(Key::Shift));
    assert_eq!(vk_to_key(VK_LCONTROL), Some(Key::Ctrl));
    assert_eq!(vk_to_key(VK_RCONTROL), Some(Key::Ctrl));
    assert_eq!(vk_to_key(VK_LMENU), Some(Key::Alt));
    assert_eq!(vk_to_key(VK_RMENU), Some(Key::Alt));
}

#[test]
fn keys_footman_cannot_bind_are_unmapped() {
    const VK_OEM_1: u32 = 0xBA;
    const VK_NUMPAD0: u32 = 0x60;
    const VK_LWIN: u32 = 0x5B;

    for vk in [VK_OEM_1, VK_NUMPAD0, VK_LWIN, 0x00, 0xFF] {
        assert_eq!(vk_to_key(vk), None, "VK {vk:#04x} must be unmapped");
    }
}

#[test]
fn the_codes_are_windows_own() {
    assert_eq!(key_to_vk(Key::A), 0x41);
    assert_eq!(key_to_vk(Key::Digit0), 0x30);
    assert_eq!(key_to_vk(Key::F24), 0x87);
    assert_eq!(key_to_vk(Key::CapsLock), 0x14);
    assert_eq!(key_to_vk(Key::Escape), 0x1B);
}
