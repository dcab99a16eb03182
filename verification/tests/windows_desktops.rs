//! Reading virtual desktop state, and working out how to get to one.

use footman::windows::desktops::{VK_CONTROL, VK_LEFT, VK_LWIN, VK_RIGHT};
use footman::windows::{
    desktops_from, journey, key_event_of, position_from, steps_to, walk, Desktops, Move, Stroke,
    FOOTMAN_SIGNATURE,
};

/// `VirtualDesktopIDs` is an ordered array of 16-byte GUIDs, back to back, and
/// `CurrentVirtualDesktop` is one of them.
fn guid(tag: u8) -> [u8; 16] {
    [tag; 16]
}

fn ids(tags: &[u8]) -> Vec<u8> {
    tags.iter().flat_map(|&tag| guid(tag)).collect()
}

#[test]
fn the_first_desktop_is_index_one() {
    assert_eq!(
        desktops_from(&ids(&[1, 2, 3]), &guid(1)),
        Some(Desktops {
            current: 1,
            count: 3
        })
    );
}

#[test]
fn position_in_the_array_is_the_desktop_index() {
    assert_eq!(
        desktops_from(&ids(&[1, 2, 3]), &guid(3)),
        Some(Desktops {
            current: 3,
            count: 3
        })
    );
}

#[test]
fn a_single_desktop_is_read_as_one_desktop() {
    assert_eq!(
        desktops_from(&ids(&[7]), &guid(7)),
        Some(Desktops {
            current: 1,
            count: 1
        })
    );
}

#[test]
fn a_reading_that_does_not_make_sense_is_refused() {
    // A list that is not a whole number of GUIDs.
    assert_eq!(desktops_from(&[0u8; 20], &guid(1)), None);
    // No desktops at all.
    assert_eq!(desktops_from(&[], &guid(1)), None);
    // A current desktop that is not one of the listed ones.
    assert_eq!(desktops_from(&ids(&[1, 2]), &guid(9)), None);
    // A current value that is not a GUID.
    assert_eq!(desktops_from(&ids(&[1, 2]), &[1u8; 8]), None);
}

/// Two desktops with the same GUID read as the first of them.
#[test]
fn the_first_match_is_the_current_desktop() {
    assert_eq!(
        desktops_from(&ids(&[4, 5, 5]), &guid(5)),
        Some(Desktops {
            current: 2,
            count: 3
        })
    );
}

fn at(current: usize, count: usize) -> Desktops {
    Desktops { current, count }
}

#[test]
fn moving_right_takes_one_press_per_desktop() {
    assert_eq!(steps_to(at(1, 4), 3), Some(Move::Right(2)));
}

#[test]
fn moving_left_takes_one_press_per_desktop() {
    assert_eq!(steps_to(at(4, 4), 1), Some(Move::Left(3)));
}

#[test]
fn asking_for_the_current_desktop_sends_nothing() {
    assert_eq!(steps_to(at(2, 4), 2), Some(Move::Stay));
    assert!(walk(Move::Stay).is_empty());
}

#[test]
fn a_desktop_that_does_not_exist_is_refused() {
    assert_eq!(steps_to(at(2, 3), 4), None);
    assert_eq!(steps_to(at(2, 3), 0), None);
}

#[test]
fn suppressing_the_animation_does_not_change_how_far_we_go() {
    assert_eq!(steps_to(at(1, 4), 4), Some(Move::Right(3)));
    assert_eq!(steps_to(at(3, 4), 1), Some(Move::Left(2)));
}

/// A config naming a desktop the user does not have is told so, with both
/// numbers.
#[test]
fn a_missing_desktop_is_explained() {
    assert_eq!(
        journey(at(2, 3), 12),
        Err("there is no desktop 12; you have 3".to_string())
    );
    assert_eq!(journey(at(2, 3), 3), Ok(Move::Right(1)));
}

fn down(vk: u16) -> Stroke {
    Stroke {
        vk,
        up: false,
        signature: FOOTMAN_SIGNATURE,
    }
}

fn up(vk: u16) -> Stroke {
    Stroke {
        vk,
        up: true,
        signature: FOOTMAN_SIGNATURE,
    }
}

/// Ctrl and Win are held across the whole walk, each arrow tapped inside it.
#[test]
fn a_walk_holds_ctrl_and_win_around_the_arrows() {
    assert_eq!(
        walk(Move::Right(2)),
        vec![
            down(VK_CONTROL),
            down(VK_LWIN),
            down(VK_RIGHT),
            up(VK_RIGHT),
            down(VK_RIGHT),
            up(VK_RIGHT),
            up(VK_LWIN),
            up(VK_CONTROL),
        ]
    );
    assert_eq!(walk(Move::Left(1))[2], down(VK_LEFT));
}

/// Every key a walk presses it also releases.
#[test]
fn a_walk_leaves_nothing_held() {
    let strokes = walk(Move::Left(5));
    for vk in [VK_CONTROL, VK_LWIN, VK_LEFT] {
        let pressed = strokes.iter().filter(|s| s.vk == vk && !s.up).count();
        let released = strokes.iter().filter(|s| s.vk == vk && s.up).count();
        assert_eq!(pressed, released);
    }
}

/// Footman's own arrows are never read back by the hook as keys for the Core.
#[test]
fn a_walk_is_never_read_back() {
    for stroke in walk(Move::Right(3)) {
        assert_eq!(key_event_of(stroke.signature, stroke.vk as u32, 0x0100), None);
    }
}

/// A value Windows did not report is named, rather than guessed at.
#[test]
fn a_missing_registry_value_is_named() {
    assert_eq!(
        position_from(None, Some(guid(1).to_vec())),
        Err("Windows did not report its list of virtual desktops".to_string())
    );
    assert_eq!(
        position_from(Some(ids(&[1, 2])), None),
        Err("Windows did not report which virtual desktop is current".to_string())
    );
    assert_eq!(
        position_from(Some(ids(&[1, 2])), Some(guid(9).to_vec())),
        Err("could not make sense of the virtual desktop registry values".to_string())
    );
    assert_eq!(
        position_from(Some(ids(&[1, 2])), Some(guid(2).to_vec())),
        Ok(Desktops {
            current: 2,
            count: 2
        })
    );
}
