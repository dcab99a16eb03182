//! Which window an App Action raises, and when it launches instead.

use footman::{choose_window, AppTarget, Window};

fn here(id: u64) -> Window {
    Window {
        id,
        on_current_desktop: true,
    }
}

fn elsewhere(id: u64) -> Window {
    Window {
        id,
        on_current_desktop: false,
    }
}

#[test]
fn an_application_that_is_not_running_is_launched() {
    assert_eq!(choose_window(&[], None), AppTarget::Launch);
}

#[test]
fn a_single_window_is_raised() {
    assert_eq!(choose_window(&[here(10)], None), AppTarget::Raise(10));
}

#[test]
fn the_topmost_window_is_raised() {
    assert_eq!(
        choose_window(&[here(10), here(20), here(30)], None),
        AppTarget::Raise(10)
    );
}

#[test]
fn a_window_on_this_desktop_wins_over_a_higher_one_elsewhere() {
    assert_eq!(
        choose_window(&[elsewhere(10), here(20)], None),
        AppTarget::Raise(20)
    );
}

#[test]
fn an_application_only_on_another_desktop_is_raised_there() {
    assert_eq!(
        choose_window(&[elsewhere(10), elsewhere(20)], None),
        AppTarget::Raise(10)
    );
}

#[test]
fn a_window_that_is_not_frontmost_is_raised_rather_than_cycled() {
    assert_eq!(
        choose_window(&[here(10), here(20)], Some(999)),
        AppTarget::Raise(10)
    );
}

#[test]
fn repeating_the_chord_on_a_lone_window_does_nothing() {
    assert_eq!(
        choose_window(&[here(10), elsewhere(20)], Some(10)),
        AppTarget::Nothing
    );
}

#[test]
fn the_cycle_is_confined_to_the_current_desktop() {
    assert_eq!(
        choose_window(&[here(10), elsewhere(20), elsewhere(30)], Some(10)),
        AppTarget::Nothing
    );
}

#[test]
fn cycling_visits_every_window_before_repeating() {
    let mut zorder = vec![here(30), here(10), here(20)];
    let mut foreground = 30;
    let mut visited = vec![foreground];

    for _ in 0..3 {
        let AppTarget::Raise(next) = choose_window(&zorder, Some(foreground)) else {
            panic!("the cycle must keep moving while several windows are here");
        };
        zorder.retain(|window| window.id != next);
        zorder.insert(0, here(next));
        foreground = next;
        visited.push(next);
    }

    assert_eq!(
        visited,
        vec![30, 10, 20, 30],
        "the cycle must wrap, not bounce"
    );
}

/// The cycle goes by id rather than by Z-order, so the next window is the one
/// with the next id up, whatever the stacking.
#[test]
fn the_cycle_moves_to_the_next_id_up_and_wraps() {
    assert_eq!(
        choose_window(&[here(20), here(5), here(40)], Some(20)),
        AppTarget::Raise(40)
    );
    assert_eq!(
        choose_window(&[here(40), here(5), here(20)], Some(40)),
        AppTarget::Raise(5)
    );
}
