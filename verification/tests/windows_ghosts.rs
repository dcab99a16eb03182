//! Which windows Footman is willing to see.

use footman::windows::hidden_by_cloaking;

#[test]
fn a_window_that_is_not_cloaked_is_real() {
    assert!(!hidden_by_cloaking(0, true));
}

#[test]
fn a_cloaked_window_on_this_desktop_is_a_ghost() {
    assert!(hidden_by_cloaking(2, true));
}

#[test]
fn a_cloaked_window_on_another_desktop_is_real() {
    assert!(!hidden_by_cloaking(2, false));
}

#[test]
fn application_cloaking_hides_a_window_wherever_it_is() {
    assert!(hidden_by_cloaking(1, true));
    assert!(hidden_by_cloaking(1, false));
    assert!(hidden_by_cloaking(3, false));
}
