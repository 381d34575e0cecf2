//! The marks of the progress bar, and the version text.

use ch559::progress_bar::{ProgressBar, BAR_WIDTH};
use ch559::version::version_string;

#[test]
fn bar_is_fifty_marks_wide() {
    assert_eq!(BAR_WIDTH, 50);
}

#[test]
fn marks_add_up_to_the_width() {
    let mut bar = ProgressBar::new(0x400);
    assert_eq!(bar.size(), 0x400);
    let mut marks = 0;
    let mut offset = 0;
    while offset < 0x400 {
        marks += bar.progress(offset);
        offset = (offset + 0x38).min(0x400);
        marks += bar.progress(offset);
    }
    assert_eq!(marks, 50);
}

#[test]
fn marks_are_the_difference_of_the_scaled_progress() {
    let mut bar = ProgressBar::new(1000);
    assert_eq!(bar.progress(0), 0);
    assert_eq!(bar.progress(19), 0);
    assert_eq!(bar.progress(20), 1);
    assert_eq!(bar.progress(39), 0);
    assert_eq!(bar.progress(500), 24);
    assert_eq!(bar.progress(500), 0);
    assert_eq!(bar.progress(1000), 25);
}

#[test]
fn bar_never_shrinks() {
    let mut bar = ProgressBar::new(100);
    assert_eq!(bar.progress(80), 40);
    assert_eq!(bar.progress(20), 0);
    assert_eq!(bar.progress(80), 30);
}

#[test]
fn version_is_major_dot_minor_patch() {
    assert_eq!(version_string(2, 4, 0), "2.40");
    assert_eq!(version_string(0, 0, 0), "0.00");
    assert_eq!(version_string(1, 2, 3), "1.23");
    assert_eq!(version_string(10, 20, 30), "10.2030");
    assert_eq!(version_string(255, 100, 9), "255.1009");
    assert_eq!(version_string(99, 101, 110), "99.101110");
}
