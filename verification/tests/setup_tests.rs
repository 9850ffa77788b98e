use termspy::setup::{check_startup, StartupError, TermSize, QUEUE_CAPACITY};

#[test]
fn startup_refused_without_a_terminal() {
    // stdin redirected from a plain file: refused before any pty work.
    assert_eq!(check_startup(false), Err(StartupError::NotATty));
}

#[test]
fn startup_accepted_under_a_terminal() {
    assert_eq!(check_startup(true), Ok(()));
}

#[test]
fn term_size_keeps_both_dimensions() {
    let size = TermSize::from_cols_rows(80, 24);
    assert_eq!(size.cols, 80);
    assert_eq!(size.rows, 24);
}

#[test]
fn queue_capacity_is_large() {
    assert_eq!(QUEUE_CAPACITY, 4096);
}
