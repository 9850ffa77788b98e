use vstd::prelude::*;

verus! {

/// Capacity of each capture queue: large enough that interactive typing
/// and shell output never sustain backpressure, while still bounding
/// memory if a producer outruns the relay loop.
pub const QUEUE_CAPACITY: usize = 4096;

/// Why startup was refused.
#[derive(Debug, PartialEq, Eq, Structural)]
pub enum StartupError {
    /// Standard input is not an interactive terminal.
    NotATty,
}

/// The startup gate: the relay runs only under an interactive terminal.
/// With stdin anything else it refuses immediately, before a pty is
/// allocated or a child is spawned.
pub fn check_startup(stdin_is_tty: bool) -> (r: Result<(), StartupError>)
    ensures
        r is Ok <==> stdin_is_tty,
        !stdin_is_tty ==> r == Err::<(), StartupError>(StartupError::NotATty),
{
    if stdin_is_tty {
        Ok(())
    } else {
        Err(StartupError::NotATty)
    }
}

/// Terminal dimensions, read once from the real terminal at startup and
/// used to size the pty; they are never re-propagated on resize.
#[derive(Debug, PartialEq, Eq, Structural, Clone, Copy)]
pub struct TermSize {
    pub rows: u16,
    pub cols: u16,
}

impl TermSize {
    /// Builds the pty dimensions from a terminal-size reading, which
    /// arrives as a (columns, rows) pair.
    pub fn from_cols_rows(cols: u16, rows: u16) -> (s: TermSize)
        ensures
            s.cols == cols,
            s.rows == rows,
    {
        TermSize { rows, cols }
    }
}

} // verus!
