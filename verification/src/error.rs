use vstd::prelude::*;

verus! {

/// The failures the renderer can surface to its caller.
#[derive(Clone, Copy, Debug, PartialEq, Eq, Structural)]
pub enum ConsoleError {
    /// The backend failed to write a buffer to the terminal device.
    Output,
    /// The backend could not report a terminal size and no fallback was
    /// configured to absorb the failure.
    TerminalSize,
    /// The root component failed to produce a frame.
    Draw,
}

} // verus!
