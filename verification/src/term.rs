use vstd::prelude::*;

verus! {

/// The decimal digit bytes of `n`, most significant first, as Rust's
/// `Display` implementation for unsigned integers writes them.
pub open spec fn dec_digits(n: nat) -> Seq<u8>
    decreases n,
{
    if n < 10 {
        seq![(48 + n) as u8]
    } else {
        dec_digits(n / 10) + seq![(48 + (n % 10)) as u8]
    }
}

/// The ANSI control sequence that moves the cursor up `n` rows:
/// `ESC [ n A`, with the row count in decimal.
pub open spec fn move_up_bytes(n: nat) -> Seq<u8> {
    seq![27u8, 91u8] + dec_digits(n) + seq![65u8]
}

/// The ANSI control sequence that clears from the cursor to the end of the
/// screen: `ESC [ J`.
pub open spec fn clear_down_bytes() -> Seq<u8> {
    seq![27u8, 91u8, 74u8]
}

/// Relies on crossterm's `QueueableCommand::queue` with `cursor::MoveUp(n)`:
/// on a byte buffer it appends exactly the ANSI sequence `"\x1b[{n}A"`
/// (`n` in decimal), and writing into a `Vec<u8>` cannot fail. (crossterm's
/// Windows-console fallback, which would bypass the buffer on consoles
/// without ANSI support, is not compiled on this target.)
#[verifier::external_body]
pub(crate) fn queue_move_up(buffer: &mut Vec<u8>, n: u16)
    ensures
        final(buffer)@ == old(buffer)@ + move_up_bytes(n as nat),
{
    let _ = crossterm::QueueableCommand::queue(buffer, crossterm::cursor::MoveUp(n));
}

/// Relies on crossterm's `QueueableCommand::queue` with
/// `terminal::Clear(ClearType::FromCursorDown)`: on a byte buffer it appends
/// exactly the ANSI sequence `"\x1b[J"`, and writing into a `Vec<u8>` cannot
/// fail. (crossterm's Windows-console fallback, which would bypass the
/// buffer on consoles without ANSI support, is not compiled on this target.)
#[verifier::external_body]
pub(crate) fn queue_clear_from_cursor_down(buffer: &mut Vec<u8>)
    ensures
        final(buffer)@ == old(buffer)@ + clear_down_bytes(),
{
    let _ = crossterm::QueueableCommand::queue(
        buffer,
        crossterm::terminal::Clear(crossterm::terminal::ClearType::FromCursorDown),
    );
}

} // verus!
