use vstd::prelude::*;
use crate::components::Component;
use crate::components::DrawMode;
use crate::content::Lines;
use crate::dimensions::Dimensions;
use crate::error::ConsoleError;
use crate::term::clear_down_bytes;
use crate::term::move_up_bytes;
use crate::term::queue_clear_from_cursor_down;
use crate::term::queue_move_up;

verus! {

/// The cursor-up sequence that returns to the top of a canvas region that
/// occupied `rows` rows, capped at the largest count the control sequence
/// can carry.
pub open spec fn row_return_bytes(rows: nat) -> Seq<u8> {
    move_up_bytes(if rows > 65535 { 65535 as nat } else { rows })
}

/// The byte image of clearing the canvas region in place: return to its top,
/// then clear to the end of the screen.
pub open spec fn clear_region_bytes(rows: nat) -> Seq<u8> {
    row_return_bytes(rows) + clear_down_bytes()
}

/// The stateful frame bookkeeping around the root component: it remembers
/// how many rows the last written frame occupied, so the next pass can move
/// the cursor back to the top of that region before repainting it.
pub struct Canvas {
    len: usize,
}

impl Canvas {
    /// The row count of the last frame written to the terminal.
    pub closed spec fn prev_rows(&self) -> nat {
        self.len as nat
    }

    pub fn new() -> (c: Canvas)
        ensures
            c.prev_rows() == 0,
    {
        Canvas { len: 0 }
    }

    /// Delegate one frame draw to the root component.
    pub fn draw<C: Component>(
        &self,
        root: &C,
        dimensions: Dimensions,
        mode: DrawMode,
    ) -> (r: Result<Lines, ConsoleError>)
        ensures
            r is Ok ==> root.draw_ok(dimensions, mode) && r->Ok_0@ == root.drawn(
                dimensions,
                mode,
            ),
            r is Err ==> !root.draw_ok(dimensions, mode),
    {
        root.draw(dimensions, mode)
    }

    /// Append the control sequence that moves the cursor back to the top of
    /// the previous frame's region.
    pub fn move_up(&self, buffer: &mut Vec<u8>)
        ensures
            final(buffer)@ == old(buffer)@ + row_return_bytes(self.prev_rows()),
    {
        let n: u16 = if self.len > 65535 {
            65535
        } else {
            self.len as u16
        };
        queue_move_up(buffer, n);
    }

    /// Append the control sequences that erase the canvas region in place:
    /// return to its top, then clear to the end of the screen. The row
    /// count is left to the caller, who resets it once the erasure has
    /// actually been written.
    pub fn clear(&self, buffer: &mut Vec<u8>)
        ensures
            final(buffer)@ == old(buffer)@ + clear_region_bytes(self.prev_rows()),
    {
        self.move_up(buffer);
        queue_clear_from_cursor_down(buffer);
    }

    /// Remember the row count of the frame that was just written.
    pub(crate) fn record_rows(&mut self, rows: usize)
        ensures
            final(self).prev_rows() == rows,
    {
        self.len = rows;
    }
}

} // verus!
