use vstd::prelude::*;
use crate::content::Lines;
use crate::dimensions::Dimensions;
use crate::error::ConsoleError;

verus! {

/// How a draw call may treat its frame.
#[derive(Clone, Copy, Debug, PartialEq, Eq, Structural)]
pub enum DrawMode {
    /// An intermediate tick: the component may render partial state and will
    /// be asked again.
    Normal,
    /// The last draw before teardown: the component must flush any state it
    /// has been holding back.
    Final,
}

/// Anything that, given an available size and a draw mode, produces the
/// display lines of one frame.
///
/// An implementation describes itself with two spec functions: on which
/// inputs a draw succeeds, and what frame it then yields. A draw is a pure
/// function of the component, the size and the mode.
pub trait Component {
    /// Whether a draw at this size and mode succeeds.
    open spec fn draw_ok(&self, dimensions: Dimensions, mode: DrawMode) -> bool {
        true
    }

    /// The frame a successful draw yields.
    open spec fn drawn(&self, dimensions: Dimensions, mode: DrawMode) -> Seq<Seq<Seq<char>>> {
        Seq::empty()
    }

    /// Produce one frame for one tick.
    fn draw(&self, dimensions: Dimensions, mode: DrawMode) -> (r: Result<Lines, ConsoleError>)
        ensures
            r is Ok ==> self.draw_ok(dimensions, mode) && r->Ok_0@ == self.drawn(
                dimensions,
                mode,
            ),
            r is Err ==> !self.draw_ok(dimensions, mode),
    ;
}

/// A component that always draws a fixed set of lines, whatever the size or
/// mode.
pub struct Echo(pub Lines);

impl Component for Echo {
    open spec fn draw_ok(&self, dimensions: Dimensions, mode: DrawMode) -> bool {
        true
    }

    open spec fn drawn(&self, dimensions: Dimensions, mode: DrawMode) -> Seq<Seq<Seq<char>>> {
        self.0@
    }

    fn draw(&self, dimensions: Dimensions, mode: DrawMode) -> (r: Result<Lines, ConsoleError>) {
        Ok(self.0.duplicate())
    }
}

} // verus!
