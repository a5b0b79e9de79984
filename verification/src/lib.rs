//! An incremental, flicker-free terminal renderer.
//!
//! A status area (the canvas) at the bottom of the terminal is redrawn in
//! place on every tick, while an append-only log of emitted message lines
//! scrolls above it. The renderer resolves the terminal size, drains a
//! bounded slice of the outstanding log on each pass, and hands the whole
//! tick to the output backend as a single write.

pub mod canvas;
pub mod components;
pub mod content;
pub mod dimensions;
pub mod error;
pub mod output;
pub mod superconsole;
pub mod term;

pub use canvas::Canvas;
pub use components::Component;
pub use components::DrawMode;
pub use components::Echo;
pub use content::Line;
pub use content::Lines;
pub use content::Span;
pub use dimensions::Dimensions;
pub use dimensions::Direction;
pub use error::ConsoleError;
pub use output::SuperConsoleOutput;
pub use output::TestOutput;
pub use superconsole::SuperConsole;
pub use superconsole::MINIMUM_EMIT;
pub use superconsole::MAX_GRAPHEME_BUFFER;
