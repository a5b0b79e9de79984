use vstd::prelude::*;
use crate::dimensions::Dimensions;
use crate::error::ConsoleError;

verus! {

/// The output backend: where rendered bytes go, and what the renderer may
/// ask about the terminal on the other side.
///
/// A backend is modelled by three observations: its back-pressure signal,
/// the size it reports (`None` when the query fails), and the sequence of
/// buffers written so far. Writing a buffer appends to that sequence and
/// leaves the other two observations unchanged.
pub trait SuperConsoleOutput: Sized {
    /// The back-pressure signal: whether the renderer may draw right now.
    open spec fn should_render_spec(&self) -> bool {
        true
    }

    /// The size this backend reports, or `None` when the query fails.
    open spec fn reported_size(&self) -> Option<Dimensions> {
        None
    }

    /// Every buffer written so far, oldest first.
    open spec fn outputs(&self) -> Seq<Seq<u8>> {
        Seq::empty()
    }

    /// Whether a write is guaranteed to succeed right now.
    open spec fn write_ok(&self) -> bool {
        true
    }

    /// Whether the renderer should do any drawing work this tick.
    fn should_render(&self) -> (r: bool)
        ensures
            r == self.should_render_spec(),
    ;

    /// Query the current terminal size. May fail, and may legitimately
    /// report a zero axis; the caller's fallback logic handles both.
    fn terminal_size(&self) -> (r: Result<Dimensions, ConsoleError>)
        ensures
            self.reported_size() is Some ==> r is Ok && r->Ok_0 == self.reported_size()->0,
            self.reported_size() is None ==> r is Err,
    ;

    /// Write one raw byte buffer to the terminal device, preserving the
    /// order of earlier writes.
    fn output(&mut self, buffer: Vec<u8>) -> (r: Result<(), ConsoleError>)
        ensures
            old(self).write_ok() ==> r is Ok,
            r is Ok ==> final(self).outputs() == old(self).outputs().push(buffer@),
            r is Err ==> final(self).outputs() == old(self).outputs(),
            final(self).should_render_spec() == old(self).should_render_spec(),
            final(self).reported_size() == old(self).reported_size(),
            final(self).write_ok() == old(self).write_ok(),
    ;

    /// Tear the backend down; called exactly once, after the last write.
    fn finalize(self) -> (r: Result<(), ConsoleError>);
}

/// A backend double for driving the renderer without a terminal: it records
/// every written buffer and lets the caller script the back-pressure signal
/// and the reported size.
#[derive(Debug)]
pub struct TestOutput {
    pub should_render: bool,
    pub terminal_size: Dimensions,
    pub size_query_fails: bool,
    pub write_fails: bool,
    pub frames: Vec<Vec<u8>>,
}

impl TestOutput {
    pub fn new(terminal_size: Dimensions) -> (t: TestOutput)
        ensures
            t.should_render == true,
            t.terminal_size == terminal_size,
            t.size_query_fails == false,
            t.write_fails == false,
            t.frames@.len() == 0,
    {
        TestOutput {
            should_render: true,
            terminal_size,
            size_query_fails: false,
            write_fails: false,
            frames: Vec::new(),
        }
    }
}

impl SuperConsoleOutput for TestOutput {
    open spec fn should_render_spec(&self) -> bool {
        self.should_render
    }

    open spec fn reported_size(&self) -> Option<Dimensions> {
        if self.size_query_fails {
            None
        } else {
            Some(self.terminal_size)
        }
    }

    open spec fn outputs(&self) -> Seq<Seq<u8>> {
        self.frames.deep_view()
    }

    open spec fn write_ok(&self) -> bool {
        !self.write_fails
    }

    fn should_render(&self) -> (r: bool) {
        self.should_render
    }

    fn terminal_size(&self) -> (r: Result<Dimensions, ConsoleError>) {
        if self.size_query_fails {
            Err(ConsoleError::TerminalSize)
        } else {
            Ok(self.terminal_size)
        }
    }

    fn output(&mut self, buffer: Vec<u8>) -> (r: Result<(), ConsoleError>) {
        if self.write_fails {
            return Err(ConsoleError::Output);
        }
        let ghost pre = self.frames.deep_view();
        let ghost b = buffer@;
        let ghost bd = buffer.deep_view();
        proof {
            assert(bd =~= b);
        }
        self.frames.push(buffer);
        proof {
            assert forall|x: int| 0 <= x < self.frames.deep_view().len() implies self
                .frames
                .deep_view()[x] == #[trigger] pre.push(b)[x] by {
                if x < pre.len() {
                    assert(self.frames@[x] == old(self).frames@[x]);
                    assert(pre[x] == old(self).frames@[x].deep_view());
                } else {
                    assert(self.frames@[x].deep_view() == bd);
                }
            }
            assert(self.frames.deep_view() =~= pre.push(b));
        }
        Ok(())
    }

    fn finalize(self) -> (r: Result<(), ConsoleError>) {
        Ok(())
    }
}

} // verus!
