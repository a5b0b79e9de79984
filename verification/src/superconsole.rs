use vstd::prelude::*;
use crate::canvas::Canvas;
use crate::canvas::clear_region_bytes;
use crate::canvas::row_return_bytes;
use crate::components::Component;
use crate::components::DrawMode;
use crate::content::Lines;
use crate::content::drained_count;
use crate::content::lines_bytes;
use crate::content::total_len;
use crate::dimensions::Dimensions;
use crate::dimensions::Direction;
use crate::error::ConsoleError;
use crate::output::SuperConsoleOutput;
use crate::term::clear_down_bytes;
use crate::term::queue_clear_from_cursor_down;

verus! {

/// Floor on how many log lines a pass drains, so that a tiny terminal
/// cannot starve the log of forward progress.
pub const MINIMUM_EMIT: usize = 5;

/// Total display length above which the outstanding log is drained in full
/// on the next pass, whatever the terminal size: an unbounded backlog must
/// never grow past this bound.
pub const MAX_GRAPHEME_BUFFER: usize = 1000000;

/// The size-resolution policy: a reported size with both axes non-zero wins;
/// a zero axis or a failed query falls back to the configured fallback;
/// with no fallback, a failed query stays a failure.
pub open spec fn resolved_size(
    reported: Option<Dimensions>,
    fallback: Option<Dimensions>,
) -> Option<Dimensions> {
    match reported {
        Some(d) => if (d.width == 0 || d.height == 0) && fallback is Some {
            fallback
        } else {
            Some(d)
        },
        None => fallback,
    }
}

/// One row at the bottom is reserved as a permanently blank trailing line.
pub open spec fn reserve_row(d: Dimensions) -> Dimensions {
    Dimensions {
        width: d.width,
        height: if d.height >= 1 {
            (d.height - 1) as usize
        } else {
            0
        },
    }
}

/// The size a render pass draws against, or `None` when no size can be
/// resolved.
pub open spec fn pass_size(
    reported: Option<Dimensions>,
    fallback: Option<Dimensions>,
) -> Option<Dimensions> {
    match resolved_size(reported, fallback) {
        Some(d) => Some(reserve_row(d)),
        None => None,
    }
}

/// The row budget of a bounded drain: the rows left under the frame, but
/// never fewer than `MINIMUM_EMIT`.
pub open spec fn pass_limit_rows(height: usize, frame_rows: nat) -> usize {
    let avail = if height as nat >= frame_rows {
        (height as nat - frame_rows) as nat
    } else {
        0 as nat
    };
    if avail > MINIMUM_EMIT {
        avail as usize
    } else {
        MINIMUM_EMIT
    }
}

/// The drain limit of one pass: unlimited in a final draw, and unlimited
/// under flood (the queue's total display length passed
/// `MAX_GRAPHEME_BUFFER`); otherwise the bounded row budget.
pub open spec fn pass_limit(
    mode: DrawMode,
    queue: Seq<Seq<Seq<char>>>,
    height: usize,
    frame_rows: nat,
) -> Option<usize> {
    if mode == DrawMode::Normal && total_len(queue) <= MAX_GRAPHEME_BUFFER {
        Some(pass_limit_rows(height, frame_rows))
    } else {
        None
    }
}

/// How many lines one pass drains from the queue.
pub open spec fn pass_drain(
    queue: Seq<Seq<Seq<char>>>,
    mode: DrawMode,
    height: usize,
    frame_rows: nat,
) -> nat {
    drained_count(queue.len(), pass_limit(mode, queue, height, frame_rows))
}

/// The byte image of one render pass: cursor back to the top of the previous
/// frame's region, the drained log rows, the fresh frame's rows, then clear
/// from the cursor to the end of the screen.
pub open spec fn pass_bytes(
    prev_rows: nat,
    drained: Seq<Seq<Seq<char>>>,
    frame: Seq<Seq<Seq<char>>>,
) -> Seq<u8> {
    row_return_bytes(prev_rows) + lines_bytes(drained) + lines_bytes(frame) + clear_down_bytes()
}

/// The buffers a full flush writes, one per pass: each pass drains a prefix
/// of what is left and repaints the frame, and passes repeat until the queue
/// is empty. Even an initially empty queue gets one pass.
pub open spec fn flush_outputs(
    queue: Seq<Seq<Seq<char>>>,
    prev_rows: nat,
    frame: Seq<Seq<Seq<char>>>,
    height: usize,
) -> Seq<Seq<u8>>
    decreases queue.len(),
{
    let k = pass_drain(queue, DrawMode::Normal, height, frame.len());
    seq![pass_bytes(prev_rows, queue.take(k as int), frame)] + if queue.skip(k as int).len()
        == 0 {
        Seq::empty()
    } else {
        flush_outputs(queue.skip(k as int), frame.len(), frame, height)
    }
}

/// Drains under the flood threshold never fall below `MINIMUM_EMIT` while
/// the queue allows it, and take exactly the row budget
/// `max(MINIMUM_EMIT, height - frame_rows)` while the queue is at least
/// that long.
pub proof fn lemma_pass_drains_minimum(queue: Seq<Seq<Seq<char>>>, height: usize, frame_rows: nat)
    requires
        total_len(queue) <= MAX_GRAPHEME_BUFFER,
        queue.len() >= MINIMUM_EMIT,
    ensures
        pass_drain(queue, DrawMode::Normal, height, frame_rows) >= MINIMUM_EMIT,
        queue.len() >= pass_limit_rows(height, frame_rows) ==> pass_drain(
            queue,
            DrawMode::Normal,
            height,
            frame_rows,
        ) == pass_limit_rows(height, frame_rows),
{
}

/// Flood protection: once the queue's total display length passes the
/// threshold, a single pass drains the entire queue, whatever the terminal
/// size and whatever the mode.
pub proof fn lemma_flood_drains_all(
    queue: Seq<Seq<Seq<char>>>,
    mode: DrawMode,
    height: usize,
    frame_rows: nat,
)
    requires
        total_len(queue) > MAX_GRAPHEME_BUFFER,
    ensures
        pass_drain(queue, mode, height, frame_rows) == queue.len(),
{
}

/// The render orchestrator: owns the canvas bookkeeping, the outstanding
/// log queue, an optional fallback size, and the output backend.
pub struct SuperConsole<O: SuperConsoleOutput> {
    pub root: Canvas,
    pub to_emit: Lines,
    pub fallback_size: Option<Dimensions>,
    pub output: O,
}

impl<O: SuperConsoleOutput> SuperConsole<O> {
    /// The pass size this renderer resolves right now, if any.
    pub open spec fn pass_size_spec(&self) -> Option<Dimensions> {
        pass_size(self.output.reported_size(), self.fallback_size)
    }

    /// Build a renderer around a backend, with an empty queue and an empty
    /// canvas region.
    pub fn new_internal(fallback_size: Option<Dimensions>, output: O) -> (sc: SuperConsole<O>)
        ensures
            sc.to_emit@.len() == 0,
            sc.root.prev_rows() == 0,
            sc.fallback_size == fallback_size,
            sc.output == output,
    {
        SuperConsole { root: Canvas::new(), to_emit: Lines::new(), fallback_size, output }
    }

    /// Resolve the terminal size by the policy of [`resolved_size`]: the
    /// backend's answer if both axes are non-zero, else the fallback, and a
    /// failure only when the query fails and no fallback exists.
    pub fn size(&self) -> (r: Result<Dimensions, ConsoleError>)
        ensures
            resolved_size(self.output.reported_size(), self.fallback_size) is Some ==> r is Ok
                && r->Ok_0 == resolved_size(self.output.reported_size(), self.fallback_size)->0,
            resolved_size(self.output.reported_size(), self.fallback_size) is None ==> r is Err,
    {
        match (self.output.terminal_size(), self.fallback_size) {
            (Ok(size), Some(fallback)) => if size.width == 0 || size.height == 0 {
                Ok(fallback)
            } else {
                Ok(size)
            },
            (Ok(size), None) => Ok(size),
            (Err(_), Some(fallback)) => Ok(fallback),
            (Err(e), None) => Err(e),
        }
    }

    /// Queue lines to be drawn above the canvas on a later render. No bytes
    /// reach the backend; this is safe to call at any time, any number of
    /// times.
    pub fn emit(&mut self, lines: Lines)
        ensures
            final(self).to_emit@ == old(self).to_emit@ + lines@,
            final(self).root == old(self).root,
            final(self).fallback_size == old(self).fallback_size,
            final(self).output == old(self).output,
    {
        let mut moved = lines;
        let ghost pre = self.to_emit@;
        let ghost lv = moved@;
        self.to_emit.0.append(&mut moved.0);
        proof {
            assert forall|x: int| 0 <= x < self.to_emit.0@.len() implies self.to_emit@[x]
                == #[trigger] (pre + lv)[x] by {
                if x < pre.len() {
                    assert(pre[x] == old(self).to_emit.0@[x]@);
                } else {
                    assert(lv[x - pre.len()] == lines.0@[x - pre.len()]@);
                }
            }
            assert(self.to_emit@ =~= pre + lv);
        }
    }

    /// Build one pass into `buffer` without changing any state: return to
    /// the canvas top, draw a fresh frame, append the queue's drained prefix,
    /// the frame, and a trailing clear. Says how many queued lines the pass
    /// covers and how many rows the frame has, so the caller can commit the
    /// drain and the row count once the bytes have actually been written.
    fn stage_pass<C: Component>(
        &self,
        buffer: &mut Vec<u8>,
        root: &C,
        mode: DrawMode,
        size: Dimensions,
    ) -> (r: Result<(usize, usize), ConsoleError>)
        ensures
            r is Ok <==> root.draw_ok(size, mode),
            r is Err ==> *final(buffer) == *old(buffer),
            r is Ok ==> ({
                let frame = root.drawn(size, mode);
                let k = pass_drain(self.to_emit@, mode, size.height, frame.len());
                &&& r->Ok_0.0 == k
                &&& r->Ok_0.1 == frame.len()
                &&& k <= self.to_emit@.len()
                &&& final(buffer)@ == old(buffer)@ + pass_bytes(
                    self.root.prev_rows(),
                    self.to_emit@.take(k as int),
                    frame,
                )
            }),
    {
        let mut frame = match self.root.draw(root, size, mode) {
            Ok(f) => f,
            Err(e) => {
                return Err(e);
            },
        };
        let frame_rows = frame.len();
        self.root.move_up(buffer);
        let limit: Option<usize> = if mode == DrawMode::Normal && !self.to_emit.exceeds(
            MAX_GRAPHEME_BUFFER,
        ) {
            let avail = size.height.saturating_sub(frame_rows);
            Some(
                if avail > MINIMUM_EMIT {
                    avail
                } else {
                    MINIMUM_EMIT
                },
            )
        } else {
            None
        };
        proof {
            assert(limit == pass_limit(mode, self.to_emit@, size.height, frame@.len()));
        }
        let k = self.to_emit.render_prefix(buffer, limit);
        frame.render(buffer, None);
        queue_clear_from_cursor_down(buffer);
        proof {
            let fv = root.drawn(size, mode);
            let kk = pass_drain(self.to_emit@, mode, size.height, fv.len());
            assert(fv.take(fv.len() as int) =~= fv);
            assert(buffer@ =~= old(buffer)@ + pass_bytes(
                self.root.prev_rows(),
                self.to_emit@.take(kk as int),
                fv,
            ));
        }
        Ok((k, frame_rows))
    }

    /// One pass of the core algorithm, against a caller-supplied size and
    /// into a caller-supplied byte sink. The sink is a plain buffer whose
    /// write cannot fail, so the queue drain and the remembered row count
    /// are committed before returning.
    pub fn render_general<C: Component>(
        &mut self,
        buffer: &mut Vec<u8>,
        root: &C,
        mode: DrawMode,
        size: Dimensions,
    ) -> (r: Result<(), ConsoleError>)
        ensures
            final(self).fallback_size == old(self).fallback_size,
            final(self).output == old(self).output,
            r is Ok <==> root.draw_ok(size, mode),
            r is Err ==> *final(self) == *old(self) && *final(buffer) == *old(buffer),
            r is Ok ==> ({
                let frame = root.drawn(size, mode);
                let k = pass_drain(old(self).to_emit@, mode, size.height, frame.len());
                &&& final(self).to_emit@ == old(self).to_emit@.skip(k as int)
                &&& final(self).root.prev_rows() == frame.len()
                &&& final(buffer)@ == old(buffer)@ + pass_bytes(
                    old(self).root.prev_rows(),
                    old(self).to_emit@.take(k as int),
                    frame,
                )
            }),
    {
        let (k, frame_rows) = match self.stage_pass(buffer, root, mode, size) {
            Ok(p) => p,
            Err(e) => {
                return Err(e);
            },
        };
        self.to_emit.drop_front(k);
        self.root.record_rows(frame_rows);
        Ok(())
    }

    /// One full pass at the currently resolved size (minus the reserved
    /// blank trailing row), written to the backend as a single buffer.
    /// The back-pressure signal is not consulted here. The queue drain and
    /// the remembered row count are committed only after the write
    /// succeeded: a failed pass leaves both exactly as they were.
    pub fn render_with_mode<C: Component>(&mut self, root: &C, mode: DrawMode) -> (r: Result<
        (),
        ConsoleError,
    >)
        ensures
            final(self).fallback_size == old(self).fallback_size,
            final(self).output.should_render_spec() == old(self).output.should_render_spec(),
            final(self).output.reported_size() == old(self).output.reported_size(),
            final(self).output.write_ok() == old(self).output.write_ok(),
            old(self).pass_size_spec() is None ==> r is Err && *final(self) == *old(self),
            old(self).pass_size_spec() is Some ==> ({
                let size = old(self).pass_size_spec()->0;
                &&& (!root.draw_ok(size, mode) ==> r is Err && *final(self) == *old(self))
                &&& (root.draw_ok(size, mode) ==> ({
                    let frame = root.drawn(size, mode);
                    let k = pass_drain(old(self).to_emit@, mode, size.height, frame.len());
                    &&& (old(self).output.write_ok() ==> r is Ok)
                    &&& (r is Ok ==> final(self).to_emit@ == old(self).to_emit@.skip(k as int)
                        && final(self).root.prev_rows() == frame.len()
                        && final(self).output.outputs() == old(self).output.outputs().push(
                        pass_bytes(
                            old(self).root.prev_rows(),
                            old(self).to_emit@.take(k as int),
                            frame,
                        ),
                    ))
                    &&& (r is Err ==> final(self).to_emit == old(self).to_emit
                        && final(self).root == old(self).root
                        && final(self).output.outputs() == old(self).output.outputs())
                }))
            }),
    {
        let resolved = match self.size() {
            Ok(s) => s,
            Err(e) => {
                return Err(e);
            },
        };
        let size = resolved.saturating_sub(1, Direction::Vertical);
        proof {
            assert(size == old(self).pass_size_spec()->0);
        }
        let mut buffer: Vec<u8> = Vec::new();
        let (k, frame_rows) = match self.stage_pass(&mut buffer, root, mode, size) {
            Ok(p) => p,
            Err(e) => {
                return Err(e);
            },
        };
        proof {
            assert(buffer@ =~= pass_bytes(
                old(self).root.prev_rows(),
                old(self).to_emit@.take(
                    pass_drain(
                        old(self).to_emit@,
                        mode,
                        size.height,
                        root.drawn(size, mode).len(),
                    ) as int,
                ),
                root.drawn(size, mode),
            ));
        }
        match self.output.output(buffer) {
            Ok(()) => {
                self.to_emit.drop_front(k);
                self.root.record_rows(frame_rows);
                Ok(())
            },
            Err(e) => Err(e),
        }
    }

    /// Render one tick: repeat single passes until the outstanding log is
    /// fully flushed, re-checking the back-pressure signal before every
    /// pass, and always attempting at least one pass. When the signal is
    /// off before any pass, nothing is written and nothing changes.
    pub fn render<C: Component>(&mut self, root: &C) -> (r: Result<(), ConsoleError>)
        ensures
            final(self).fallback_size == old(self).fallback_size,
            final(self).output.should_render_spec() == old(self).output.should_render_spec(),
            final(self).output.reported_size() == old(self).output.reported_size(),
            final(self).output.write_ok() == old(self).output.write_ok(),
            !old(self).output.should_render_spec() ==> r is Ok && *final(self) == *old(self),
            old(self).output.should_render_spec() && old(self).pass_size_spec() is Some
                && root.draw_ok(old(self).pass_size_spec()->0, DrawMode::Normal)
                && old(self).output.write_ok() ==> r is Ok,
            old(self).output.should_render_spec() && r is Ok ==> ({
                let size = old(self).pass_size_spec()->0;
                let frame = root.drawn(size, DrawMode::Normal);
                &&& old(self).pass_size_spec() is Some
                &&& root.draw_ok(size, DrawMode::Normal)
                &&& final(self).to_emit@.len() == 0
                &&& final(self).root.prev_rows() == frame.len()
                &&& final(self).output.outputs() == old(self).output.outputs() + flush_outputs(
                    old(self).to_emit@,
                    old(self).root.prev_rows(),
                    frame,
                    size.height,
                )
            }),
            r is Err ==> exists|n: int|
                0 <= n <= old(self).to_emit@.len() && final(self).to_emit@ == old(
                    self,
                ).to_emit@.skip(n),
            r is Err && old(self).output.should_render_spec() && old(self).pass_size_spec() is Some
                && root.draw_ok(old(self).pass_size_spec()->0, DrawMode::Normal) && old(
                self,
            ).to_emit@.len() > 0 ==> ({
                let size = old(self).pass_size_spec()->0;
                let frame = root.drawn(size, DrawMode::Normal);
                old(self).output.outputs() + flush_outputs(
                    old(self).to_emit@,
                    old(self).root.prev_rows(),
                    frame,
                    size.height,
                ) == final(self).output.outputs() + remaining_flush(
                    final(self).to_emit@,
                    final(self).root.prev_rows(),
                    frame,
                    size.height,
                )
            }),
    {
        if !self.output.should_render() {
            proof {
                assert(self.to_emit@ == old(self).to_emit@.skip(0));
            }
            return Ok(());
        }
        let ghost q0 = self.to_emit@;
        let ghost p0 = self.root.prev_rows();
        let ghost o0 = self.output.outputs();
        match self.render_with_mode(root, DrawMode::Normal) {
            Ok(()) => {},
            Err(e) => {
                proof {
                    assert(self.to_emit@ == old(self).to_emit@.skip(0));
                }
                return Err(e);
            },
        }
        proof {
            lemma_flush_step(q0, p0, o0, *self, root, old(self).pass_size_spec()->0);
            assert(self.to_emit@ == old(self).to_emit@.skip(
                pass_drain(
                    q0,
                    DrawMode::Normal,
                    (old(self).pass_size_spec()->0).height,
                    root.drawn(old(self).pass_size_spec()->0, DrawMode::Normal).len(),
                ) as int,
            ));
        }
        while self.to_emit.0.len() > 0
            invariant
                self.fallback_size == old(self).fallback_size,
                self.output.should_render_spec() == old(self).output.should_render_spec(),
                self.output.reported_size() == old(self).output.reported_size(),
                self.output.write_ok() == old(self).output.write_ok(),
                old(self).output.should_render_spec(),
                old(self).pass_size_spec() is Some,
                root.draw_ok(old(self).pass_size_spec()->0, DrawMode::Normal),
                self.root.prev_rows() == root.drawn(
                    old(self).pass_size_spec()->0,
                    DrawMode::Normal,
                ).len(),
                exists|n: int|
                    0 <= n <= old(self).to_emit@.len() && self.to_emit@ == old(
                        self,
                    ).to_emit@.skip(n),
                old(self).output.outputs() + flush_outputs(
                    old(self).to_emit@,
                    old(self).root.prev_rows(),
                    root.drawn(old(self).pass_size_spec()->0, DrawMode::Normal),
                    (old(self).pass_size_spec()->0).height,
                ) == self.output.outputs() + remaining_flush(
                    self.to_emit@,
                    self.root.prev_rows(),
                    root.drawn(old(self).pass_size_spec()->0, DrawMode::Normal),
                    (old(self).pass_size_spec()->0).height,
                ),
            decreases self.to_emit.0.len(),
        {
            if !self.output.should_render() {
                return Ok(());
            }
            let ghost qi = self.to_emit@;
            let ghost pi = self.root.prev_rows();
            let ghost oi = self.output.outputs();
            match self.render_with_mode(root, DrawMode::Normal) {
                Ok(()) => {},
                Err(e) => {
                    return Err(e);
                },
            }
            proof {
                lemma_flush_step(qi, pi, oi, *self, root, old(self).pass_size_spec()->0);
                let n0 = choose|n: int|
                    0 <= n <= old(self).to_emit@.len() && qi == old(self).to_emit@.skip(n);
                let k = pass_drain(
                    qi,
                    DrawMode::Normal,
                    (old(self).pass_size_spec()->0).height,
                    root.drawn(old(self).pass_size_spec()->0, DrawMode::Normal).len(),
                );
                assert(old(self).to_emit@.skip(n0).skip(k as int) =~= old(self).to_emit@.skip(
                    n0 + k,
                ));
                assert(self.to_emit@ == old(self).to_emit@.skip(n0 + k));
            }
        }
        Ok(())
    }

    /// Queue the given lines and render at once. Each call forces a size
    /// query, a redraw and a write, so high-frequency callers should prefer
    /// batched [`Self::emit`] plus a periodic [`Self::render`].
    pub fn emit_now<C: Component>(&mut self, lines: Lines, root: &C) -> (r: Result<
        (),
        ConsoleError,
    >)
        ensures
            final(self).fallback_size == old(self).fallback_size,
            final(self).output.should_render_spec() == old(self).output.should_render_spec(),
            final(self).output.reported_size() == old(self).output.reported_size(),
            final(self).output.write_ok() == old(self).output.write_ok(),
            !old(self).output.should_render_spec() ==> r is Ok && final(self).to_emit@ == old(
                self,
            ).to_emit@ + lines@ && final(self).root == old(self).root && final(self).output == old(
                self,
            ).output,
            old(self).output.should_render_spec() && old(self).pass_size_spec() is Some
                && root.draw_ok(old(self).pass_size_spec()->0, DrawMode::Normal)
                && old(self).output.write_ok() ==> r is Ok,
            r is Err ==> exists|n: int|
                0 <= n <= old(self).to_emit@.len() + lines@.len() && final(self).to_emit@ == (old(
                    self,
                ).to_emit@ + lines@).skip(n),
            old(self).output.should_render_spec() && r is Ok ==> ({
                let size = old(self).pass_size_spec()->0;
                let frame = root.drawn(size, DrawMode::Normal);
                &&& old(self).pass_size_spec() is Some
                &&& root.draw_ok(size, DrawMode::Normal)
                &&& final(self).to_emit@.len() == 0
                &&& final(self).root.prev_rows() == frame.len()
                &&& final(self).output.outputs() == old(self).output.outputs() + flush_outputs(
                    old(self).to_emit@ + lines@,
                    old(self).root.prev_rows(),
                    frame,
                    size.height,
                )
            }),
    {
        self.emit(lines);
        self.render(root)
    }

    /// Erase only the canvas region, in place, and write that erasure
    /// unconditionally: neither the back-pressure signal nor the queue is
    /// consulted, and the queue is left untouched. The remembered row count
    /// is reset only once the erasure has actually been written.
    pub fn clear(&mut self) -> (r: Result<(), ConsoleError>)
        ensures
            final(self).to_emit == old(self).to_emit,
            final(self).fallback_size == old(self).fallback_size,
            final(self).output.should_render_spec() == old(self).output.should_render_spec(),
            final(self).output.reported_size() == old(self).output.reported_size(),
            final(self).output.write_ok() == old(self).output.write_ok(),
            old(self).output.write_ok() ==> r is Ok,
            r is Ok ==> final(self).root.prev_rows() == 0 && final(self).output.outputs() == old(
                self,
            ).output.outputs().push(clear_region_bytes(old(self).root.prev_rows())),
            r is Err ==> final(self).root == old(self).root && final(self).output.outputs() == old(
                self,
            ).output.outputs(),
    {
        let mut buffer: Vec<u8> = Vec::new();
        self.root.clear(&mut buffer);
        proof {
            assert(buffer@ =~= clear_region_bytes(old(self).root.prev_rows()));
        }
        match self.output.output(buffer) {
            Ok(()) => {
                self.root.record_rows(0);
                Ok(())
            },
            Err(e) => Err(e),
        }
    }

    /// One last pass in the given mode, ignoring the back-pressure signal
    /// (teardown must complete), then backend teardown. Consumes the
    /// renderer; the backend's `finalize` runs only when the pass succeeded.
    pub fn finalize_with_mode<C: Component>(self, root: &C, mode: DrawMode) -> (r: Result<
        (),
        ConsoleError,
    >)
        ensures
            r is Ok ==> pass_size(self.output.reported_size(), self.fallback_size) is Some
                && root.draw_ok(pass_size(self.output.reported_size(), self.fallback_size)->0, mode),
    {
        let mut this = self;
        match this.render_with_mode(root, mode) {
            Ok(()) => {},
            Err(e) => {
                return Err(e);
            },
        }
        let SuperConsole { root: _, to_emit: _, fallback_size: _, output } = this;
        output.finalize()
    }

    /// The final render before teardown: one unconditional pass with
    /// [`DrawMode::Final`], then backend teardown.
    pub fn finalize<C: Component>(self, root: &C) -> (r: Result<(), ConsoleError>)
        ensures
            r is Ok ==> pass_size(self.output.reported_size(), self.fallback_size) is Some
                && root.draw_ok(
                pass_size(self.output.reported_size(), self.fallback_size)->0,
                DrawMode::Final,
            ),
    {
        self.finalize_with_mode(root, DrawMode::Final)
    }
}

/// What a flush still has to write: nothing once the queue is empty, else
/// the passes that flush the rest.
pub open spec fn remaining_flush(
    queue: Seq<Seq<Seq<char>>>,
    prev_rows: nat,
    frame: Seq<Seq<Seq<char>>>,
    height: usize,
) -> Seq<Seq<u8>> {
    if queue.len() == 0 {
        Seq::empty()
    } else {
        flush_outputs(queue, prev_rows, frame, height)
    }
}

/// One successful pass turns the flush still owed on the old queue into the
/// buffer just written plus the flush still owed on the rest.
proof fn lemma_flush_step<O: SuperConsoleOutput, C: Component>(
    q: Seq<Seq<Seq<char>>>,
    p: nat,
    o: Seq<Seq<u8>>,
    post: SuperConsole<O>,
    root: &C,
    size: Dimensions,
)
    requires
        root.draw_ok(size, DrawMode::Normal),
        ({
            let frame = root.drawn(size, DrawMode::Normal);
            let k = pass_drain(q, DrawMode::Normal, size.height, frame.len());
            &&& post.to_emit@ == q.skip(k as int)
            &&& post.root.prev_rows() == frame.len()
            &&& post.output.outputs() == o.push(pass_bytes(p, q.take(k as int), frame))
        }),
    ensures
        o + flush_outputs(q, p, root.drawn(size, DrawMode::Normal), size.height)
            == post.output.outputs() + remaining_flush(
            post.to_emit@,
            post.root.prev_rows(),
            root.drawn(size, DrawMode::Normal),
            size.height,
        ),
{
    let frame = root.drawn(size, DrawMode::Normal);
    let k = pass_drain(q, DrawMode::Normal, size.height, frame.len());
    let b = pass_bytes(p, q.take(k as int), frame);
    assert(flush_outputs(q, p, frame, size.height) == seq![b] + remaining_flush(
        q.skip(k as int),
        frame.len(),
        frame,
        size.height,
    ));
    assert(o + (seq![b] + remaining_flush(q.skip(k as int), frame.len(), frame, size.height))
        =~= o.push(b) + remaining_flush(q.skip(k as int), frame.len(), frame, size.height));
}

} // verus!
