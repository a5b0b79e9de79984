use superconsole::Component;
use superconsole::ConsoleError;
use superconsole::Dimensions;
use superconsole::DrawMode;
use superconsole::Echo;
use superconsole::Line;
use superconsole::Lines;
use superconsole::SuperConsole;
use superconsole::TestOutput;
use superconsole::MAX_GRAPHEME_BUFFER;
use superconsole::MINIMUM_EMIT;

fn line(text: &str) -> Line {
    Line::from_text(String::from(text))
}

fn lines_of(text: &str, count: usize) -> Lines {
    let mut lines = Lines::new();
    for _ in 0..count {
        lines.push(line(text));
    }
    lines
}

fn test_console() -> SuperConsole<TestOutput> {
    let size = Dimensions::new(80, 80);
    SuperConsole::new_internal(Some(size), TestOutput::new(size))
}

fn frame_contains(frame: &[u8], msg: &str) -> bool {
    let needle = msg.as_bytes();
    if needle.is_empty() {
        return true;
    }
    frame.windows(needle.len()).any(|w| w == needle)
}

fn position_of(frame: &[u8], msg: &str) -> Option<usize> {
    let needle = msg.as_bytes();
    frame.windows(needle.len()).position(|w| w == needle)
}

struct FailingComponent;

impl Component for FailingComponent {
    fn draw(&self, _dimensions: Dimensions, _mode: DrawMode) -> Result<Lines, ConsoleError> {
        Err(ConsoleError::Draw)
    }
}

#[test]
fn test_small_buffer() {
    let mut console = test_console();
    let msg_count = MINIMUM_EMIT + 5;
    console.emit(lines_of("line 1", msg_count));
    let root = Echo(lines_of("line", msg_count));
    let mut buffer = Vec::new();

    // even though the canvas is larger than the tty
    console
        .render_general(&mut buffer, &root, DrawMode::Normal, Dimensions::new(100, 2))
        .unwrap();

    // we should still drain a minimum of 5 messages.
    assert_eq!(console.to_emit.len(), msg_count - MINIMUM_EMIT);
}

#[test]
fn test_huge_buffer() {
    let mut console = test_console();
    console.emit(lines_of("line 1", MAX_GRAPHEME_BUFFER * 2));
    let root = Echo(lines_of("line", 1));
    let mut buffer = Vec::new();

    // Even though we have more messages than fit on the screen in the `to_emit` buffer
    console
        .render_general(&mut buffer, &root, DrawMode::Normal, Dimensions::new(100, 20))
        .unwrap();

    // We have so many that we should just drain them all.
    assert!(console.to_emit.is_empty());
}

/// Check that no frames are produced when should_render returns false.
#[test]
fn test_block_render() {
    let mut console = test_console();

    let root = Echo(lines_of("state", 1));

    console.render(&root).unwrap();
    assert_eq!(console.output.frames.len(), 1);

    console.output.should_render = false;
    console.render(&root).unwrap();
    assert_eq!(console.output.frames.len(), 1);

    console.emit(lines_of("line 1", 1));
    console.render(&root).unwrap();
    assert_eq!(console.output.frames.len(), 1);
}

/// Check that lines are deferred when should_render returns false, and
/// emitted once the output is unblocked.
#[test]
fn test_block_lines() {
    let mut console = test_console();

    let root = Echo(lines_of("state", 1));

    console.output.should_render = false;
    console.emit(lines_of("line 1", 1));
    console.render(&root).unwrap();
    assert_eq!(console.output.frames.len(), 0);

    console.output.should_render = true;
    console.emit(lines_of("line 2", 1));
    console.render(&root).unwrap();

    let frame = console.output.frames.pop().expect("No frame was emitted");

    assert!(frame_contains(&frame, "state"));
    assert!(frame_contains(&frame, "line 1"));
    assert!(frame_contains(&frame, "line 2"));
}

/// Check that render_with_mode does not respect should_render.
#[test]
fn test_block_finalize() {
    let mut console = test_console();

    let root = Echo(lines_of("state", 1));

    console.output.should_render = false;
    console.emit(lines_of("line 1", 1));
    console.emit(lines_of("line 2", 1));
    console.render_with_mode(&root, DrawMode::Final).unwrap();

    let frame = console.output.frames.pop().expect("No frame was emitted");

    assert!(frame_contains(&frame, "state"));
    assert!(frame_contains(&frame, "line 1"));
    assert!(frame_contains(&frame, "line 2"));
}

/// A bounded pass drains max(MINIMUM_EMIT, height - frame rows) lines.
#[test]
fn test_pass_drain_formula() {
    let mut console = test_console();
    console.emit(lines_of("log", 20));
    let root = Echo(lines_of("row", 3));
    let mut buffer = Vec::new();

    console
        .render_general(&mut buffer, &root, DrawMode::Normal, Dimensions::new(40, 10))
        .unwrap();

    // 10 rows minus a 3-row frame leaves 7, which beats the floor of 5.
    assert_eq!(console.to_emit.len(), 20 - 7);
}

/// A queue shorter than the floor is simply drained in full.
#[test]
fn test_pass_drains_short_queue() {
    let mut console = test_console();
    console.emit(lines_of("log", 3));
    let mut buffer = Vec::new();
    console
        .render_general(&mut buffer, &Echo(lines_of("row", 1)), DrawMode::Normal, Dimensions::new(100, 2))
        .unwrap();
    assert!(console.to_emit.is_empty());
}

/// A final draw drains the queue unconditionally, whatever the height.
#[test]
fn test_final_pass_drains_all() {
    let mut console = test_console();
    console.emit(lines_of("log", 8));
    let mut buffer = Vec::new();
    console
        .render_general(&mut buffer, &Echo(lines_of("row", 1)), DrawMode::Final, Dimensions::new(100, 2))
        .unwrap();
    assert!(console.to_emit.is_empty());
}

/// A blocked render leaves the queue, the canvas and the backend untouched.
#[test]
fn test_blocked_render_changes_nothing() {
    let mut console = test_console();
    console.output.should_render = false;
    console.emit(lines_of("queued", 3));

    console.render(&Echo(lines_of("state", 1))).unwrap();

    assert_eq!(console.output.frames.len(), 0);
    assert_eq!(console.to_emit.len(), 3);
}

/// Once unblocked, deferred lines come out in their original order.
#[test]
fn test_deferred_lines_keep_order() {
    let mut console = test_console();
    console.output.should_render = false;
    console.emit(lines_of("aardvark", 1));
    console.emit(lines_of("bumblebee", 1));
    console.render(&Echo(lines_of("state", 1))).unwrap();
    assert_eq!(console.output.frames.len(), 0);
    assert_eq!(console.to_emit.len(), 2);

    console.output.should_render = true;
    console.render(&Echo(lines_of("state", 1))).unwrap();

    assert!(console.to_emit.is_empty());
    assert_eq!(console.output.frames.len(), 1);
    let frame = &console.output.frames[0];
    let first = position_of(frame, "aardvark").expect("first line missing");
    let second = position_of(frame, "bumblebee").expect("second line missing");
    assert!(first < second);
}

/// The backend's size wins when both axes are non-zero.
#[test]
fn test_size_prefers_backend() {
    let mut console = test_console();
    console.output.terminal_size = Dimensions::new(33, 44);
    assert_eq!(console.size().unwrap(), Dimensions::new(33, 44));
}

/// A reported zero axis falls back to the configured fallback size.
#[test]
fn test_size_zero_axis_falls_back() {
    let mut console = test_console();
    console.output.terminal_size = Dimensions::new(0, 24);
    assert_eq!(console.size().unwrap(), Dimensions::new(80, 80));
    console.output.terminal_size = Dimensions::new(24, 0);
    assert_eq!(console.size().unwrap(), Dimensions::new(80, 80));
}

/// A failed size query falls back to the configured fallback size.
#[test]
fn test_size_failure_falls_back() {
    let mut console = test_console();
    console.output.size_query_fails = true;
    assert_eq!(console.size().unwrap(), Dimensions::new(80, 80));
}

/// Without a fallback, a failed size query surfaces the backend's error.
#[test]
fn test_size_failure_without_fallback() {
    let mut console = SuperConsole::new_internal(None, TestOutput::new(Dimensions::new(80, 80)));
    console.output.size_query_fails = true;
    assert!(matches!(console.size(), Err(ConsoleError::TerminalSize)));
    // A zero axis without a fallback is not an error: the reported size is used.
    console.output.size_query_fails = false;
    console.output.terminal_size = Dimensions::new(0, 24);
    assert_eq!(console.size().unwrap(), Dimensions::new(0, 24));
}

/// A render that cannot resolve any size fails and writes nothing.
#[test]
fn test_render_without_size_errs() {
    let mut console = SuperConsole::new_internal(None, TestOutput::new(Dimensions::new(80, 80)));
    console.output.size_query_fails = true;
    console.emit(lines_of("queued", 2));
    assert!(matches!(
        console.render(&Echo(lines_of("state", 1))),
        Err(ConsoleError::TerminalSize)
    ));
    assert_eq!(console.output.frames.len(), 0);
    assert_eq!(console.to_emit.len(), 2);
}

/// A failing component surfaces its error and nothing is written.
#[test]
fn test_draw_failure_propagates() {
    let mut console = test_console();
    console.emit(lines_of("queued", 1));
    assert!(matches!(console.render(&FailingComponent), Err(ConsoleError::Draw)));
    assert_eq!(console.output.frames.len(), 0);
    assert_eq!(console.to_emit.len(), 1);
}

/// The very first pass writes exactly: cursor up zero rows, the frame row,
/// then clear to the end of the screen.
#[test]
fn test_first_pass_exact_bytes() {
    let mut console = test_console();
    console.render(&Echo(lines_of("hi", 1))).unwrap();
    assert_eq!(console.output.frames.len(), 1);
    let expected: Vec<u8> = vec![27, 91, 48, 65, 104, 105, 10, 27, 91, 74];
    assert_eq!(console.output.frames[0], expected);
}

/// Clear erases exactly the previous frame's region: cursor up by its row
/// count, then clear to the end of the screen. The queue stays untouched.
#[test]
fn test_clear_writes_exact_sequence() {
    let mut console = test_console();
    console.render(&Echo(lines_of("row", 2))).unwrap();
    console.emit(lines_of("queued", 1));
    console.clear().unwrap();
    let frame = console.output.frames.last().expect("clear wrote nothing");
    let expected: Vec<u8> = vec![27, 91, 50, 65, 27, 91, 74];
    assert_eq!(frame, &expected);
    assert_eq!(console.to_emit.len(), 1);
}

/// After a clear the canvas region is forgotten: the next pass moves up
/// zero rows.
#[test]
fn test_clear_resets_canvas_rows() {
    let mut console = test_console();
    console.render(&Echo(lines_of("row", 3))).unwrap();
    console.clear().unwrap();
    console.render(&Echo(lines_of("row", 1))).unwrap();
    let frame = console.output.frames.last().unwrap();
    assert!(frame.starts_with(&[27, 91, 48, 65]));
}

/// Consecutive passes move the cursor up by the previous frame's row count.
#[test]
fn test_second_pass_moves_up_previous_rows() {
    let mut console = test_console();
    console.render(&Echo(lines_of("row", 12))).unwrap();
    console.render(&Echo(lines_of("row", 1))).unwrap();
    let frame = console.output.frames.last().unwrap();
    assert!(frame.starts_with(&[27, 91, 49, 50, 65]));
}

/// A failed backend write commits nothing: the queue and the remembered
/// canvas region stay exactly as they were, and the lines go out intact
/// once writes succeed again.
#[test]
fn test_failed_write_commits_nothing() {
    let mut console = test_console();
    console.render(&Echo(lines_of("row", 3))).unwrap();
    console.output.write_fails = true;
    console.emit(lines_of("queued", 2));
    assert!(matches!(
        console.render(&Echo(lines_of("row", 1))),
        Err(ConsoleError::Output)
    ));
    assert_eq!(console.output.frames.len(), 1);
    assert_eq!(console.to_emit.len(), 2);

    console.output.write_fails = false;
    console.render(&Echo(lines_of("row", 1))).unwrap();
    let frame = console.output.frames.last().unwrap();
    // The region is still the 3-row frame that was last actually written.
    assert!(frame.starts_with(&[27, 91, 51, 65]));
    assert!(frame_contains(frame, "queued"));
    assert!(console.to_emit.is_empty());
}

/// A failed clear write leaves the remembered canvas region in place.
#[test]
fn test_failed_clear_keeps_region() {
    let mut console = test_console();
    console.render(&Echo(lines_of("row", 2))).unwrap();
    console.output.write_fails = true;
    assert!(matches!(console.clear(), Err(ConsoleError::Output)));

    console.output.write_fails = false;
    console.render(&Echo(lines_of("row", 1))).unwrap();
    let frame = console.output.frames.last().unwrap();
    // The next pass still moves up over the 2-row frame.
    assert!(frame.starts_with(&[27, 91, 50, 65]));
}

/// Emitting queues lines without any write reaching the backend.
#[test]
fn test_emit_is_silent() {
    let mut console = test_console();
    console.emit(lines_of("a", 2));
    console.emit(lines_of("b", 1));
    assert_eq!(console.output.frames.len(), 0);
    assert_eq!(console.to_emit.len(), 3);
}

/// emit_now queues and renders in one call.
#[test]
fn test_emit_now_renders() {
    let mut console = test_console();
    console
        .emit_now(lines_of("message", 1), &Echo(lines_of("state", 1)))
        .unwrap();
    assert!(console.to_emit.is_empty());
    assert_eq!(console.output.frames.len(), 1);
    assert!(frame_contains(&console.output.frames[0], "message"));
    assert!(frame_contains(&console.output.frames[0], "state"));
}

/// Finalizing performs its unconditional last pass and succeeds even while
/// the back-pressure signal is off.
#[test]
fn test_finalize_succeeds_when_blocked() {
    let mut console = test_console();
    console.output.should_render = false;
    console.emit(lines_of("tail", 1));
    assert!(console.finalize(&Echo(lines_of("state", 1))).is_ok());
}
