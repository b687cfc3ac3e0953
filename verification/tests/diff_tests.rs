use flywheel::{Buffer, Cell, DiffState, Rgb, render_diff, render_full_diff, render_full, Rect};
use flywheel::ansi::push_cursor_move;

#[test]
fn test_diff_identical_buffers() {
    let a = Buffer::new(10, 5);
    let b = Buffer::new(10, 5);
    let mut output: Vec<u8> = Vec::new();
    let mut state = DiffState::new();

    let result = render_full_diff(&a, &b, &mut output, &mut state);

    assert_eq!(result.cells_changed, 0);
    assert!(output.is_empty());
}

#[test]
fn test_diff_idempotence_nonempty() {
    let mut a = Buffer::new(10, 5);
    a.set_grapheme(2, 1, "Q", Rgb::new(9, 9, 9), Rgb::black());
    let mut b = Buffer::new(10, 5);
    b.set_grapheme(2, 1, "Q", Rgb::new(9, 9, 9), Rgb::black());

    let mut output: Vec<u8> = Vec::new();
    let mut state = DiffState::new();
    let result = render_full_diff(&a, &b, &mut output, &mut state);

    assert_eq!(result.cells_changed, 0);
    assert_eq!(result.cursor_moves, 0);
    assert_eq!(result.color_changes, 0);
    assert_eq!(result.modifier_changes, 0);
    assert!(output.is_empty());
}

#[test]
fn test_diff_single_cell_change() {
    let a = Buffer::new(10, 5);
    let mut b = Buffer::new(10, 5);

    b.set(5, 2, Cell::new('X'));

    let mut output: Vec<u8> = Vec::new();
    let mut state = DiffState::new();

    let result = render_full_diff(&a, &b, &mut output, &mut state);

    assert_eq!(result.cells_changed, 1);
    assert!(!output.is_empty());
    let output_str = String::from_utf8_lossy(&output).to_string();
    assert!(output_str.contains('X'));
    // Cursor to row 3, column 6 (1-indexed), then default fg and bg.
    assert!(output_str.contains("\x1b[3;6H"));
    assert!(output_str.contains("\x1b[38;2;255;255;255m"));
    assert!(output_str.contains("\x1b[48;2;0;0;0m"));
    assert_eq!(result.cursor_moves, 1);
}

#[test]
fn test_diff_adjacent_cells_no_cursor_move() {
    let a = Buffer::new(10, 5);
    let mut b = Buffer::new(10, 5);

    b.set(0, 0, Cell::new('A'));
    b.set(1, 0, Cell::new('B'));
    b.set(2, 0, Cell::new('C'));

    let mut output: Vec<u8> = Vec::new();
    let mut state = DiffState::new();

    let result = render_full_diff(&a, &b, &mut output, &mut state);

    assert_eq!(result.cells_changed, 3);
    // One absolute move for the run's first cell (the fresh state starts
    // with the cursor unknown), none for the adjacent cells after it.
    assert_eq!(result.cursor_moves, 1);
    let output_str = String::from_utf8_lossy(&output).to_string();
    assert!(output_str.contains("\x1b[H"));
    assert!(output_str.contains("ABC"));
}

#[test]
fn test_diff_color_tracking() {
    let a = Buffer::new(10, 5);
    let mut b = Buffer::new(10, 5);

    let red = Rgb::new(255, 0, 0);
    b.set(0, 0, Cell::new('A').with_fg(red));
    b.set(1, 0, Cell::new('B').with_fg(red));

    let mut output: Vec<u8> = Vec::new();
    let mut state = DiffState::new();

    let result = render_full_diff(&a, &b, &mut output, &mut state);

    assert_eq!(result.color_changes, 2);
}

#[test]
fn test_diff_dirty_rect() {
    let a = Buffer::new(20, 10);
    let mut b = Buffer::new(20, 10);

    b.set(0, 0, Cell::new('X'));
    b.set(10, 5, Cell::new('Y'));

    let mut output: Vec<u8> = Vec::new();
    let mut state = DiffState::new();

    let dirty = vec![Rect::new(8, 4, 5, 3)];
    let result = render_diff(&a, &b, dirty.as_slice(), &mut output, &mut state);

    assert_eq!(result.cells_changed, 1);
}

#[test]
fn test_cursor_move_optimization() {
    let mut output: Vec<u8> = Vec::new();

    push_cursor_move(&mut output, 0, 0);
    assert_eq!(&output, b"\x1b[H");

    output.clear();

    push_cursor_move(&mut output, 0, 5);
    assert_eq!(&output, b"\x1b[6H");

    output.clear();

    push_cursor_move(&mut output, 10, 5);
    assert_eq!(&output, b"\x1b[6;11H");
}

#[test]
fn test_render_full() {
    let mut buffer = Buffer::new(3, 2);
    buffer.set(0, 0, Cell::new('A'));
    buffer.set(1, 0, Cell::new('B'));
    buffer.set(2, 0, Cell::new('C'));

    let mut output: Vec<u8> = Vec::new();
    render_full(&buffer, &mut output);

    let output_str = String::from_utf8_lossy(&output).to_string();
    assert!(output_str.starts_with("\x1b[?25l\x1b[H"));
    assert!(output_str.contains('A'));
    assert!(output_str.contains('B'));
    assert!(output_str.contains('C'));
    assert!(output_str.ends_with("\x1b[0m\x1b[?25h"));
}

#[test]
fn test_render_full_includes_overflow_grapheme() {
    let mut buffer = Buffer::new(4, 1);
    let emoji = "👨\u{200d}👩\u{200d}👧\u{200d}👦";
    buffer.set_grapheme(0, 0, emoji, Rgb::white(), Rgb::black());

    let mut output: Vec<u8> = Vec::new();
    render_full(&buffer, &mut output);

    let output_str = String::from_utf8_lossy(&output).to_string();
    assert!(output_str.contains(emoji));
}

#[test]
fn test_diff_wide_char_skips_continuation() {
    let a = Buffer::new(10, 2);
    let mut b = Buffer::new(10, 2);
    b.set_grapheme(5, 0, "日", Rgb::white(), Rgb::black());

    let mut output: Vec<u8> = Vec::new();
    let mut state = DiffState::new();
    let result = render_full_diff(&a, &b, &mut output, &mut state);

    // One cell for the wide grapheme; its continuation is never emitted.
    assert_eq!(result.cells_changed, 1);
    let output_str = String::from_utf8_lossy(&output).to_string();
    assert!(output_str.contains('日'));
}

fn feed(parser: &mut vt100::Parser, bytes: &[u8]) {
    parser.process(bytes);
}

fn screen_matches(parser: &vt100::Parser, expect: &Buffer) -> bool {
    for y in 0..expect.height() {
        for x in 0..expect.width() {
            let want = expect.get_grapheme(x, y);
            let got = parser
                .screen()
                .cell(y, x)
                .map(|c| c.contents().to_string())
                .unwrap_or_default();
            match want {
                Some(w) => {
                    let w_shown = if w.is_empty() { String::from(" ") } else { w };
                    let got_shown = if got.is_empty() { String::from(" ") } else { got };
                    if w_shown != got_shown {
                        return false;
                    }
                }
                None => {}
            }
        }
    }
    true
}

#[test]
fn test_diff_equivalence_through_emulator() {
    let mut a = Buffer::new(12, 4);
    a.set_grapheme(0, 0, "h", Rgb::white(), Rgb::black());
    a.set_grapheme(1, 0, "i", Rgb::white(), Rgb::black());
    a.set_grapheme(4, 2, "Z", Rgb::new(10, 20, 30), Rgb::black());

    let mut b = Buffer::new(12, 4);
    b.set_grapheme(0, 0, "h", Rgb::white(), Rgb::black());
    b.set_grapheme(1, 0, "o", Rgb::white(), Rgb::black());
    b.set_grapheme(2, 0, "p", Rgb::white(), Rgb::black());
    b.set_grapheme(7, 3, "日", Rgb::white(), Rgb::black());

    // Bring the emulator to state `a` with a full redraw, then apply the
    // diff from `a` to `b`; the emulator must then show `b`.
    let mut parser = vt100::Parser::new(4, 12, 0);
    let mut full: Vec<u8> = Vec::new();
    render_full(&a, &mut full);
    feed(&mut parser, &full);
    assert!(screen_matches(&parser, &a));

    let mut state = DiffState::new();
    let mut diff_bytes: Vec<u8> = Vec::new();
    let result = render_full_diff(&a, &b, &mut diff_bytes, &mut state);
    assert!(result.cells_changed > 0);
    feed(&mut parser, &diff_bytes);
    assert!(screen_matches(&parser, &b));
}
