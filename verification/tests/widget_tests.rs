use flywheel::{
    Buffer, Cell, Rect, Rgb, ScrollBuffer, StreamWidget, AppendResult, StatusBar, TextInput,
    Widget, RenderCore,
};

fn text_to_cells(text: &str) -> Vec<Cell> {
    text.chars().map(Cell::from_char).collect()
}

fn line_text(line: &flywheel::StyledLine) -> String {
    line.content.iter().map(|c| c.grapheme().unwrap_or_default()).collect()
}

#[test]
fn test_scroll_buffer_new() {
    let buf = ScrollBuffer::new(100);
    assert_eq!(buf.len(), 1);
    assert!(buf.current_line().content.is_empty());
}

#[test]
fn test_scroll_buffer_append() {
    let mut buf = ScrollBuffer::new(100);
    buf.append(&text_to_cells("Hello"));
    buf.append(&text_to_cells(", world!"));

    let content = line_text(&buf.current_line());
    assert_eq!(content, "Hello, world!");
}

#[test]
fn test_scroll_buffer_newline() {
    let mut buf = ScrollBuffer::new(100);
    buf.append(&text_to_cells("Line 1"));
    buf.newline(false);
    buf.append(&text_to_cells("Line 2"));
    assert_eq!(buf.len(), 2);

    let l1 = line_text(&buf.get(0).unwrap());
    assert_eq!(l1, "Line 1");
}

#[test]
fn test_scroll_buffer_capacity() {
    let mut buf = ScrollBuffer::new(3);
    buf.append(&text_to_cells("Line 1"));
    buf.newline(false);
    buf.append(&text_to_cells("Line 2"));
    buf.newline(false);
    buf.append(&text_to_cells("Line 3"));
    buf.newline(false);
    buf.append(&text_to_cells("Line 4"));

    assert_eq!(buf.len(), 3);
    let l0 = line_text(&buf.get(0).unwrap());
    assert_eq!(l0, "Line 2");
}

#[test]
fn test_scroll_buffer_scroll() {
    let mut buf = ScrollBuffer::new(100);
    for i in 0..10 {
        buf.append(&text_to_cells(&format!("Line {i}")));
        buf.newline(false);
    }

    assert!(buf.at_bottom());

    buf.scroll_up(3);
    assert!(!buf.at_bottom());
    assert_eq!(buf.scroll_offset(), 3);

    buf.scroll_down(1);
    assert_eq!(buf.scroll_offset(), 2);

    buf.scroll_to_bottom();
    assert!(buf.at_bottom());
}

#[test]
fn test_stream_widget_new() {
    let widget = StreamWidget::new(Rect::new(0, 0, 80, 24));
    assert_eq!(widget.bounds().width, 80);
    assert_eq!(widget.bounds().height, 24);
    assert_eq!(widget.cursor_position(), (0, 0));
}

#[test]
fn test_stream_widget_append_fast_path() {
    let mut widget = StreamWidget::new(Rect::new(0, 0, 80, 24));
    let result = widget.append("Hello");

    match result {
        AppendResult::FastPath { chars, start_col, row } => {
            assert_eq!(chars, 5);
            assert_eq!(start_col, 0);
            assert_eq!(row, 0);
        }
        _ => panic!("Expected fast path"),
    }

    assert_eq!(widget.cursor_position(), (5, 0));
}

#[test]
fn test_stream_widget_append_slow_path_newline() {
    let mut widget = StreamWidget::new(Rect::new(0, 0, 80, 24));
    let result = widget.append("Hello\nWorld");

    match result {
        AppendResult::SlowPath { .. } => {}
        _ => panic!("Expected slow path due to newline"),
    }

    assert_eq!(widget.cursor_position(), (5, 1));
}

#[test]
fn test_stream_widget_wrap() {
    let mut widget = StreamWidget::new(Rect::new(0, 0, 10, 24));

    let result = widget.append("12345678901234567890");
    match result {
        AppendResult::SlowPath { .. } => {}
        _ => panic!("Expected slow path due to wrapping"),
    }

    let (_, row) = widget.cursor_position();
    assert!(row > 0);
    assert_eq!(widget.line_count(), 2);
}

#[test]
fn test_stream_widget_render() {
    let mut widget = StreamWidget::new(Rect::new(0, 0, 10, 3));
    widget.append("Line 1\nLine 2\nLine 3");

    let mut buffer = Buffer::new(10, 3);
    widget.render(&mut buffer);

    let cell = buffer.get(0, 0).unwrap();
    assert_eq!(cell.grapheme(), Some(String::from("L")));
}

#[test]
fn test_stream_fast_path_bytes() {
    // Three successive in-line appends; each takes the fast path and the
    // cursor ends at column 11 of row 0.
    let mut widget = StreamWidget::new(Rect::new(0, 0, 80, 24));

    let r1 = widget.append("Hel");
    let mut out1: Vec<u8> = Vec::new();
    widget.write_fast_path(r1, "Hel", &mut out1);
    let s1 = String::from_utf8_lossy(&out1).to_string();
    assert!(s1.starts_with("\x1b[1;1H"));
    assert!(s1.ends_with("Hel"));

    let r2 = widget.append("lo ");
    assert!(matches!(r2, AppendResult::FastPath { start_col: 3, row: 0, .. }));
    let r3 = widget.append("world");
    assert!(matches!(r3, AppendResult::FastPath { start_col: 6, row: 0, .. }));

    assert_eq!(widget.cursor_position(), (11, 0));
}

#[test]
fn test_stream_empty_append() {
    let mut widget = StreamWidget::new(Rect::new(0, 0, 80, 24));
    assert_eq!(widget.append(""), AppendResult::Empty);
    assert_eq!(widget.cursor_position(), (0, 0));
}

#[test]
fn test_status_bar_basic() {
    let mut bar = StatusBar::new(Rect::new(0, 0, 80, 1));

    bar.set_left(String::from("Left"));
    bar.set_center(String::from("Center"));
    bar.set_right(String::from("Right"));

    assert_eq!(bar.left(), "Left");
    assert_eq!(bar.center(), "Center");
    assert_eq!(bar.right(), "Right");
}

#[test]
fn test_status_bar_set_all() {
    let mut bar = StatusBar::new(Rect::new(0, 0, 80, 1));

    bar.set_all(String::from("A"), String::from("B"), String::from("C"));

    assert_eq!(bar.left(), "A");
    assert_eq!(bar.center(), "B");
    assert_eq!(bar.right(), "C");
}

#[test]
fn test_status_bar_render_sections() {
    let mut bar = StatusBar::new(Rect::new(0, 0, 20, 1));
    bar.set_all(String::from("L"), String::from("C"), String::from("R"));

    let mut buffer = Buffer::new(20, 1);
    bar.render(&mut buffer);

    assert_eq!(buffer.get_grapheme(0, 0), Some(String::from("L")));
    // One centered character in a width of 20 sits at column 9.
    assert_eq!(buffer.get_grapheme(9, 0), Some(String::from("C")));
    assert_eq!(buffer.get_grapheme(19, 0), Some(String::from("R")));
}

#[test]
fn test_text_input_basic() {
    let mut input = TextInput::new(Rect::new(0, 0, 80, 1));

    input.insert_char('H');
    input.insert_char('i');
    assert_eq!(input.content(), "Hi");
    assert_eq!(input.cursor(), 2);
}

#[test]
fn test_text_input_backspace() {
    let mut input = TextInput::new(Rect::new(0, 0, 80, 1));
    input.set_content("Hello");

    input.backspace();
    assert_eq!(input.content(), "Hell");
}

#[test]
fn test_text_input_cursor_movement() {
    let mut input = TextInput::new(Rect::new(0, 0, 80, 1));
    input.set_content("Hello");

    input.cursor_left();
    assert_eq!(input.cursor(), 4);

    input.cursor_home();
    assert_eq!(input.cursor(), 0);

    input.cursor_end();
    assert_eq!(input.cursor(), 5);
}

#[test]
fn test_fast_path_coherence() {
    // After a raw write, the next frame the renderer builds must be a
    // full redraw whose stream opens with hide-cursor then home.
    let mut core = RenderCore::new(10, 4);
    // Drain the initial full redraw.
    let _first = core.build_frame(0);

    let mut buf = Buffer::new(10, 4);
    buf.set_grapheme(1, 1, "A", Rgb::white(), Rgb::black());
    core.adopt_next(buf, false);
    core.on_raw_written(5);
    let frame = core.build_frame(0);
    assert!(frame.starts_with(b"\x1b[?25l\x1b[H"));
}

#[test]
fn test_render_core_diff_frame() {
    let mut core = RenderCore::new(10, 4);
    let _first = core.build_frame(0);

    let mut buf = Buffer::new(10, 4);
    buf.set_grapheme(0, 0, "A", Rgb::white(), Rgb::black());
    core.adopt_next(buf, false);
    let frame = core.build_frame(0);
    let s = String::from_utf8_lossy(&frame).to_string();
    // A diff frame: not a full redraw, but it carries the changed cell.
    assert!(!s.starts_with("\x1b[?25l\x1b[H\x1b"));
    assert!(s.contains('A'));
    let stats = core.stats();
    assert_eq!(stats.frames, 2);
}

#[test]
fn test_scroll_buffer_rewrap() {
    let mut buf = ScrollBuffer::new(100);
    buf.append(&text_to_cells("abcdefgh"));

    buf.rewrap(3);
    assert_eq!(buf.len(), 3);
    assert_eq!(line_text(&buf.get(0).unwrap()), "abc");
    assert_eq!(line_text(&buf.get(1).unwrap()), "def");
    assert_eq!(line_text(&buf.get(2).unwrap()), "gh");
    assert!(buf.get(0).unwrap().wrapped);
    assert!(buf.get(1).unwrap().wrapped);
    assert!(!buf.get(2).unwrap().wrapped);
    assert!(buf.at_bottom());

    // Widening re-merges the soft-wrapped rows into one logical line.
    buf.rewrap(20);
    assert_eq!(buf.len(), 1);
    assert_eq!(line_text(&buf.get(0).unwrap()), "abcdefgh");
}
