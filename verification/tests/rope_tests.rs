use flywheel::{Cell, RopeBuffer, ChunkedLine};
use flywheel::rope::CHUNK_SIZE;

#[test]
fn test_rope_buffer_basic() {
    let mut buffer = RopeBuffer::new(1000);

    assert_eq!(buffer.len(), 1);

    buffer.append(&vec![Cell::new('H'), Cell::new('i')]);
    assert_eq!(buffer.current_line().unwrap().len(), 2);

    buffer.newline();
    assert_eq!(buffer.len(), 2);
}

#[test]
fn test_rope_buffer_chunks() {
    let mut buffer = RopeBuffer::unbounded();

    for i in 0..200u32 {
        buffer.newline();
        let c = char::from_u32(('a' as u32) + (i % 26)).unwrap();
        buffer.append(&vec![Cell::from_char(c)]);
    }

    assert!(buffer.chunk_count() > 1);
    assert_eq!(buffer.len(), 201);
}

#[test]
fn test_rope_buffer_max_lines() {
    let mut buffer = RopeBuffer::new(100);

    for _ in 0..200 {
        buffer.newline();
    }

    assert!(buffer.len() <= 100 + CHUNK_SIZE);
}

#[test]
fn test_rope_buffer_scroll() {
    let mut buffer = RopeBuffer::new(1000);

    for _ in 0..50 {
        buffer.newline();
    }

    assert_eq!(buffer.scroll_offset(), 0);

    buffer.scroll_up(10);
    assert_eq!(buffer.scroll_offset(), 10);

    buffer.scroll_down(5);
    assert_eq!(buffer.scroll_offset(), 5);

    buffer.scroll_to_bottom();
    assert_eq!(buffer.scroll_offset(), 0);
}

#[test]
fn test_rope_buffer_visible_lines() {
    let mut buffer = RopeBuffer::new(1000);

    for i in 0..20u32 {
        let c = char::from_u32('a' as u32 + i).unwrap();
        buffer.append(&vec![Cell::from_char(c)]);
        buffer.newline();
    }

    let visible = buffer.visible_lines(10);
    assert_eq!(visible.len(), 10);
}

#[test]
fn test_rope_buffer_memory_stats() {
    let mut buffer = RopeBuffer::new(1000);

    for _ in 0..100 {
        buffer.append(&vec![Cell::new('x'); 80]);
        buffer.newline();
    }

    let stats = buffer.memory_stats();
    assert_eq!(stats.lines, 101);
    assert_eq!(stats.cells, 8000);
    assert!(stats.bytes_estimated > 0);
}

#[test]
fn test_rope_retention_keeps_newest() {
    let mut buffer = RopeBuffer::new(100);

    // Push 300 numbered lines past the cap of 100.
    for i in 0..300u32 {
        let digits: Vec<Cell> = format!("{i}").chars().map(Cell::from_char).collect();
        buffer.push_line(ChunkedLine::new(digits, false));
    }

    // At most the cap survives, and less than one chunk below it is lost.
    let n = buffer.len();
    assert!(n <= 100);
    assert!(n + CHUNK_SIZE > 100);

    // The survivors are exactly the newest pushes: the last line is "299".
    let last = buffer.get_line(n - 1).unwrap();
    let text: String = last
        .content
        .iter()
        .map(|c| c.grapheme().unwrap_or_default())
        .collect();
    assert_eq!(text, "299");
    // And the first surviving line is the one `n - 1` before it.
    let first = buffer.get_line(0).unwrap();
    let text0: String = first
        .content
        .iter()
        .map(|c| c.grapheme().unwrap_or_default())
        .collect();
    assert_eq!(text0, format!("{}", 300 - n));
}
