use flywheel::{Buffer, Cell, Rgb};

#[test]
fn test_buffer_new() {
    let buffer = Buffer::new(80, 24);
    assert_eq!(buffer.width(), 80);
    assert_eq!(buffer.height(), 24);
    assert_eq!(buffer.len(), 80 * 24);
}

#[test]
fn test_buffer_get_set() {
    let mut buffer = Buffer::new(80, 24);
    let cell = Cell::new('X');
    assert!(buffer.set(5, 10, cell));
    assert_eq!(buffer.get(5, 10).unwrap().grapheme(), Some(String::from("X")));
}

#[test]
fn test_buffer_bounds() {
    let buffer = Buffer::new(80, 24);
    assert!(buffer.get(79, 23).is_some());
    assert!(buffer.get(80, 23).is_none());
    assert!(buffer.get(79, 24).is_none());
}

#[test]
fn test_buffer_index_coords() {
    let buffer = Buffer::new(80, 24);
    assert_eq!(buffer.index_of(5, 10), Some(10 * 80 + 5));
    assert_eq!(buffer.coords_of(10 * 80 + 5), Some((5, 10)));
}

#[test]
fn test_buffer_set_grapheme() {
    let mut buffer = Buffer::new(80, 24);

    let width = buffer.set_grapheme(0, 0, "A", Rgb::white(), Rgb::black());
    assert_eq!(width, 1);
    assert_eq!(buffer.get_grapheme(0, 0), Some(String::from("A")));

    let width = buffer.set_grapheme(5, 0, "日", Rgb::white(), Rgb::black());
    assert_eq!(width, 2);
    assert_eq!(buffer.get_grapheme(5, 0), Some(String::from("日")));
    assert!(buffer.get(6, 0).unwrap().is_wide_continuation());
}

#[test]
fn test_buffer_overflow() {
    let mut buffer = Buffer::new(80, 24);

    let emoji = "👨\u{200d}👩\u{200d}👧\u{200d}👦";
    let width = buffer.set_grapheme(0, 0, emoji, Rgb::white(), Rgb::black());
    assert!(width > 0);
    assert!(buffer.get(0, 0).unwrap().is_overflow());
    assert_eq!(buffer.get_grapheme(0, 0), Some(String::from(emoji)));
}

#[test]
fn test_buffer_fill_rect() {
    let mut buffer = Buffer::new(80, 24);
    let cell = Cell::new('X');
    buffer.fill_rect(10, 5, 3, 2, cell);

    assert_eq!(buffer.get(10, 5).unwrap().grapheme(), Some(String::from("X")));
    assert_eq!(buffer.get(11, 5).unwrap().grapheme(), Some(String::from("X")));
    assert_eq!(buffer.get(12, 5).unwrap().grapheme(), Some(String::from("X")));
    assert_eq!(buffer.get(10, 6).unwrap().grapheme(), Some(String::from("X")));
    assert_eq!(buffer.get(9, 5).unwrap().grapheme(), Some(String::from(" ")));
}

#[test]
fn test_buffer_clear() {
    let mut buffer = Buffer::new(80, 24);
    buffer.set(5, 5, Cell::new('X'));
    buffer.clear();
    assert_eq!(buffer.get(5, 5), Some(Cell::empty()));
}

#[test]
fn test_buffer_resize() {
    let mut buffer = Buffer::new(80, 24);
    buffer.set(5, 5, Cell::new('X'));

    buffer.resize(100, 30);
    assert_eq!(buffer.width(), 100);
    assert_eq!(buffer.height(), 30);
    assert_eq!(buffer.get(5, 5).unwrap().grapheme(), Some(String::from("X")));

    buffer.resize(10, 10);
    assert_eq!(buffer.get(5, 5).unwrap().grapheme(), Some(String::from("X")));
    assert!(buffer.get(15, 15).is_none());
}

#[test]
fn test_buffer_swap() {
    let mut a = Buffer::new(80, 24);
    let mut b = Buffer::new(80, 24);

    a.set(0, 0, Cell::new('A'));
    b.set(0, 0, Cell::new('B'));

    a.swap(&mut b);

    assert_eq!(a.get(0, 0).unwrap().grapheme(), Some(String::from("B")));
    assert_eq!(b.get(0, 0).unwrap().grapheme(), Some(String::from("A")));
}

#[test]
fn test_buffer_memory_usage() {
    let buffer = Buffer::new(200, 50);
    let usage = buffer.memory_usage();
    assert!(usage >= 160_000);
    assert!(usage < 200_000);
}

#[test]
fn test_round_trip_distinct_positions() {
    let mut buffer = Buffer::new(20, 4);
    buffer.set_grapheme(0, 0, "a", Rgb::white(), Rgb::black());
    buffer.set_grapheme(3, 1, "日", Rgb::white(), Rgb::black());
    buffer.set_grapheme(7, 2, "👨\u{200d}👩\u{200d}👧\u{200d}👦", Rgb::white(), Rgb::black());
    buffer.set_grapheme(1, 0, "é", Rgb::white(), Rgb::black());

    assert_eq!(buffer.get_grapheme(0, 0), Some(String::from("a")));
    assert_eq!(buffer.get_grapheme(3, 1), Some(String::from("日")));
    assert_eq!(
        buffer.get_grapheme(7, 2),
        Some(String::from("👨\u{200d}👩\u{200d}👧\u{200d}👦"))
    );
    assert_eq!(buffer.get_grapheme(1, 0), Some(String::from("é")));
}

#[test]
fn test_continuation_cell_of_wide_grapheme() {
    let mut buffer = Buffer::new(10, 2);
    let width = buffer.set_grapheme(5, 0, "日", Rgb::white(), Rgb::black());
    assert_eq!(width, 2);
    let next = buffer.get(6, 0).unwrap();
    assert!(next.is_wide_continuation());
    assert_eq!(next.display_width(), 0);
    assert_eq!(buffer.get_grapheme(6, 0), None);
}
