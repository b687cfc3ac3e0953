use flywheel::{Cell, Modifiers, Rgb};
use flywheel::cell::{BOLD, ITALIC, UNDERLINE};

#[test]
fn test_cell_size() {
    assert_eq!(std::mem::size_of::<Cell>(), 16);
}

#[test]
fn test_rgb_from_tuple() {
    let rgb = Rgb::new(255, 128, 0);
    assert_eq!(rgb.r, 255);
    assert_eq!(rgb.g, 128);
    assert_eq!(rgb.b, 0);
}

#[test]
fn test_rgb_from_hex() {
    let rgb = Rgb::from_u32(0xFF8000);
    assert_eq!(rgb.r, 255);
    assert_eq!(rgb.g, 128);
    assert_eq!(rgb.b, 0);
}

#[test]
fn test_cell_new_ascii() {
    let cell = Cell::new('A');
    assert_eq!(cell.grapheme(), Some(String::from("A")));
    assert_eq!(cell.display_width(), 1);
}

#[test]
fn test_cell_from_char_unicode() {
    let cell = Cell::from_char('日');
    assert_eq!(cell.grapheme(), Some(String::from("日")));
    assert_eq!(cell.display_width(), 2);
}

#[test]
fn test_cell_from_grapheme_fits() {
    let cell = Cell::from_grapheme("é").unwrap();
    assert_eq!(cell.grapheme(), Some(String::from("é")));
    assert_eq!(cell.display_width(), 1);
}

#[test]
fn test_cell_from_grapheme_overflow() {
    let result = Cell::from_grapheme("👨\u{200d}👩\u{200d}👧");
    assert!(result.is_none());
}

#[test]
fn test_cell_overflow() {
    let cell = Cell::overflow(42, 2);
    assert!(cell.is_overflow());
    assert_eq!(cell.overflow_index(), Some(42));
    assert_eq!(cell.grapheme(), None);
}

#[test]
fn test_cell_equality() {
    let a = Cell::new('A').with_fg(Rgb::new(255, 0, 0));
    let b = Cell::new('A').with_fg(Rgb::new(255, 0, 0));
    let c = Cell::new('A').with_fg(Rgb::new(0, 255, 0));

    assert_eq!(a, b);
    assert_ne!(a, c);
}

#[test]
fn test_cell_builder_pattern() {
    let cell = Cell::new('X')
        .with_fg(Rgb::new(255, 0, 0))
        .with_bg(Rgb::new(0, 0, 255))
        .with_modifiers(Modifiers::from_bits(BOLD).union(Modifiers::from_bits(ITALIC)));

    assert_eq!(cell.fg(), Rgb::new(255, 0, 0));
    assert_eq!(cell.bg(), Rgb::new(0, 0, 255));
    assert!(cell.modifiers().contains(Modifiers::from_bits(BOLD)));
    assert!(cell.modifiers().contains(Modifiers::from_bits(ITALIC)));
}

#[test]
fn test_modifiers_bitflags() {
    let mods = Modifiers::from_bits(BOLD).union(Modifiers::from_bits(UNDERLINE));
    assert!(mods.contains(Modifiers::from_bits(BOLD)));
    assert!(mods.contains(Modifiers::from_bits(UNDERLINE)));
    assert!(!mods.contains(Modifiers::from_bits(ITALIC)));
}

#[test]
fn test_cell_reset() {
    let mut cell = Cell::new('X').with_fg(Rgb::new(255, 0, 0));
    cell.reset();
    assert_eq!(cell, Cell::empty());
}

#[test]
fn test_wide_continuation() {
    let cont = Cell::wide_continuation();
    assert!(cont.is_wide_continuation());
    assert_eq!(cont.display_width(), 0);
}
