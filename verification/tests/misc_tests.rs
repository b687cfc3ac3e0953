use flywheel::{Rect, Region, RegionId, Layout, KeyModifiers, OutputBuffer, Rgb, EngineConfig};
use flywheel::{Buffer, Cell, DiffState, Modifiers, render_full_diff};
use flywheel::cell::{BOLD, UNDERLINE};

#[test]
fn test_rect_geometry() {
    let r = Rect::new(2, 3, 10, 4);
    assert_eq!(r.right(), 12);
    assert_eq!(r.bottom(), 7);
    assert_eq!(r.area(), 40);
    assert!(r.contains(2, 3));
    assert!(r.contains(11, 6));
    assert!(!r.contains(12, 3));
    assert!(!r.is_empty());
    assert!(Rect::new(0, 0, 0, 5).is_empty());
}

#[test]
fn test_rect_split() {
    let r = Rect::new(0, 0, 10, 6);
    let (left, right) = r.split_horizontal(4);
    assert_eq!(left, Rect::new(0, 0, 4, 6));
    assert_eq!(right, Rect::new(4, 0, 6, 6));
    let (top, bottom) = r.split_vertical(2);
    assert_eq!(top, Rect::new(0, 0, 10, 2));
    assert_eq!(bottom, Rect::new(0, 2, 10, 4));
}

#[test]
fn test_rect_intersects_and_shrink() {
    let a = Rect::new(0, 0, 5, 5);
    let b = Rect::new(4, 4, 5, 5);
    let c = Rect::new(5, 5, 2, 2);
    assert!(a.intersects(&b));
    assert!(!a.intersects(&c));
    assert_eq!(a.shrink(1), Rect::new(1, 1, 3, 3));
    assert_eq!(a.shrink(3), Rect::new(0, 0, 0, 0));
}

#[test]
fn test_layout_regions() {
    let mut layout = Layout::new(80, 24);
    layout.add_region(Region::new(RegionId::new(1), Rect::new(0, 0, 80, 1)));
    layout.add_region(Region::new(RegionId::new(2), Rect::new(0, 1, 80, 23)).with_z_index(3));

    assert_eq!(layout.get(RegionId::new(2)).unwrap().z_index, 3);
    assert!(layout.get(RegionId::new(9)).is_none());
    assert_eq!(layout.dirty_regions().len(), 0);

    let mut r = layout.get(RegionId::new(1)).unwrap();
    r.mark_dirty();
    layout.set(RegionId::new(1), r);
    assert_eq!(layout.dirty_regions().len(), 1);

    layout.clear_dirty();
    assert_eq!(layout.dirty_regions().len(), 0);
}

#[test]
fn test_key_modifiers_any() {
    let none = KeyModifiers::none();
    assert!(!none.any());
    let shift = KeyModifiers { shift: true, control: false, alt: false, super_key: false };
    assert!(shift.any());
}

#[test]
fn test_engine_config_default() {
    let cfg = EngineConfig::default();
    assert_eq!(cfg.target_fps, 60);
    assert_eq!(cfg.input_poll_timeout_ms, 10);
    assert!(!cfg.enable_mouse);
    assert!(cfg.alternate_screen);
}

#[test]
fn test_output_buffer_sequences() {
    let mut out = OutputBuffer::new();
    assert!(out.is_empty());
    out.cursor_move(10, 5);
    out.set_fg(Rgb::new(1, 2, 3));
    out.set_bg(Rgb::new(4, 5, 6));
    out.reset_attrs();
    out.cursor_hide();
    out.cursor_show();
    out.clear_screen();
    out.write_str("ok");
    let s = String::from_utf8_lossy(out.as_bytes()).to_string();
    assert_eq!(
        s,
        "\x1b[6;11H\x1b[38;2;1;2;3m\x1b[48;2;4;5;6m\x1b[0m\x1b[?25l\x1b[?25h\x1b[2Jok"
    );
    let n = out.len();
    assert!(n > 0);
    out.clear();
    assert!(out.is_empty());
}

#[test]
fn test_modifier_sequences_on_diff() {
    let a = Buffer::new(5, 1);
    let mut b = Buffer::new(5, 1);
    b.set(
        0,
        0,
        Cell::new('x').with_modifiers(Modifiers::from_bits(BOLD).union(Modifiers::from_bits(
            UNDERLINE,
        ))),
    );

    let mut output: Vec<u8> = Vec::new();
    let mut state = DiffState::new();
    let result = render_full_diff(&a, &b, &mut output, &mut state);

    let s = String::from_utf8_lossy(&output).to_string();
    // Bold then underline, in the fixed wire order.
    assert!(s.contains("\x1b[1m\x1b[4m"));
    assert_eq!(result.modifier_changes, 1);
}
