use xenon_rt::widget::{
    color_to_wasm, stroke_align_to_wasm, BinaryColor, StrokeAlign, WidgetBuffer, BUFFER_HEIGHT,
    BUFFER_WIDTH, BYTES_PER_LINE,
};

#[test]
fn new_buffer_is_all_ones_and_clean() {
    let w = WidgetBuffer::new();
    for n in 0..BUFFER_HEIGHT as usize {
        assert_eq!(w.get_line(n), &[0xffu8; 18][..]);
    }
    assert!(!w.needs_refresh());
    assert!(!w.needs_clear());
}

#[test]
fn index_and_bit_formula() {
    assert_eq!(WidgetBuffer::get_index_and_bit(0, 0), (0, 0));
    assert_eq!(WidgetBuffer::get_index_and_bit(3, 5), (90, 3));
    assert_eq!(WidgetBuffer::get_index_and_bit(143, 167), (3023, 7));
}

#[test]
fn set_pixel_clears_exactly_one_bit() {
    let mut w = WidgetBuffer::new();
    w.set_pixel(3, 5, BinaryColor::On);
    let line = w.get_line(5);
    assert_eq!(line[0], 0xff & !(1u8 << 3));
    for j in 1..BYTES_PER_LINE {
        assert_eq!(line[j], 0xff);
    }
    assert_eq!(w.get_line(4), &[0xffu8; 18][..]);
    assert_eq!(w.get_line(6), &[0xffu8; 18][..]);
    assert!(w.needs_refresh());
    // Setting it back off restores the byte.
    w.set_pixel(3, 5, BinaryColor::Off);
    assert_eq!(w.get_line(5), &[0xffu8; 18][..]);
}

#[test]
fn set_pixel_outside_display_is_ignored() {
    let mut w = WidgetBuffer::new();
    w.set_pixel(-1, 5, BinaryColor::On);
    w.set_pixel(5, -1, BinaryColor::On);
    w.set_pixel(BUFFER_WIDTH as i32, 5, BinaryColor::On);
    w.set_pixel(5, BUFFER_HEIGHT as i32, BinaryColor::On);
    w.set_pixel(100000, 100000, BinaryColor::On);
    for n in 0..BUFFER_HEIGHT as usize {
        assert_eq!(w.get_line(n), &[0xffu8; 18][..]);
    }
    assert!(!w.needs_refresh());
}

#[test]
fn fill_marks_everything_dirty() {
    let mut w = WidgetBuffer::new();
    w.fill(0x00);
    for n in 0..BUFFER_HEIGHT as usize {
        assert_eq!(w.get_line(n), &[0x00u8; 18][..]);
    }
    assert!(w.needs_refresh());
    assert!(!w.needs_clear());
}

#[test]
fn clear_requests_full_display_clear() {
    let mut w = WidgetBuffer::new();
    w.set_pixel(0, 0, BinaryColor::On);
    w.clear();
    assert!(w.needs_clear());
    assert!(!w.needs_refresh());
    assert_eq!(w.get_line(0), &[0xffu8; 18][..]);
    // Drawing after a clear cancels the pending clear.
    w.set_pixel(0, 0, BinaryColor::On);
    assert!(!w.needs_clear());
    assert!(w.needs_refresh());
}

#[test]
fn refreshed_resets_dirty_tracking() {
    let mut w = WidgetBuffer::new();
    w.set_pixel(7, 9, BinaryColor::On);
    assert!(w.needs_refresh());
    w.refreshed();
    assert!(!w.needs_refresh());
    assert!(!w.needs_clear());
    // The pixels themselves stay.
    assert_eq!(w.get_line(9)[0], 0xff & !(1u8 << 7));
}

#[test]
fn set_line_and_get_line_round_trip() {
    let mut w = WidgetBuffer::new();
    let pattern: Vec<u8> = (0..18u8).collect();
    w.set_line(42, &pattern);
    assert_eq!(w.get_line(42), &pattern[..]);
    assert_eq!(w.get_line(41), &[0xffu8; 18][..]);
    assert_eq!(w.get_line(43), &[0xffu8; 18][..]);
}

#[test]
fn copy_from_buffer_copies_contents_and_flags() {
    let mut a = WidgetBuffer::new();
    let mut b = WidgetBuffer::new();
    a.set_pixel(10, 20, BinaryColor::On);
    b.copy_from_buffer(&a);
    assert_eq!(b.get_line(20), a.get_line(20));
    assert_eq!(b.needs_refresh(), a.needs_refresh());
    assert_eq!(b.needs_clear(), a.needs_clear());
}

#[test]
fn draw_style_wire_codes() {
    assert_eq!(color_to_wasm(None), 0);
    assert_eq!(color_to_wasm(Some(BinaryColor::Off)), 1);
    assert_eq!(color_to_wasm(Some(BinaryColor::On)), 2);
    assert_eq!(stroke_align_to_wasm(StrokeAlign::Inside), 0);
    assert_eq!(stroke_align_to_wasm(StrokeAlign::Center), 1);
    assert_eq!(stroke_align_to_wasm(StrokeAlign::Outside), 2);
}
