use apex_tux::Area;
use apex_tux::Coord;
use apex_tux::FrameBuffer;
use apex_tux::PixelUpdate;
use apex_tux::ScrollableBuilder;
use apex_tux::StatefulScrollable;
use apex_tux::TextError;

fn glyph(x: i32, y: i32) -> PixelUpdate {
    PixelUpdate { x, y, on: true }
}

#[test]
fn measured_canvas_is_six_per_char_plus_spacing() {
    // Relies on the 6 x 10 font metric the builder measures with.
    let s = ScrollableBuilder::new().with_text("foo").build(&vec![]).unwrap();
    assert_eq!(s.canvas.width(), 3 * 6 + 5);
    assert_eq!(s.canvas.height(), 10);
}

#[test]
fn custom_spacing_widens_the_canvas() {
    let s = ScrollableBuilder::new()
        .with_text("ab")
        .with_custom_spacing(10)
        .build(&vec![])
        .unwrap();
    assert_eq!(s.canvas.width(), 2 * 6 + 10);
}

#[test]
fn empty_text_with_zero_spacing_is_refused() {
    let r = ScrollableBuilder::new().with_text("").with_custom_spacing(0).build(&vec![]);
    assert_eq!(r.unwrap_err(), TextError::ZeroWidth);
}

#[test]
fn projection_taller_than_canvas_is_refused() {
    let r = ScrollableBuilder::new()
        .with_text("x")
        .with_projection(Area { width: 5, height: 11 })
        .build(&vec![]);
    assert_eq!(r.unwrap_err(), TextError::ProjectionTooTall);
}

fn render(s: &apex_tux::Scrollable, tick: u32) -> Vec<u8> {
    let mut fb = FrameBuffer::new();
    s.at_tick(&mut fb, tick);
    fb.as_bytes().clone()
}

#[test]
fn output_is_periodic_in_the_canvas_width() {
    // "ab" with spacing 5: canvas is 17 columns wide.
    let s = ScrollableBuilder::new()
        .with_text("ab")
        .with_projection(Area { width: 5, height: 10 })
        .build(&vec![glyph(0, 0), glyph(6, 0), glyph(16, 9)])
        .unwrap();
    assert_eq!(s.canvas.width(), 17);
    for tick in [0u32, 1, 3, 9, 16] {
        assert_eq!(render(&s, tick), render(&s, tick + 17));
        assert_eq!(render(&s, tick), render(&s, tick + 34));
    }
}

#[test]
fn wide_projection_renders_statically() {
    // Projection as wide as the canvas: every tick draws the same pixels.
    let s = ScrollableBuilder::new()
        .with_text("ab")
        .build(&vec![glyph(0, 0), glyph(6, 3)])
        .unwrap();
    let zero = render(&s, 0);
    for tick in [1u32, 2, 7, 16, 100, 12345] {
        assert_eq!(render(&s, tick), zero);
    }
}

#[test]
fn window_wraps_seamlessly_past_the_canvas_edge() {
    // Canvas 17 wide; lit columns 0 and 16 of row 0.
    let s = ScrollableBuilder::new()
        .with_text("ab")
        .with_projection(Area { width: 5, height: 10 })
        .build(&vec![glyph(0, 0), glyph(16, 0)])
        .unwrap();
    // At tick 15 the window shows canvas columns 15, 16, 0, 1, 2.
    let mut fb = FrameBuffer::new();
    s.at_tick(&mut fb, 15);
    assert!(!fb.read_pixel(0, 0)); // canvas col 15
    assert!(fb.read_pixel(1, 0)); // canvas col 16
    assert!(fb.read_pixel(2, 0)); // canvas col 0, wrapped
    assert!(!fb.read_pixel(3, 0)); // canvas col 1
}

#[test]
fn position_offsets_the_projection() {
    let s = ScrollableBuilder::new()
        .with_text("a")
        .with_position(Coord { x: 10, y: 5 })
        .build(&vec![glyph(0, 0)])
        .unwrap();
    let mut fb = FrameBuffer::new();
    s.at_tick(&mut fb, 0);
    assert!(fb.read_pixel(10, 5));
    assert!(!fb.read_pixel(0, 0));
}

#[test]
fn scroll_advances_by_one_column() {
    let mut s = ScrollableBuilder::new().with_text("a").build(&vec![]).unwrap();
    assert_eq!(s.scroll, 0);
    s.scroll();
    assert_eq!(s.scroll, 1);
    s.scroll();
    assert_eq!(s.scroll, 2);
}

#[test]
fn update_rebuilds_only_on_changed_text() {
    let builder = ScrollableBuilder::new().with_text("one");
    let mut stateful = StatefulScrollable::from_builder(builder, &vec![]).unwrap();
    stateful.text.scroll();
    // Same text: no rebuild, scroll kept.
    assert_eq!(stateful.update("one", &vec![]).unwrap(), false);
    assert_eq!(stateful.text.scroll, 1);
    // New text: rebuilt, scroll reset, canvas resized.
    assert_eq!(stateful.update("three", &vec![]).unwrap(), true);
    assert_eq!(stateful.text.scroll, 0);
    assert_eq!(stateful.text.canvas.width(), 5 * 6 + 5);
}
