use apex_tux::FrameBuffer;
use apex_tux::PixelUpdate;

#[test]
fn new_buffer_has_header_and_every_pixel_off() {
    let fb = FrameBuffer::new();
    let bytes = fb.as_bytes();
    assert_eq!(bytes.len(), 642);
    assert_eq!(bytes[0], 0x61);
    assert_eq!(bytes[641], 0);
    for y in 0..40 {
        for x in 0..128 {
            assert!(!fb.read_pixel(x, y));
        }
    }
}

#[test]
fn write_then_read_returns_written_value() {
    let mut fb = FrameBuffer::new();
    for y in 0..40 {
        for x in 0..128 {
            fb.draw_pixel(x, y, true);
            assert!(fb.read_pixel(x, y));
            fb.draw_pixel(x, y, false);
            assert!(!fb.read_pixel(x, y));
        }
    }
}

#[test]
fn out_of_range_writes_are_no_ops() {
    let mut fb = FrameBuffer::new();
    fb.draw_pixel(5, 5, true);
    let before = fb.as_bytes().clone();
    fb.draw_pixel(-1, 5, true);
    fb.draw_pixel(128, 5, true);
    fb.draw_pixel(5, -1, true);
    fb.draw_pixel(5, 40, true);
    fb.draw_pixel(i32::MIN, i32::MAX, true);
    assert_eq!(fb.as_bytes(), &before);
    assert_eq!(fb.as_bytes()[0], 0x61);
    assert_eq!(fb.as_bytes()[641], 0);
}

#[test]
fn writes_never_corrupt_neighbours() {
    let mut fb = FrameBuffer::new();
    fb.draw_pixel(8, 0, true);
    assert!(fb.read_pixel(8, 0));
    assert!(!fb.read_pixel(7, 0));
    assert!(!fb.read_pixel(9, 0));
    assert!(!fb.read_pixel(8, 1));
    assert_eq!(fb.as_bytes()[0], 0x61);
    assert_eq!(fb.as_bytes()[641], 0);
}

#[test]
fn pixel_maps_to_documented_bit_offset() {
    let mut fb = FrameBuffer::new();
    fb.draw_pixel(0, 0, true);
    assert_eq!(fb.as_bytes()[1], 0x80);
    let mut fb2 = FrameBuffer::new();
    fb2.draw_pixel(7, 0, true);
    assert_eq!(fb2.as_bytes()[1], 0x01);
    let mut fb3 = FrameBuffer::new();
    fb3.draw_pixel(0, 1, true);
    assert_eq!(fb3.as_bytes()[17], 0x80);
}

#[test]
fn later_update_to_same_pixel_wins() {
    let mut fb = FrameBuffer::new();
    let updates = vec![
        PixelUpdate { x: 3, y: 3, on: true },
        PixelUpdate { x: 4, y: 3, on: true },
        PixelUpdate { x: 3, y: 3, on: false },
    ];
    fb.draw_pixels(&updates);
    assert!(!fb.read_pixel(3, 3));
    assert!(fb.read_pixel(4, 3));
}

#[test]
fn filled_buffer_lights_every_pixel() {
    let fb = FrameBuffer::filled();
    for y in 0..40 {
        for x in 0..128 {
            assert!(fb.read_pixel(x, y));
        }
    }
    assert_eq!(fb.as_bytes()[0], 0x61);
}

#[test]
fn duplicate_copies_all_bytes() {
    let mut fb = FrameBuffer::new();
    fb.draw_pixel(10, 20, true);
    let copy = fb.duplicate();
    assert_eq!(copy.as_bytes(), fb.as_bytes());
}

#[test]
fn draw_packed_blits_rows_at_origin() {
    let mut fb = FrameBuffer::new();
    // Two rows of an 8-wide image: 1010_0000 and 0100_0000.
    let data = vec![0b1010_0000u8, 0b0100_0000u8];
    fb.draw_packed(2, 1, &data, 8);
    assert!(fb.read_pixel(2, 1));
    assert!(!fb.read_pixel(3, 1));
    assert!(fb.read_pixel(4, 1));
    assert!(!fb.read_pixel(5, 1));
    assert!(!fb.read_pixel(2, 2));
    assert!(fb.read_pixel(3, 2));
    // Outside the image rectangle nothing changed.
    assert!(!fb.read_pixel(1, 1));
    assert!(!fb.read_pixel(2, 3));
}
