use apex_tux::Coord;
use apex_tux::FrameBuffer;
use apex_tux::Gif;
use apex_tux::Images;
use apex_tux::RgbaFrame;
use apex_tux::media::ImageRenderer;

/// A 2x2 RGBA frame: two dark pixels on the top row, two bright ones below,
/// all fully opaque.
fn two_tone_frame() -> RgbaFrame {
    let mut data = Vec::new();
    for value in [29u8, 29, 240, 240] {
        data.extend_from_slice(&[value, value, value, 255]);
    }
    RgbaFrame { width: 2, height: 2, data }
}

#[test]
fn gif_median_splits_the_histogram() {
    let frame = two_tone_frame();
    // Buckets 29 and 240 hold two opaque pixels each; half of 4 is 2, so the
    // cumulative count reaches 2 at bucket 29.
    assert_eq!(Gif::calculate_median_color_value(&frame, 2, 2), 29);
}

#[test]
fn gif_median_of_an_empty_area_is_one() {
    let frame = two_tone_frame();
    assert_eq!(Gif::calculate_median_color_value(&frame, 0, 0), 1);
}

#[test]
fn gif_transparent_pixels_do_not_count() {
    // The dark pixels are fully transparent: only the bright bucket counts,
    // and the cumulative count reaches half (2) only at bucket 240.
    let mut data = Vec::new();
    for (value, alpha) in [(29u8, 0u8), (29, 0), (240, 255), (240, 255)] {
        data.extend_from_slice(&[value, value, value, alpha]);
    }
    let frame = RgbaFrame { width: 2, height: 2, data };
    assert_eq!(Gif::calculate_median_color_value(&frame, 2, 2), 240);
}

#[test]
fn gif_read_frame_packs_one_bit_per_pixel() {
    let frame = two_tone_frame();
    // Median 29: dark pixels have mean 9*3 = 27 < 29 (off), bright pixels
    // 80*3 = 240 >= 29 (on).
    let packed = Gif::read_frame(&frame, 2, 2);
    assert_eq!(packed, vec![0b0000_0000, 0b1100_0000]);
}

#[test]
fn gif_read_frame_cuts_at_the_frame_size() {
    let frame = two_tone_frame();
    // Asking for a 10x3 area of a 2x2 frame: rows cut to 2, each packing to
    // two bytes. The sampled 2x2 area cannot reach half of the nominal 30
    // pixels, so the median falls back to 1 and every sampled pixel is lit;
    // columns beyond the frame stay dark.
    let packed = Gif::read_frame(&frame, 3, 10);
    assert_eq!(packed.len(), 2 * 2);
    assert_eq!(packed, vec![0b1100_0000, 0, 0b1100_0000, 0]);
}

#[test]
fn image_median_weights_by_alpha() {
    let frame = two_tone_frame();
    assert_eq!(ImageRenderer::calculate_median_color_value(&frame, 2, 2), 29);
}

#[test]
fn image_read_image_matches_the_gif_packing() {
    let frame = two_tone_frame();
    assert_eq!(ImageRenderer::read_image(&frame, 2, 2), vec![0b0000_0000, 0b1100_0000]);
}

fn gif_of(frames: Vec<Vec<u8>>, delays: Vec<u16>, width: i32) -> Gif {
    Gif {
        origin: Coord { x: 0, y: 0 },
        stop: Coord { x: width, y: 40 },
        decoded_frames: frames,
        current_frame: 0,
        delays,
    }
}

#[test]
fn gif_draw_blits_the_current_frame() {
    let gif = gif_of(vec![vec![0b1010_0000]], vec![10], 8);
    let mut fb = FrameBuffer::new();
    gif.draw(&mut fb);
    assert!(fb.read_pixel(0, 0));
    assert!(!fb.read_pixel(1, 0));
    assert!(fb.read_pixel(2, 0));
    assert!(!fb.read_pixel(3, 0));
}

#[test]
fn gif_advances_only_when_the_delay_elapsed() {
    // Delays are in 10 ms gif units.
    let mut gif = gif_of(vec![vec![0x00], vec![0xFF]], vec![5, 5], 8);
    assert!(!gif.advance_if_due(49));
    assert_eq!(gif.current_frame, 0);
    assert!(!gif.advance_if_due(50));
    assert_eq!(gif.current_frame, 1);
    // Advancing past the last frame wraps and reports the end.
    assert!(gif.advance_if_due(50));
    assert_eq!(gif.current_frame, 0);
}

#[test]
fn image_renderer_advances_in_milliseconds() {
    let mut image = ImageRenderer {
        origin: Coord { x: 0, y: 0 },
        stop: Coord { x: 8, y: 40 },
        decoded_frames: vec![vec![0x00], vec![0xFF]],
        current_frame: 0,
        delays: vec![16, 16],
    };
    assert!(!image.advance_if_due(15));
    assert!(!image.advance_if_due(16));
    assert_eq!(image.current_frame, 1);
}

#[test]
fn images_move_to_the_next_image_when_one_ends() {
    let first = gif_of(vec![vec![0xFF]], vec![1], 8);
    let second = gif_of(vec![vec![0x00]], vec![1], 8);
    let mut images = Images { renderers: vec![first, second], current_image: 0 };
    let mut fb = FrameBuffer::new();
    // The single-frame animation ends immediately, so the rotation advances.
    images.render(&mut fb, 100);
    assert_eq!(images.current_image, 1);
    assert!(fb.read_pixel(0, 0));
    // And wraps back around after the second one ends.
    images.render(&mut fb, 100);
    assert_eq!(images.current_image, 0);
}

#[test]
fn move_image_shifts_onto_a_blank_canvas() {
    // A 1x1 image with a distinctive pixel, moved to (2, 1) on a 4x3 canvas.
    let image = RgbaFrame { width: 1, height: 1, data: vec![10, 20, 30, 40] };
    let moved = ImageRenderer::move_image(&image, Coord { x: 2, y: 1 }, Coord { x: 4, y: 3 });
    assert_eq!(moved.width, 4);
    assert_eq!(moved.height, 3);
    assert_eq!(moved.data.len(), 4 * 4 * 3);
    let cell = |x: usize, y: usize| -> &[u8] {
        let start = (y * 4 + x) * 4;
        &moved.data[start..start + 4]
    };
    assert_eq!(cell(2, 1), &[10, 20, 30, 40]);
    assert_eq!(cell(0, 0), &[0, 0, 0, 0]);
    assert_eq!(cell(3, 2), &[0, 0, 0, 0]);
    assert_eq!(cell(1, 1), &[0, 0, 0, 0]);
}

#[test]
fn move_image_drops_pixels_shifted_before_the_edge() {
    // A 2x1 image shifted one column left: only its second pixel survives.
    let image = RgbaFrame { width: 2, height: 1, data: vec![1, 1, 1, 1, 2, 2, 2, 2] };
    let moved = ImageRenderer::move_image(&image, Coord { x: -1, y: 0 }, Coord { x: 2, y: 1 });
    assert_eq!(&moved.data[0..4], &[2, 2, 2, 2]);
    assert_eq!(&moved.data[4..8], &[0, 0, 0, 0]);
}

#[test]
fn center_image_splits_the_margin_evenly() {
    let image = RgbaFrame { width: 2, height: 2, data: vec![7; 16] };
    let centered = ImageRenderer::center_image(&image, Coord { x: 6, y: 4 });
    assert_eq!(centered.width, 6);
    assert_eq!(centered.height, 4);
    // Offset is ((6-2)/2, (4-2)/2) = (2, 1).
    let cell = |x: usize, y: usize| -> u8 { centered.data[(y * 6 + x) * 4] };
    assert_eq!(cell(2, 1), 7);
    assert_eq!(cell(3, 2), 7);
    assert_eq!(cell(1, 1), 0);
    assert_eq!(cell(4, 3), 0);
}
