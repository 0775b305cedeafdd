use apex_tux::Icon;
use apex_tux::NotificationBuilder;
use apex_tux::NotificationError;
use apex_tux::NotificationKind;
use apex_tux::PixelUpdate;
use apex_tux::notifications::classify_notification;

fn px(x: i32, y: i32) -> PixelUpdate {
    PixelUpdate { x, y, on: true }
}

/// A minimal valid 24-bit 2x2 top-down BMP: white at (0,0) and (1,1), black
/// elsewhere.
fn tiny_bmp() -> Vec<u8> {
    let mut b: Vec<u8> = Vec::new();
    // File header.
    b.extend_from_slice(&[0x42, 0x4D]); // "BM"
    b.extend_from_slice(&70u32.to_le_bytes()); // file size
    b.extend_from_slice(&[0, 0, 0, 0]); // reserved
    b.extend_from_slice(&54u32.to_le_bytes()); // pixel data offset
    // Info header.
    b.extend_from_slice(&40u32.to_le_bytes()); // header size
    b.extend_from_slice(&2i32.to_le_bytes()); // width
    b.extend_from_slice(&(-2i32).to_le_bytes()); // negative height: top-down rows
    b.extend_from_slice(&1u16.to_le_bytes()); // planes
    b.extend_from_slice(&24u16.to_le_bytes()); // bits per pixel
    b.extend_from_slice(&0u32.to_le_bytes()); // compression: none
    b.extend_from_slice(&16u32.to_le_bytes()); // image data size
    b.extend_from_slice(&[0; 16]); // resolution + palette info
    // Top row: (0,0) white, (1,0) black, two pad bytes.
    b.extend_from_slice(&[0xFF, 0xFF, 0xFF, 0x00, 0x00, 0x00, 0x00, 0x00]);
    // Bottom row: (0,1) black, (1,1) white, two pad bytes.
    b.extend_from_slice(&[0x00, 0x00, 0x00, 0xFF, 0xFF, 0xFF, 0x00, 0x00]);
    b
}

#[test]
fn bmp_decode_reads_size_and_pixels() {
    let icon = Icon::decode(&tiny_bmp()).expect("the bytes are a valid BMP");
    assert_eq!(icon.width, 2);
    assert_eq!(icon.height, 2);
    let lit = |x: i32, y: i32| -> bool {
        icon.pixels.iter().any(|p| p.x == x && p.y == y && p.on)
    };
    assert!(lit(0, 0));
    assert!(!lit(1, 0));
    assert!(!lit(0, 1));
    assert!(lit(1, 1));
}

#[test]
fn bmp_decode_rejects_garbage() {
    assert!(Icon::decode(&vec![1, 2, 3, 4, 5]).is_none());
}

#[test]
fn short_title_without_icon_runs_two_seconds() {
    // Projection: (128 - 3 - 3) / 6 = 20 characters; "Hi" does not scroll.
    let n = NotificationBuilder::new().with_title("Hi").build(&vec![]).unwrap();
    assert!(!n.scroll);
    assert_eq!(n.ticks, 40);
}

#[test]
fn long_title_adds_scroll_time() {
    // 25 bytes against 20 characters: (25 - 20 + 2) * 6 = 42 extra ticks.
    let n = NotificationBuilder::new()
        .with_title("abcdefghijklmnopqrstuvwxy")
        .build(&vec![])
        .unwrap();
    assert!(n.scroll);
    assert_eq!(n.ticks, 40 + 42);
}

#[test]
fn icon_narrows_the_title_projection() {
    // With a 24x24 icon: (128 - 27 - 3) / 6 = 16 characters fit.
    let icon = Icon::new(24, 24, vec![px(0, 0)]);
    let n = NotificationBuilder::new()
        .with_title("seventeen chars!!")
        .with_icon(icon)
        .build(&vec![])
        .unwrap();
    assert!(n.scroll);
    assert_eq!(n.ticks, 40 + (17 - 16 + 2) * 6);
    // The icon pixel landed on the base frame.
    assert!(n.frame.read_pixel(0, 0));
    assert!(!n.frame.read_pixel(1, 0));
}

#[test]
fn wrong_icon_size_is_refused() {
    let icon = Icon::new(23, 24, vec![]);
    let r = NotificationBuilder::new().with_icon(icon).build(&vec![]);
    assert!(matches!(r, Err(NotificationError::BadIconSize)));
}

#[test]
fn default_title_is_used_when_none_is_given() {
    // "Notification" is 12 characters: no scrolling, two seconds.
    let n = NotificationBuilder::new().with_content("body").build(&vec![]).unwrap();
    assert!(!n.scroll);
    assert_eq!(n.ticks, 40);
    assert_eq!(n.content, "body");
}

#[test]
fn frame_at_composes_base_title_and_overlay() {
    // Title glyph at canvas (0, 0); title is drawn at (3, 3).
    let n = NotificationBuilder::new().with_title("Hi").build(&vec![px(0, 0)]).unwrap();
    let frame = n.frame_at(0, &vec![px(100, 30)]);
    assert!(frame.read_pixel(3, 3));
    assert!(frame.read_pixel(100, 30));
    assert!(!frame.read_pixel(50, 20));
}

#[test]
fn messenger_notifications_are_classified() {
    let r = classify_notification("discord", "t".to_string(), "c".to_string(), None);
    match r {
        NotificationKind::Discord { title, content } => {
            assert_eq!(title, "t");
            assert_eq!(content, "c");
        },
        NotificationKind::Unsupported => panic!("expected a supported notification"),
    }
    let r = classify_notification(
        "discord",
        "t".to_string(),
        "c".to_string(),
        Some("sender-pid"),
    );
    assert!(matches!(r, NotificationKind::Discord { .. }));
}

#[test]
fn other_sources_and_marked_hints_are_unsupported() {
    let r = classify_notification("slack", "t".to_string(), "c".to_string(), None);
    assert!(matches!(r, NotificationKind::Unsupported));
    let r = classify_notification("discord", "t".to_string(), "c".to_string(), Some("image-data"));
    assert!(matches!(r, NotificationKind::Unsupported));
}
