//! Notifications: higher-priority, self-terminating overlay animations. A
//! notification owns a base frame (optionally with a 24 x 24 icon), a
//! scrolling title, a content line and a bounded tick count; once started it
//! is drained tick by tick to completion before normal rotation resumes.

use vstd::prelude::*;

use crate::canvas::canvas_applied;
use crate::framebuffer::FrameBuffer;
use crate::framebuffer::PixelUpdate;
use crate::framebuffer::applied;
use crate::scheduler::TICKS_PER_SECOND;
use crate::text::Area;
use crate::text::Coord;
use crate::text::Scrollable;
use crate::text::ScrollableBuilder;
use crate::text::CHAR_HEIGHT;
use crate::text::TextError;
use crate::text::build_error_for;
use crate::text::canvas_width_for;
use crate::util::str_eq;

use tinybmp::RawBmp;
use vstd::string::StringSliceAdditionalSpecFns;
use vstd::utf8::encode_utf8;

verus! {

/// Icon edge length notifications require.
pub const ICON_EDGE: u32 = 24;

/// What the BMP decoder yields for a byte string, if it parses: the image
/// size and the pixel grid, top-left first. A pure function of the bytes.
pub uninterp spec fn bmp_pixels(bytes: Seq<u8>) -> Option<(u32, u32, Seq<(i32, i32, bool)>)>;

/// Relies on tinybmp's `RawBmp::from_slice`, its header and the raw pixel
/// iterator: whether the bytes parse as a BMP, and the decoded size and pixel
/// grid, depend on the bytes alone. The lit-pixel threshold in the body — raw
/// color value non-zero — is part of what is trusted here, not proved; for
/// the 1-bit icons used here it is exactly the set bit.
#[verifier::external_body]
fn decode_bmp_raw(bytes: &Vec<u8>) -> (r: Option<(u32, u32, Vec<(i32, i32, bool)>)>)
    ensures
        match r {
            Some(d) => bmp_pixels(bytes@) == Some((d.0, d.1, d.2@)),
            None => bmp_pixels(bytes@) is None,
        },
{
    let bmp = RawBmp::from_slice(bytes.as_slice()).ok()?;
    let size = bmp.header().image_size;
    let pixels: Vec<(i32, i32, bool)> = bmp
        .pixels()
        .map(|p| (p.position.x, p.position.y, p.color != 0))
        .collect();
    Some((size.width, size.height, pixels))
}

/// A decoded monochrome icon: its size and its pixels as frame buffer writes.
#[derive(Clone, Debug)]
pub struct Icon {
    pub width: u32,
    pub height: u32,
    pub pixels: Vec<PixelUpdate>,
}

impl Icon {
    pub fn new(width: u32, height: u32, pixels: Vec<PixelUpdate>) -> (r: Self)
        ensures
            r.width == width,
            r.height == height,
            r.pixels == pixels,
    {
        Icon { width, height, pixels }
    }

    /// Decodes BMP bytes into an icon. Returns `None` exactly when the bytes
    /// do not parse as a BMP; otherwise the icon carries the decoded size and
    /// pixel grid.
    pub fn decode(bytes: &Vec<u8>) -> (r: Option<Icon>)
        ensures
            match r {
                Some(icon) => {
                    &&& bmp_pixels(bytes@) is Some
                    &&& {
                        let d = bmp_pixels(bytes@).unwrap();
                        &&& icon.width == d.0
                        &&& icon.height == d.1
                        &&& icon.pixels@.len() == d.2.len()
                        &&& forall|i: int| 0 <= i < d.2.len()
                            ==> icon.pixels@[i] == (PixelUpdate {
                                x: d.2[i].0,
                                y: d.2[i].1,
                                on: d.2[i].2,
                            })
                    }
                },
                None => bmp_pixels(bytes@) is None,
            },
    {
        match decode_bmp_raw(bytes) {
            Some((width, height, raw)) => {
                let n = raw.len();
                let mut pixels: Vec<PixelUpdate> = Vec::new();
                let mut i: usize = 0;
                while i < n
                    invariant
                        i <= n,
                        n == raw@.len(),
                        pixels@.len() == i,
                        forall|j: int| 0 <= j < i ==> pixels@[j] == (PixelUpdate {
                            x: raw@[j].0,
                            y: raw@[j].1,
                            on: raw@[j].2,
                        }),
                    decreases n - i,
                {
                    let (x, y, on) = raw[i];
                    pixels.push(PixelUpdate { x, y, on });
                    i += 1;
                }
                Some(Icon { width, height, pixels })
            },
            None => None,
        }
    }
}

/// Why a notification could not be built.
#[derive(Clone, Copy, Debug, PartialEq, Eq, Structural)]
pub enum NotificationError {
    /// Notification icons need to be 24 x 24 for the time being.
    BadIconSize,
    /// The title could not be rendered into a scrollable.
    Title(TextError),
}

/// A ready notification: the base frame, the bounded tick count, the
/// scrolling title, whether the title scrolls, and the content line.
pub struct Notification {
    pub frame: FrameBuffer,
    pub ticks: u32,
    pub title: Scrollable,
    pub scroll: bool,
    pub content: String,
}

impl Notification {
    pub open spec fn wf(self) -> bool {
        &&& self.frame.wf()
        &&& self.title.wf()
    }

    /// The frame for tick `i`: the base frame, the title window at tick `i`
    /// (or a static title when it does not scroll), and the caller-rasterized
    /// overlay (content text and progress arc) on top.
    pub fn frame_at(&self, tick: u32, overlay: &Vec<PixelUpdate>) -> (r: FrameBuffer)
        requires
            self.wf(),
        ensures
            r.wf(),
            forall|x: int, y: int| FrameBuffer::in_range(x, y) ==> r.pixel(x, y) == applied(
                overlay@,
                if self.title.covers(x, y) {
                    self.title.window_pixel(
                        if self.scroll { tick as int } else { 0 },
                        x - self.title.position.x,
                        y - self.title.position.y,
                    )
                } else {
                    self.frame.pixel(x, y)
                },
                x,
                y,
            ),
    {
        let mut image = self.frame.duplicate();
        let t: u32 = if self.scroll {
            tick
        } else {
            0
        };
        self.title.at_tick(&mut image, t);
        image.draw_pixels(overlay);
        image
    }
}

/// The horizontal offset content starts at: right of the icon plus margin.
pub open spec fn spec_offset_w(icon: Option<(u32, u32)>) -> int {
    match icon {
        Some(s) => s.0 + 3,
        None => 3,
    }
}

/// The title projection width: the display width minus the icon offset and
/// the right margin.
pub open spec fn spec_projection_w(icon: Option<(u32, u32)>) -> int {
    128 - spec_offset_w(icon) - 3
}

/// How many whole characters of the fixed-width font fit the projection.
pub open spec fn spec_projection_chars(icon: Option<(u32, u32)>) -> int {
    spec_projection_w(icon) / 6
}

/// Whether a title of `title_bytes` bytes must scroll to be read.
pub open spec fn spec_needs_scroll(title_bytes: int, icon: Option<(u32, u32)>) -> bool {
    spec_projection_chars(icon) < title_bytes
}

/// The notification length in ticks: one second lead-in, the scroll time (one
/// column tick per pixel of overhang plus two spare characters), one second
/// lead-out; saturating at the counter range.
pub open spec fn spec_required_ticks(title_bytes: int, icon: Option<(u32, u32)>) -> u32 {
    let scroll_time: int = if spec_needs_scroll(title_bytes, icon) {
        (title_bytes - spec_projection_chars(icon) + 2) * 6
    } else {
        0
    };
    let total = TICKS_PER_SECOND + scroll_time + TICKS_PER_SECOND;
    if total <= u32::MAX {
        total as u32
    } else {
        u32::MAX
    }
}

/// Builder for a [`Notification`]: title, content line and optional icon.
#[derive(Clone, Debug)]
pub struct NotificationBuilder {
    pub title: Option<String>,
    pub content: Option<String>,
    pub icon: Option<Icon>,
}

impl NotificationBuilder {
    /// The icon size, when an icon was supplied.
    pub open spec fn spec_icon_size(self) -> Option<(u32, u32)> {
        match self.icon {
            Some(icon) => Some((icon.width, icon.height)),
            None => None,
        }
    }

    /// The title characters the notification will carry: the supplied title,
    /// or the default.
    pub open spec fn spec_title_chars(self) -> Seq<char> {
        match self.title {
            Some(t) => t@,
            None => "Notification"@,
        }
    }

    pub fn new() -> (r: Self)
        ensures
            r.title is None,
            r.content is None,
            r.icon is None,
    {
        NotificationBuilder { title: None, content: None, icon: None }
    }

    pub fn with_content(self, content: &str) -> (r: Self)
        ensures
            r.title == self.title,
            r.icon == self.icon,
            r.content is Some,
            r.content.unwrap()@ == content@,
    {
        NotificationBuilder { content: Some(content.to_owned()), ..self }
    }

    pub fn with_title(self, title: &str) -> (r: Self)
        ensures
            r.content == self.content,
            r.icon == self.icon,
            r.title is Some,
            r.title.unwrap()@ == title@,
    {
        NotificationBuilder { title: Some(title.to_owned()), ..self }
    }

    pub fn with_icon(self, icon: Icon) -> (r: Self)
        ensures
            r.content == self.content,
            r.title == self.title,
            r.icon == Some(icon),
    {
        NotificationBuilder { icon: Some(icon), ..self }
    }

    /// Builds the notification. `glyphs` is the caller-rasterized pixel list
    /// of the title text. Fails exactly when a supplied icon is not 24 x 24,
    /// or when the title cannot be rendered.
    pub fn build(&self, glyphs: &Vec<PixelUpdate>) -> (r: Result<Notification, NotificationError>)
        ensures
            match r {
                Ok(n) => {
                    &&& (match self.spec_icon_size() {
                        Some(s) => s == (ICON_EDGE, ICON_EDGE),
                        None => true,
                    })
                    &&& n.wf()
                    &&& n.ticks == spec_required_ticks(
                        title_byte_len(self.title),
                        self.spec_icon_size(),
                    )
                    &&& n.scroll == spec_needs_scroll(
                        title_byte_len(self.title),
                        self.spec_icon_size(),
                    )
                    &&& n.content@ == (match self.content {
                        Some(c) => c@,
                        None => Seq::<char>::empty(),
                    })
                    &&& n.title.position == (Coord {
                        x: spec_offset_w(self.spec_icon_size()) as i32,
                        y: 3,
                    })
                    &&& n.title.projection == (Area {
                        width: spec_projection_w(self.spec_icon_size()) as u32,
                        height: 10,
                    })
                    &&& n.title.scroll == 0
                    &&& n.title.canvas.spec_width() == canvas_width_for(
                        self.spec_title_chars(),
                        None,
                    )
                    &&& n.title.canvas.spec_height() == CHAR_HEIGHT
                    &&& forall|x: int, y: int|
                        0 <= x < n.title.canvas.spec_width()
                            && 0 <= y < n.title.canvas.spec_height()
                            ==> n.title.canvas.pixel(x, y) == canvas_applied(glyphs@, false, x, y)
                    &&& forall|x: int, y: int| FrameBuffer::in_range(x, y)
                        ==> n.frame.pixel(x, y) == applied(
                            match self.icon {
                                Some(icon) => icon.pixels@,
                                None => Seq::<PixelUpdate>::empty(),
                            },
                            false,
                            x,
                            y,
                        )
                },
                Err(NotificationError::BadIconSize) => {
                    &&& self.spec_icon_size() is Some
                    &&& self.spec_icon_size().unwrap() != (ICON_EDGE, ICON_EDGE)
                },
                Err(NotificationError::Title(e)) => {
                    &&& (match self.spec_icon_size() {
                        Some(s) => s == (ICON_EDGE, ICON_EDGE),
                        None => true,
                    })
                    &&& build_error_for(
                        self.spec_title_chars(),
                        None,
                        Some(Area {
                            width: spec_projection_w(self.spec_icon_size()) as u32,
                            height: 10,
                        }),
                    ) == Some(e)
                },
            },
    {
        let mut base_image = FrameBuffer::new();

        if let Some(icon) = &self.icon {
            if icon.width != ICON_EDGE || icon.height != ICON_EDGE {
                return Err(NotificationError::BadIconSize);
            }
            base_image.draw_pixels(&icon.pixels);
        }

        let offset_w: u32 = match &self.icon {
            Some(icon) => icon.width + 3,
            None => 3,
        };
        let projection_w: u32 = 128 - offset_w - 3;
        let projection_chars: u32 = projection_w / 6;

        let title: &str = match &self.title {
            Some(t) => t.as_str(),
            None => "Notification",
        };
        let title_bytes: usize = title.len();
        let needs_scroll = (projection_chars as usize) < title_bytes;

        proof {
            assert(title.spec_bytes() == encode_utf8(title@));
            assert(title_bytes == title_byte_len(self.title));
        }
        let ticks: u32 = required_ticks(title_bytes, projection_chars, needs_scroll);

        let builder = ScrollableBuilder::new()
            .with_text(title)
            .with_position(Coord { x: offset_w as i32, y: 3 })
            .with_projection(Area { width: projection_w, height: 10 });
        let scrollable = match builder.build(glyphs) {
            Ok(s) => s,
            Err(e) => {
                return Err(NotificationError::Title(e));
            },
        };

        let content: String = match &self.content {
            Some(c) => c.clone(),
            None => String::new(),
        };

        Ok(Notification {
            frame: base_image,
            ticks,
            title: scrollable,
            scroll: needs_scroll,
            content,
        })
    }
}

/// The byte length of the configured title, or of the default title.
pub open spec fn title_byte_len(title: Option<String>) -> int {
    match title {
        Some(t) => (encode_utf8(t@).len() as usize) as int,
        None => (encode_utf8("Notification"@).len() as usize) as int,
    }
}

/// The tick count for a title of `title_bytes` bytes against a projection of
/// `projection_chars` characters.
fn required_ticks(title_bytes: usize, projection_chars: u32, needs_scroll: bool) -> (r: u32)
    requires
        needs_scroll == ((projection_chars as int) < title_bytes),
    ensures
        ({
            let scroll_time: int = if needs_scroll {
                (title_bytes - projection_chars + 2) * 6
            } else {
                0
            };
            let total = TICKS_PER_SECOND + scroll_time + TICKS_PER_SECOND;
            r == if total <= u32::MAX {
                total as u32
            } else {
                u32::MAX
            }
        }),
{
    if needs_scroll {
        let overhang: u128 = (title_bytes as u128) - (projection_chars as u128) + 2;
        let total: u128 = (TICKS_PER_SECOND as u128) + overhang * 6 + (TICKS_PER_SECOND as u128);
        if total <= (u32::MAX as u128) {
            total as u32
        } else {
            u32::MAX
        }
    } else {
        (TICKS_PER_SECOND + TICKS_PER_SECOND) as u32
    }
}

/// The notification kinds the message classifier recognizes.
pub enum NotificationKind {
    /// A chat message: title and content are shown with the messenger icon.
    Discord { title: String, content: String },
    /// Anything else; not rendered.
    Unsupported,
}

/// Classifies an incoming desktop notification from its already-unmarshalled
/// fields: the source application name, the title and body strings, and the
/// key of the last entry of the hints dictionary, if one was present.
/// Messages from the supported messenger are accepted unless the hints
/// dictionary marks them as something other than a direct message.
pub fn classify_notification(
    source: &str,
    title: String,
    content: String,
    last_hint_key: Option<&str>,
) -> (r: NotificationKind)
    ensures
        ({
            let accepted = source@ == "discord"@ && (match last_hint_key {
                Some(k) => k@ == "sender-pid"@,
                None => true,
            });
            match r {
                NotificationKind::Discord { title: t, content: c } => {
                    &&& accepted
                    &&& t == title
                    &&& c == content
                },
                NotificationKind::Unsupported => !accepted,
            }
        }),
{
    if !str_eq(source, "discord") {
        return NotificationKind::Unsupported;
    }
    if let Some(key) = last_hint_key {
        if !str_eq(key, "sender-pid") {
            return NotificationKind::Unsupported;
        }
    }
    NotificationKind::Discord { title, content }
}

} // verus!
