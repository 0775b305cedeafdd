//! Music playback: the metadata capability a player exposes, playback state,
//! and the renderer that turns playback progress into frames.

use vstd::prelude::*;

use crate::canvas::canvas_applied;
use crate::framebuffer::FrameBuffer;
use crate::framebuffer::PixelUpdate;
use crate::text::CHAR_HEIGHT;
use crate::text::StatefulScrollable;
use crate::text::build_error_for;
use crate::text::canvas_width_for;

use vstd::string::StringSliceAdditionalSpecFns;
use vstd::utf8::encode_utf8;

verus! {

/// Playback state of a media player.
#[derive(Clone, Copy, Debug, PartialEq, Eq, Structural)]
pub enum PlaybackStatus {
    Stopped,
    Paused,
    Playing,
}

/// Why a player event was raised.
#[derive(Clone, Copy, Debug, PartialEq, Eq, Structural)]
pub enum PlayerEvent {
    Seeked,
    Properties,
    Timer,
}

/// A metadata read that found nothing behind the key.
#[derive(Clone, Copy, Debug, PartialEq, Eq, Structural)]
pub enum MetadataError {
    MissingTitle,
    MissingArtists,
    MissingLength,
}

/// The capability a track-metadata source exposes. Implementations decide
/// where the values come from; nothing is assumed of them here.
pub trait Metadata {
    fn title(&self) -> Result<String, MetadataError>;

    fn artists(&self) -> Result<String, MetadataError>;

    fn length(&self) -> Result<i64, MetadataError>;
}

/// A snapshot of playback progress: the track metadata, the position in
/// microseconds, and the playback state.
pub struct Progress<T: Metadata + Sized> {
    pub metadata: T,
    pub position: i64,
    pub status: PlaybackStatus,
}

/// Byte length of a string, as the renderer's width checks see it.
pub open spec fn byte_len(s: Seq<char>) -> int {
    (encode_utf8(s).len() as usize) as int
}

/// Columns of the track progress bar that are lit for `position` out of
/// `length`: the completed fraction of the 122-column bar, clamped to it.
/// A non-positive length lights nothing.
pub open spec fn spec_progress_cols(position: int, length: int) -> int {
    if length <= 0 {
        0
    } else if position <= 0 {
        0
    } else if position >= length {
        122
    } else {
        (122 * position) / length
    }
}

/// Computes the lit column count of the progress bar.
pub fn progress_cols(position: i64, length: i64) -> (r: u32)
    ensures
        r == spec_progress_cols(position as int, length as int),
        r <= 122,
{
    if length <= 0 {
        0
    } else if position <= 0 {
        0
    } else if position >= length {
        122
    } else {
        let wide: i128 = 122i128 * (position as i128) / (length as i128);
        proof {
            let p = position as int;
            let l = length as int;
            assert(0 <= 122 * p && 122 * p <= 122 * l) by (nonlinear_arith)
                requires 0 < p && p < l;
            assert((122 * p) / l < 122) by (nonlinear_arith)
                requires 0 < l && 122 * p < 122 * l;
            assert(0 <= (122 * p) / l) by (nonlinear_arith)
                requires 0 < l && 0 <= 122 * p;
        }
        wide as u32
    }
}

/// The renderer for the media player source: the two scrolling text lines and
/// the prepared base frames for the playing and paused looks.
pub struct MediaPlayerRenderer {
    pub artist: StatefulScrollable,
    pub title: StatefulScrollable,
    pub play_template: FrameBuffer,
    pub pause_template: FrameBuffer,
}

/// Text lines longer than this many bytes are scrolled one column per frame.
pub const SCROLL_THRESHOLD_BYTES: usize = 16;

/// How one dirty-check update step evolves a scrolling line: same text and
/// over-long keeps the text and advances the scroll; same text and short
/// leaves it alone; new text that renders is rebuilt from the supplied glyph
/// pixels (scroll reset, canvas resized for the new text); new text that does
/// not render is swallowed and the old line stays.
pub open spec fn line_update_rel(
    pre: StatefulScrollable,
    post: StatefulScrollable,
    text: Seq<char>,
    glyphs: Seq<PixelUpdate>,
) -> bool {
    if pre.builder.text@ == text {
        if byte_len(text) > SCROLL_THRESHOLD_BYTES {
            &&& post.builder == pre.builder
            &&& post.text == (crate::text::Scrollable {
                scroll: if pre.text.scroll == u32::MAX {
                    0u32
                } else {
                    (pre.text.scroll + 1) as u32
                },
                ..pre.text
            })
        } else {
            post == pre
        }
    } else {
        if build_error_for(text, pre.builder.spacing, pre.builder.projection) is None {
            &&& post.builder.text@ == text
            &&& post.builder.spacing == pre.builder.spacing
            &&& post.builder.position == pre.builder.position
            &&& post.builder.projection == pre.builder.projection
            &&& post.text.wf()
            &&& post.text.scroll == 0
            &&& post.text.canvas.spec_width() == canvas_width_for(text, pre.builder.spacing)
            &&& post.text.canvas.spec_height() == CHAR_HEIGHT
            &&& forall|x: int, y: int|
                0 <= x < post.text.canvas.spec_width()
                    && 0 <= y < post.text.canvas.spec_height()
                    ==> post.text.canvas.pixel(x, y) == canvas_applied(glyphs, false, x, y)
            &&& post.text.projection == (match pre.builder.projection {
                Some(a) => a,
                None => crate::text::Area {
                    width: canvas_width_for(text, pre.builder.spacing) as u32,
                    height: CHAR_HEIGHT,
                },
            })
            &&& post.text.position == (match pre.builder.position {
                Some(c) => c,
                None => crate::text::Coord { x: 0, y: 0 },
            })
        } else {
            post == pre
        }
    }
}

impl MediaPlayerRenderer {
    pub open spec fn wf(self) -> bool {
        &&& self.artist.text.wf()
        &&& self.title.text.wf()
        &&& self.play_template.wf()
        &&& self.pause_template.wf()
    }

    /// Assembles the renderer from its prepared parts: the two template
    /// frames and the two already-built text lines.
    pub fn new(
        artist: StatefulScrollable,
        title: StatefulScrollable,
        play_template: FrameBuffer,
        pause_template: FrameBuffer,
    ) -> (r: Self)
        ensures
            r.artist == artist,
            r.title == title,
            r.play_template == play_template,
            r.pause_template == pause_template,
    {
        MediaPlayerRenderer { artist, title, play_template, pause_template }
    }

    /// Renders one playback snapshot: picks the template for the playback
    /// state, lights the completed part of the progress bar, runs the
    /// dirty-check update (or scroll step) on both text lines, and windows
    /// them onto the frame. `artist_glyphs` / `title_glyphs` are the
    /// caller-rasterized pixels of the new texts, used only when a line is
    /// rebuilt.
    pub fn update(
        &mut self,
        status: PlaybackStatus,
        position: i64,
        length: i64,
        artists: &str,
        title: &str,
        artist_glyphs: &Vec<PixelUpdate>,
        title_glyphs: &Vec<PixelUpdate>,
    ) -> (r: FrameBuffer)
        requires
            old(self).wf(),
        ensures
            final(self).wf(),
            final(self).play_template == old(self).play_template,
            final(self).pause_template == old(self).pause_template,
            line_update_rel(old(self).artist, final(self).artist, artists@, artist_glyphs@),
            line_update_rel(old(self).title, final(self).title, title@, title_glyphs@),
            r.wf(),
            forall|x: int, y: int| FrameBuffer::in_range(x, y) ==> r.pixel(x, y) == {
                let base = if status is Playing {
                    old(self).play_template
                } else {
                    old(self).pause_template
                };
                let t = final(self).title.text;
                let a = final(self).artist.text;
                if a.covers(x, y) {
                    a.window_pixel(a.scroll as int, x - a.position.x, y - a.position.y)
                } else if t.covers(x, y) {
                    t.window_pixel(t.scroll as int, x - t.position.x, y - t.position.y)
                } else if 34 <= y <= 36 && 3 <= x
                    <= 3 + spec_progress_cols(position as int, length as int) {
                    true
                } else {
                    base.pixel(x, y)
                }
            },
    {
        let mut display = match status {
            PlaybackStatus::Playing => self.play_template.duplicate(),
            PlaybackStatus::Paused | PlaybackStatus::Stopped => self.pause_template.duplicate(),
        };

        // Track progress bar: a three-row line along the bottom border.
        let cols = progress_cols(position, length);
        let mut x: u32 = 0;
        while x <= cols
            invariant
                x <= cols + 1,
                cols <= 122,
                display.wf(),
                forall|a: int, b: int| FrameBuffer::in_range(a, b) ==>
                    display.pixel(a, b) == if 34 <= b <= 36 && 3 <= a && a < 3 + x {
                        true
                    } else {
                        (if status is Playing {
                            old(self).play_template
                        } else {
                            old(self).pause_template
                        }).pixel(a, b)
                    },
            decreases cols + 1 - x,
        {
            display.draw_pixel((3 + x) as i32, 34, true);
            display.draw_pixel((3 + x) as i32, 35, true);
            display.draw_pixel((3 + x) as i32, 36, true);
            x += 1;
        }

        step_line(&mut self.artist, artists, artist_glyphs);
        step_line(&mut self.title, title, title_glyphs);

        self.title.text.draw(&mut display);
        self.artist.text.draw(&mut display);

        display
    }

}

/// One dirty-check update step on a scrolling line.
fn step_line(line: &mut StatefulScrollable, text: &str, glyphs: &Vec<PixelUpdate>)
    requires
        old(line).text.wf(),
    ensures
        final(line).text.wf(),
        line_update_rel(*old(line), *final(line), text@, glyphs@),
{
    match line.update(text, glyphs) {
        Ok(false) => {
            if text.len() > SCROLL_THRESHOLD_BYTES {
                line.text.scroll();
            }
        },
        _ => {},
    }
}

} // verus!
