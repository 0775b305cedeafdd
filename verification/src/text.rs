//! Horizontally scrolling text: a text line is rendered once into an
//! off-screen [`ScrollableCanvas`], and [`Scrollable::at_tick`] copies a
//! fixed-size window of it onto the frame buffer, wrapping around the canvas
//! boundary so the window slides past the end seamlessly.

use vstd::prelude::*;

use crate::canvas::ScrollableCanvas;
use crate::canvas::canvas_applied;
use crate::framebuffer::FrameBuffer;
use crate::framebuffer::PixelUpdate;

use embedded_graphics::geometry::Point;
use embedded_graphics::mono_font::MonoTextStyle;
use embedded_graphics::mono_font::iso_8859_15::FONT_6X10;
use embedded_graphics::pixelcolor::BinaryColor;
use embedded_graphics::text::Baseline;
use embedded_graphics::text::renderer::TextRenderer;

verus! {

/// A width and height in pixels.
#[derive(Clone, Copy, Debug, PartialEq, Eq, Structural)]
pub struct Area {
    pub width: u32,
    pub height: u32,
}

/// A position on the target frame buffer.
#[derive(Clone, Copy, Debug, PartialEq, Eq, Structural)]
pub struct Coord {
    pub x: i32,
    pub y: i32,
}

/// Character cell width of the fixed-width font used for scrolling text.
pub const CHAR_WIDTH: u32 = 6;
/// Character cell height of the fixed-width font used for scrolling text.
pub const CHAR_HEIGHT: u32 = 10;
/// Default number of blank columns appended after the text before it wraps.
pub const DEFAULT_SPACING: u32 = 5;

/// The width in pixels that the fixed-width font gives a rendered line.
pub open spec fn measured_width(text: Seq<char>) -> int {
    CHAR_WIDTH * text.len()
}

/// Relies on `MonoTextStyle::measure_string` with the built-in 6 x 10
/// fixed-width font (character spacing 0, no underline): the bounding box is
/// `6 * character count` wide and `10` high. The renderer multiplies the
/// character count by the cell width in unchecked `u32` arithmetic, and its
/// next-position computation adds the width to an `i32` point behind a debug
/// assertion that the width fits `i32`; so the caller must bound the text to
/// the `i32` range first, which is what the `requires` demands.
#[verifier::external_body]
fn measure_text(s: &str) -> (r: (u32, u32))
    requires
        CHAR_WIDTH * s@.len() <= i32::MAX,
    ensures
        r.0 == measured_width(s@),
        r.1 == CHAR_HEIGHT,
{
    let style = MonoTextStyle::new(&FONT_6X10, BinaryColor::On);
    let metrics = style.measure_string(s, Point::zero(), Baseline::Top);
    (metrics.bounding_box.size.width, metrics.bounding_box.size.height)
}

/// Why building a [`Scrollable`] was refused.
#[derive(Clone, Copy, Debug, PartialEq, Eq, Structural)]
pub enum TextError {
    /// The canvas would not fit in the `u32` bit store.
    TooLarge,
    /// The canvas would be zero columns wide (empty text with zero spacing).
    ZeroWidth,
    /// The requested projection is taller than the rendered text canvas.
    ProjectionTooTall,
}

/// Immutable render-time parameters of a scrolling text line, plus the
/// mutable scroll offset.
#[derive(Clone, Debug)]
pub struct Scrollable {
    pub canvas: ScrollableCanvas,
    pub projection: Area,
    pub position: Coord,
    pub spacing: u32,
    pub scroll: u32,
}

impl Scrollable {
    /// Well-formed: a non-empty canvas whose bit store matches its size and a
    /// projection that does not reach below the canvas.
    pub open spec fn wf(self) -> bool {
        &&& self.canvas.wf()
        &&& self.canvas.spec_width() > 0
        &&& self.projection.height <= self.canvas.spec_height()
    }

    /// The scroll offset used for a tick: the tick modulo the canvas width,
    /// except that a projection at least as wide as the canvas renders
    /// statically (offset 0) to avoid drawing columns twice.
    pub open spec fn eff_scroll(self, tick: int) -> int {
        if self.projection.width >= self.canvas.spec_width() {
            0
        } else {
            tick % (self.canvas.spec_width() as int)
        }
    }

    /// How many projection columns are actually drawn: the projection width,
    /// capped at the canvas width.
    pub open spec fn visible_width(self) -> int {
        if self.projection.width < self.canvas.spec_width() {
            self.projection.width as int
        } else {
            self.canvas.spec_width() as int
        }
    }

    /// The canvas bit shown at projection column `col`, row `row`, at `tick`.
    pub open spec fn window_pixel(self, tick: int, col: int, row: int) -> bool {
        self.canvas.pixel(
            (self.eff_scroll(tick) + col) % (self.canvas.spec_width() as int),
            row,
        )
    }

    /// True iff frame buffer pixel `(x, y)` is covered by the projection.
    pub open spec fn covers(self, x: int, y: int) -> bool {
        &&& 0 <= x - self.position.x < self.visible_width()
        &&& 0 <= y - self.position.y < self.projection.height
    }

    /// Renders the window for `tick` onto `target`: every covered in-range
    /// pixel takes the wrapped canvas bit, everything else is untouched.
    pub fn at_tick(&self, target: &mut FrameBuffer, tick: u32)
        requires
            self.wf(),
            old(target).wf(),
        ensures
            final(target).wf(),
            forall|x: int, y: int| FrameBuffer::in_range(x, y) ==>
                final(target).pixel(x, y) == if self.covers(x, y) {
                    self.window_pixel(tick as int, x - self.position.x, y - self.position.y)
                } else {
                    old(target).pixel(x, y)
                },
    {
        let w = self.canvas.width();
        let p = self.projection.width;
        let scroll: u32 = if p >= w {
            0
        } else {
            tick % w
        };
        // Columns available before the window would run past the canvas edge.
        let run1: u32 = if p < w - scroll {
            p
        } else {
            w - scroll
        };
        proof {
            assert(scroll == self.eff_scroll(tick as int));
            if p >= w {
                assert(run1 == self.visible_width());
            }
        }
        let mut row: u32 = 0;
        while row < self.projection.height
            invariant
                self.wf(),
                old(target).wf(),
                target.wf(),
                row <= self.projection.height,
                w == self.canvas.spec_width(),
                p == self.projection.width,
                scroll == self.eff_scroll(tick as int),
                scroll < w,
                run1 == if p < w - scroll { p as int } else { w - scroll },
                run1 <= self.visible_width(),
                forall|x: int, y: int| FrameBuffer::in_range(x, y) ==>
                    target.pixel(x, y) == if self.covers(x, y) && y - self.position.y < row {
                        self.window_pixel(tick as int, x - self.position.x, y - self.position.y)
                    } else {
                        old(target).pixel(x, y)
                    },
            decreases self.projection.height - row,
        {
            // First run: copy canvas columns [scroll, scroll + run1).
            let mut c: u32 = 0;
            while c < run1
                invariant
                    self.wf(),
                    old(target).wf(),
                    target.wf(),
                    row < self.projection.height,
                    c <= run1,
                    w == self.canvas.spec_width(),
                    p == self.projection.width,
                    scroll == self.eff_scroll(tick as int),
                    scroll < w,
                    run1 == if p < w - scroll { p as int } else { w - scroll },
                    run1 <= self.visible_width(),
                    forall|x: int, y: int| FrameBuffer::in_range(x, y) ==>
                        target.pixel(x, y) == if self.covers(x, y)
                            && (y - self.position.y < row
                                || (y - self.position.y == row && x - self.position.x < c)) {
                            self.window_pixel(tick as int, x - self.position.x, y - self.position.y)
                        } else {
                            old(target).pixel(x, y)
                        },
                decreases run1 - c,
            {
                let on = self.canvas.get(scroll + c, row);
                proof {
                    lemma_mod_small_int(scroll + c, w as int);
                    assert(on == self.window_pixel(tick as int, c as int, row as int));
                }
                let fx: i64 = self.position.x as i64 + c as i64;
                let fy: i64 = self.position.y as i64 + row as i64;
                if 0 <= fx && fx < 128 && 0 <= fy && fy < 40 {
                    target.draw_pixel(fx as i32, fy as i32, on);
                }
                c += 1;
            }
            // Wrap run: the window ran past the canvas edge, so the remaining
            // columns come from the start of the row. Skipped when the
            // projection is at least canvas-wide, so nothing is drawn twice.
            if run1 < p && p < w {
                let mut c: u32 = run1;
                while c < p
                    invariant
                        self.wf(),
                        old(target).wf(),
                        target.wf(),
                        row < self.projection.height,
                        run1 <= c <= p,
                        w == self.canvas.spec_width(),
                        p == self.projection.width,
                        p < w,
                        scroll == self.eff_scroll(tick as int),
                        scroll < w,
                        run1 == w - scroll,
                        run1 <= self.visible_width(),
                        forall|x: int, y: int| FrameBuffer::in_range(x, y) ==>
                            target.pixel(x, y) == if self.covers(x, y)
                                && (y - self.position.y < row
                                    || (y - self.position.y == row && x - self.position.x < c)) {
                                self.window_pixel(tick as int, x - self.position.x, y - self.position.y)
                            } else {
                                old(target).pixel(x, y)
                            },
                    decreases p - c,
                {
                    let on = self.canvas.get(c - run1, row);
                    proof {
                        lemma_mod_shift_int(scroll + c, w as int);
                        assert(on == self.window_pixel(tick as int, c as int, row as int));
                    }
                    let fx: i64 = self.position.x as i64 + c as i64;
                    let fy: i64 = self.position.y as i64 + row as i64;
                    if 0 <= fx && fx < 128 && 0 <= fy && fy < 40 {
                        target.draw_pixel(fx as i32, fy as i32, on);
                    }
                    c += 1;
                }
            }
            proof {
                assert(run1 < p && p < w ==> self.visible_width() == p as int);
                assert(!(run1 < p && p < w) ==> self.visible_width() == run1 as int);
            }
            row += 1;
        }
    }

    /// Renders the window at the current scroll offset.
    pub fn draw(&self, target: &mut FrameBuffer)
        requires
            self.wf(),
            old(target).wf(),
        ensures
            final(target).wf(),
            forall|x: int, y: int| FrameBuffer::in_range(x, y) ==>
                final(target).pixel(x, y) == if self.covers(x, y) {
                    self.window_pixel(self.scroll as int, x - self.position.x, y - self.position.y)
                } else {
                    old(target).pixel(x, y)
                },
    {
        let tick = self.scroll;
        self.at_tick(target, tick)
    }

    /// Advances the scroll offset by exactly one pixel column. The counter is
    /// never reset; it wraps around at the end of its range.
    pub fn scroll(&mut self)
        ensures
            *final(self) == (Scrollable {
                scroll: if old(self).scroll == u32::MAX { 0u32 } else { (old(self).scroll + 1) as u32 },
                ..*old(self)
            }),
    {
        self.scroll = if self.scroll == u32::MAX {
            0
        } else {
            self.scroll + 1
        };
    }
}

/// The window contents repeat with period `canvas width`: the outputs for
/// `tick` and `tick + width` are pixel-identical.
pub proof fn lemma_window_periodicity(s: Scrollable, tick: int, col: int, row: int)
    requires
        s.wf(),
        0 <= tick,
    ensures
        s.window_pixel(tick + s.canvas.spec_width(), col, row) == s.window_pixel(tick, col, row),
{
    let w = s.canvas.spec_width() as int;
    assert((tick + w) % w == tick % w) by (nonlinear_arith)
        requires 0 < w && 0 <= tick;
}

/// A projection at least as wide as the canvas renders statically: the window
/// contents are the same for every tick.
pub proof fn lemma_window_static(s: Scrollable, tick1: int, tick2: int, col: int, row: int)
    requires
        s.wf(),
        s.projection.width >= s.canvas.spec_width(),
    ensures
        s.window_pixel(tick1, col, row) == s.window_pixel(tick2, col, row),
{
}

proof fn lemma_mod_small_int(a: int, w: int)
    requires
        0 < w,
        0 <= a < w,
    ensures
        a % w == a,
{
    assert(a % w == a) by (nonlinear_arith)
        requires 0 < w && 0 <= a < w;
}

proof fn lemma_mod_shift_int(a: int, w: int)
    requires
        0 < w,
        w <= a < 2 * w,
    ensures
        a % w == a - w,
{
    assert(a % w == a - w) by (nonlinear_arith)
        requires 0 < w && w <= a < 2 * w;
}

/// Builder for a [`Scrollable`]: text, spacing, target position and
/// projection size. The glyph pixels of the rendered text are supplied by the
/// caller's rasterizer when the scrollable is built.
#[derive(Clone, Debug)]
pub struct ScrollableBuilder {
    pub spacing: Option<u32>,
    pub position: Option<Coord>,
    pub projection: Option<Area>,
    pub text: String,
}

/// The configured spacing, defaulting to [`DEFAULT_SPACING`].
pub open spec fn spacing_or_default(spacing: Option<u32>) -> int {
    match spacing {
        Some(s) => s as int,
        None => DEFAULT_SPACING as int,
    }
}

/// Canvas width a build will use: measured text width plus spacing.
pub open spec fn canvas_width_for(text: Seq<char>, spacing: Option<u32>) -> int {
    measured_width(text) + spacing_or_default(spacing)
}

/// Exactly which error, if any, building with these parameters reports.
pub open spec fn build_error_for(
    text: Seq<char>,
    spacing: Option<u32>,
    projection: Option<Area>,
) -> Option<TextError> {
    if canvas_width_for(text, spacing) * CHAR_HEIGHT > u32::MAX {
        Some(TextError::TooLarge)
    } else if canvas_width_for(text, spacing) == 0 {
        Some(TextError::ZeroWidth)
    } else if projection is Some && projection.unwrap().height > CHAR_HEIGHT {
        Some(TextError::ProjectionTooTall)
    } else {
        None
    }
}

impl ScrollableBuilder {
    /// Canvas width the builder will use: measured text width plus spacing.
    pub open spec fn spec_canvas_width(self) -> int {
        canvas_width_for(self.text@, self.spacing)
    }

    /// The configured spacing, defaulting to [`DEFAULT_SPACING`].
    pub open spec fn spec_spacing(self) -> int {
        spacing_or_default(self.spacing)
    }

    /// Exactly which error, if any, building would report.
    pub open spec fn spec_build_error(self) -> Option<TextError> {
        build_error_for(self.text@, self.spacing, self.projection)
    }

    pub fn new() -> (r: Self)
        ensures
            r.spacing is None,
            r.position is None,
            r.projection is None,
            r.text@ == Seq::<char>::empty(),
    {
        ScrollableBuilder {
            spacing: None,
            position: None,
            projection: None,
            text: String::new(),
        }
    }

    /// A copy of the builder with the same parameters and text.
    pub fn duplicate(&self) -> (r: Self)
        ensures
            r == *self,
    {
        ScrollableBuilder {
            spacing: self.spacing,
            position: self.position,
            projection: self.projection,
            text: self.text.clone(),
        }
    }

    pub fn with_text(self, text: &str) -> (r: Self)
        ensures
            r == (ScrollableBuilder { text: r.text, ..self }),
            r.text@ == text@,
    {
        ScrollableBuilder { text: text.to_owned(), ..self }
    }

    pub fn with_custom_spacing(self, spacing: u32) -> (r: Self)
        ensures
            r == (ScrollableBuilder { spacing: Some(spacing), ..self }),
    {
        ScrollableBuilder { spacing: Some(spacing), ..self }
    }

    pub fn with_position(self, position: Coord) -> (r: Self)
        ensures
            r == (ScrollableBuilder { position: Some(position), ..self }),
    {
        ScrollableBuilder { position: Some(position), ..self }
    }

    pub fn with_projection(self, projection: Area) -> (r: Self)
        ensures
            r == (ScrollableBuilder { projection: Some(projection), ..self }),
    {
        ScrollableBuilder { projection: Some(projection), ..self }
    }

    /// Builds the scrollable: measures the text, sizes the canvas as measured
    /// width plus spacing, and writes the caller-rasterized glyph pixels into
    /// it. Fails exactly when the canvas would overflow, be empty, or be
    /// shorter than the requested projection.
    pub fn build(&self, glyphs: &Vec<PixelUpdate>) -> (r: Result<Scrollable, TextError>)
        ensures
            match r {
                Ok(s) => {
                    &&& self.spec_build_error() is None
                    &&& s.wf()
                    &&& s.canvas.spec_width() == self.spec_canvas_width()
                    &&& s.canvas.spec_height() == CHAR_HEIGHT
                    &&& s.projection == match self.projection {
                        Some(a) => a,
                        None => Area {
                            width: self.spec_canvas_width() as u32,
                            height: CHAR_HEIGHT,
                        },
                    }
                    &&& s.position == match self.position {
                        Some(c) => c,
                        None => Coord { x: 0, y: 0 },
                    }
                    &&& s.spacing == self.spec_spacing()
                    &&& s.scroll == 0
                    &&& forall|x: int, y: int|
                        0 <= x < s.canvas.spec_width() && 0 <= y < s.canvas.spec_height() ==>
                            s.canvas.pixel(x, y) == canvas_applied(glyphs@, false, x, y)
                },
                Err(e) => self.spec_build_error() == Some(e),
            },
    {
        // The renderer's width arithmetic is bounded by `i32`: refuse texts
        // whose measured width cannot fit before measuring. Such a text
        // always makes the canvas oversize, so the error is the same one.
        let char_count: usize = self.text.as_str().unicode_len();
        if char_count > (i32::MAX as u32 / CHAR_WIDTH) as usize {
            proof {
                let cw = canvas_width_for(self.text@, self.spacing);
                assert(cw > u32::MAX / 10);
                assert(cw * CHAR_HEIGHT > u32::MAX) by (nonlinear_arith)
                    requires cw > u32::MAX / 10;
            }
            return Err(TextError::TooLarge);
        }
        let (tw, th) = measure_text(self.text.as_str());
        let spacing = match self.spacing {
            Some(s) => s,
            None => DEFAULT_SPACING,
        };
        let width = match tw.checked_add(spacing) {
            Some(width) => width,
            None => {
                return Err(TextError::TooLarge);
            },
        };
        if width > u32::MAX / CHAR_HEIGHT {
            proof {
                assert(width * CHAR_HEIGHT > u32::MAX) by (nonlinear_arith)
                    requires width > u32::MAX / 10 && width <= u32::MAX;
            }
            return Err(TextError::TooLarge);
        }
        proof {
            assert(width * CHAR_HEIGHT <= u32::MAX) by (nonlinear_arith)
                requires width <= u32::MAX / 10;
        }
        if width == 0 {
            return Err(TextError::ZeroWidth);
        }
        let projection = match self.projection {
            Some(a) => a,
            None => Area { width, height: th },
        };
        if projection.height > th {
            return Err(TextError::ProjectionTooTall);
        }
        let mut canvas = ScrollableCanvas::new(width, th);
        canvas.set_pixels(glyphs);
        let position = match self.position {
            Some(c) => c,
            None => Coord { x: 0, y: 0 },
        };
        Ok(Scrollable { canvas, projection, position, spacing, scroll: 0 })
    }
}

/// A scrollable together with the builder that produced it, so the text can
/// be re-rendered when (and only when) it changes.
#[derive(Clone, Debug)]
pub struct StatefulScrollable {
    pub builder: ScrollableBuilder,
    pub text: Scrollable,
}

impl StatefulScrollable {
    /// Builds the initial scrollable from a builder.
    pub fn from_builder(builder: ScrollableBuilder, glyphs: &Vec<PixelUpdate>) -> (r: Result<
        Self,
        TextError,
    >)
        ensures
            match r {
                Ok(s) => {
                    &&& s.builder == builder
                    &&& builder.spec_build_error() is None
                    &&& s.text.wf()
                },
                Err(e) => builder.spec_build_error() == Some(e),
            },
    {
        let text = builder.build(glyphs)?;
        Ok(StatefulScrollable { builder, text })
    }

    /// Re-renders the scrollable if `text` differs from the current text
    /// (string equality is the dirty check). Returns `Ok(true)` when the text
    /// was rebuilt, `Ok(false)` when it was unchanged, and the build error if
    /// re-rendering was refused.
    pub fn update(&mut self, text: &str, glyphs: &Vec<PixelUpdate>) -> (r: Result<
        bool,
        TextError,
    >)
        ensures
            match r {
                Ok(true) => {
                    &&& old(self).builder.text@ != text@
                    &&& build_error_for(
                        text@,
                        old(self).builder.spacing,
                        old(self).builder.projection,
                    ) is None
                    &&& final(self).builder.text@ == text@
                    &&& final(self).builder == (ScrollableBuilder {
                        text: final(self).builder.text,
                        ..old(self).builder
                    })
                    &&& final(self).text.wf()
                    &&& final(self).text.scroll == 0
                    &&& final(self).text.canvas.spec_width() == canvas_width_for(
                        text@,
                        old(self).builder.spacing,
                    )
                    &&& final(self).text.canvas.spec_height() == CHAR_HEIGHT
                    &&& forall|x: int, y: int|
                        0 <= x < final(self).text.canvas.spec_width()
                            && 0 <= y < final(self).text.canvas.spec_height()
                            ==> final(self).text.canvas.pixel(x, y)
                            == canvas_applied(glyphs@, false, x, y)
                    &&& final(self).text.projection == (match old(self).builder.projection {
                        Some(a) => a,
                        None => Area {
                            width: canvas_width_for(text@, old(self).builder.spacing) as u32,
                            height: CHAR_HEIGHT,
                        },
                    })
                    &&& final(self).text.position == (match old(self).builder.position {
                        Some(c) => c,
                        None => Coord { x: 0, y: 0 },
                    })
                },
                Ok(false) => {
                    &&& old(self).builder.text@ == text@
                    &&& *final(self) == *old(self)
                },
                Err(e) => {
                    &&& old(self).builder.text@ != text@
                    &&& *final(self) == *old(self)
                    &&& build_error_for(
                        text@,
                        old(self).builder.spacing,
                        old(self).builder.projection,
                    ) == Some(e)
                },
            },
    {
        let owned: String = text.to_owned();
        if !(self.builder.text == owned) {
            let new_builder = self.builder.duplicate().with_text(text);
            let new_text = new_builder.build(glyphs)?;
            self.builder = new_builder;
            self.text = new_text;
            return Ok(true);
        }
        Ok(false)
    }
}

} // verus!
