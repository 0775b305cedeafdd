//! The off-screen bit canvas that scrolling text is rendered into once and
//! then windowed from. Unlike [`crate::FrameBuffer`] it has no protocol
//! envelope and its size is chosen per text value.

use vstd::prelude::*;

use crate::framebuffer::PixelUpdate;

verus! {

/// An owned `width x height` bit canvas, row-major, no envelope bytes.
#[derive(Clone, Debug)]
pub struct ScrollableCanvas {
    width: u32,
    height: u32,
    canvas: Vec<bool>,
}

impl View for ScrollableCanvas {
    type V = Seq<bool>;

    closed spec fn view(&self) -> Seq<bool> {
        self.canvas@
    }
}

impl ScrollableCanvas {
    /// The canvas width in pixels.
    pub closed spec fn spec_width(self) -> u32 {
        self.width
    }

    /// The canvas height in pixels.
    pub closed spec fn spec_height(self) -> u32 {
        self.height
    }

    /// Well-formed: the bit store covers exactly `width x height` pixels.
    pub open spec fn wf(self) -> bool {
        self@.len() == self.spec_width() * self.spec_height()
    }

    /// The bit at column `x` of row `y`; meaningful for in-range coordinates.
    pub open spec fn pixel(self, x: int, y: int) -> bool {
        self@[y * self.spec_width() + x]
    }

    /// A cleared canvas of the requested size.
    pub fn new(width: u32, height: u32) -> (r: Self)
        requires
            width * height <= u32::MAX,
        ensures
            r.wf(),
            r.spec_width() == width,
            r.spec_height() == height,
            forall|i: int| 0 <= i < r@.len() ==> !r@[i],
            forall|x: int, y: int| 0 <= x < width && 0 <= y < height ==> !r.pixel(x, y),
    {
        let pixels: u32 = width * height;
        let mut canvas: Vec<bool> = Vec::new();
        let mut i: u32 = 0;
        while i < pixels
            invariant
                i <= pixels,
                canvas@.len() == i,
                forall|j: int| 0 <= j < i ==> !canvas@[j],
            decreases pixels - i,
        {
            canvas.push(false);
            i += 1;
        }
        proof {
            assert(canvas@.len() == width * height);
        }
        let r = ScrollableCanvas { width, height, canvas };
        proof {
            assert forall|x: int, y: int| 0 <= x < width && 0 <= y < height implies !r.pixel(x, y) by {
                lemma_cell_in_bounds(width as int, height as int, x, y);
            }
        }
        r
    }

    pub fn width(&self) -> (r: u32)
        ensures
            r == self.spec_width(),
    {
        self.width
    }

    pub fn height(&self) -> (r: u32)
        ensures
            r == self.spec_height(),
    {
        self.height
    }

    /// Reads the bit at `(x, y)`.
    pub fn get(&self, x: u32, y: u32) -> (r: bool)
        requires
            self.wf(),
            x < self.spec_width(),
            y < self.spec_height(),
        ensures
            r == self.pixel(x as int, y as int),
    {
        let n = self.canvas.len();
        proof {
            lemma_cell_in_bounds(self.width as int, self.height as int, x as int, y as int);
            assert(y * self.spec_width() + x < n);
        }
        let idx: usize = (y as usize) * (self.width as usize) + (x as usize);
        self.canvas[idx]
    }

    /// Sets the bit at `(x, y)`.
    pub fn set(&mut self, x: u32, y: u32, on: bool)
        requires
            old(self).wf(),
            x < old(self).spec_width(),
            y < old(self).spec_height(),
        ensures
            final(self).wf(),
            final(self).spec_width() == old(self).spec_width(),
            final(self).spec_height() == old(self).spec_height(),
            final(self)@ == old(self)@.update(
                y * old(self).spec_width() + x,
                on,
            ),
    {
        let n = self.canvas.len();
        proof {
            lemma_cell_in_bounds(self.width as int, self.height as int, x as int, y as int);
            assert(y * self.spec_width() + x < n);
        }
        let idx: usize = (y as usize) * (self.width as usize) + (x as usize);
        self.canvas.set(idx, on);
    }

    /// Applies a list of pixel writes; writes outside the canvas are ignored,
    /// later writes to the same cell win.
    pub fn set_pixels(&mut self, updates: &Vec<PixelUpdate>)
        requires
            old(self).wf(),
        ensures
            final(self).wf(),
            final(self).spec_width() == old(self).spec_width(),
            final(self).spec_height() == old(self).spec_height(),
            forall|x: int, y: int|
                0 <= x < old(self).spec_width() && 0 <= y < old(self).spec_height() ==>
                    final(self).pixel(x, y) == canvas_applied(
                        updates@,
                        old(self).pixel(x, y),
                        x,
                        y,
                    ),
    {
        let n = updates.len();
        let mut i: usize = 0;
        while i < n
            invariant
                i <= n,
                n == updates@.len(),
                self.wf(),
                self.spec_width() == old(self).spec_width(),
                self.spec_height() == old(self).spec_height(),
                forall|x: int, y: int|
                    0 <= x < old(self).spec_width() && 0 <= y < old(self).spec_height() ==>
                        self.pixel(x, y) == canvas_applied(
                            updates@.take(i as int),
                            old(self).pixel(x, y),
                            x,
                            y,
                        ),
            decreases n - i,
        {
            let u = updates[i];
            let w = self.width;
            let h = self.height;
            if 0 <= u.x && (u.x as u32) < w && 0 <= u.y && (u.y as u32) < h {
                let ghost pre = *self;
                self.set(u.x as u32, u.y as u32, u.on);
                proof {
                    assert forall|x: int, y: int|
                        0 <= x < w && 0 <= y < h implies
                        self.pixel(x, y) == canvas_applied(
                            updates@.take(i + 1),
                            old(self).pixel(x, y),
                            x,
                            y,
                        ) by {
                        assert(updates@.take(i + 1).drop_last() =~= updates@.take(i as int));
                        assert(updates@.take(i + 1).last() == updates@[i as int]);
                        lemma_cell_in_bounds(w as int, h as int, x, y);
                        lemma_cell_in_bounds(w as int, h as int, u.x as int, u.y as int);
                        if x == u.x as int && y == u.y as int {
                        } else {
                            lemma_distinct_cells(w as int, h as int, x, y, u.x as int, u.y as int);
                            assert(self.pixel(x, y) == pre.pixel(x, y));
                        }
                    }
                }
            } else {
                proof {
                    assert forall|x: int, y: int|
                        0 <= x < w && 0 <= y < h implies
                        self.pixel(x, y) == canvas_applied(
                            updates@.take(i + 1),
                            old(self).pixel(x, y),
                            x,
                            y,
                        ) by {
                        assert(updates@.take(i + 1).drop_last() =~= updates@.take(i as int));
                        assert(updates@.take(i + 1).last() == updates@[i as int]);
                    }
                }
            }
            i += 1;
        }
        proof {
            assert(updates@.take(n as int) =~= updates@);
        }
    }

    /// Fills the whole canvas with one value.
    pub fn fill(&mut self, on: bool)
        requires
            old(self).wf(),
        ensures
            final(self).wf(),
            final(self).spec_width() == old(self).spec_width(),
            final(self).spec_height() == old(self).spec_height(),
            forall|i: int| 0 <= i < final(self)@.len() ==> final(self)@[i] == on,
    {
        let n = self.canvas.len();
        let mut i: usize = 0;
        while i < n
            invariant
                i <= n,
                n == self.canvas@.len(),
                self.spec_width() == old(self).spec_width(),
                self.spec_height() == old(self).spec_height(),
                self.canvas@.len() == old(self)@.len(),
                old(self).wf(),
                forall|j: int| 0 <= j < i ==> self.canvas@[j] == on,
            decreases n - i,
        {
            self.canvas.set(i, on);
            i += 1;
        }
    }
}

/// The value of canvas cell `(x, y)` after applying `ups` in order to a cell
/// whose prior value was `orig`.
pub open spec fn canvas_applied(ups: Seq<PixelUpdate>, orig: bool, x: int, y: int) -> bool
    decreases ups.len(),
{
    if ups.len() == 0 {
        orig
    } else if ups.last().x == x && ups.last().y == y {
        ups.last().on
    } else {
        canvas_applied(ups.drop_last(), orig, x, y)
    }
}

/// Row-major addressing stays inside a `w x h` store.
proof fn lemma_cell_in_bounds(w: int, h: int, x: int, y: int)
    requires
        0 <= x < w,
        0 <= y < h,
    ensures
        0 <= y * w + x < w * h,
{
    assert(y * w + x < (y + 1) * w) by (nonlinear_arith)
        requires 0 <= x < w;
    assert((y + 1) * w <= h * w) by (nonlinear_arith)
        requires 0 <= w && y + 1 <= h;
    assert(y * w + x >= 0) by (nonlinear_arith)
        requires 0 <= x && 0 <= y && 0 <= w;
}

/// Distinct in-range cells map to distinct row-major indices.
proof fn lemma_distinct_cells(w: int, h: int, x1: int, y1: int, x2: int, y2: int)
    requires
        0 <= x1 < w,
        0 <= y1 < h,
        0 <= x2 < w,
        0 <= y2 < h,
        !(x1 == x2 && y1 == y2),
    ensures
        y1 * w + x1 != y2 * w + x2,
{
    if y1 == y2 {
    } else {
        assert(y1 * w + x1 != y2 * w + x2) by (nonlinear_arith)
            requires 0 <= x1 < w && 0 <= x2 < w && y1 != y2;
    }
}

} // verus!
