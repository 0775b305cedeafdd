//! Animated and still images for the display: turning decoded RGBA frames
//! into 1-bit packed rows (thresholding at the frame's median brightness),
//! blitting packed rows onto the frame buffer, and the frame-advance
//! bookkeeping of the gif and image sources.

use vstd::prelude::*;

use crate::framebuffer::FrameBuffer;
use crate::framebuffer::byte_bit;
use crate::framebuffer::lemma_mask_write;
use crate::framebuffer::lemma_mask_write_other;
use crate::text::Coord;

verus! {

/// A decoded RGBA frame as plain values: its size and its pixel bytes, four
/// per pixel, row-major.
#[derive(Clone, Debug)]
pub struct RgbaFrame {
    pub width: u16,
    pub height: u16,
    pub data: Vec<u8>,
}

impl RgbaFrame {
    /// The pixel store covers the whole advertised size.
    pub open spec fn complete(self) -> bool {
        self.data@.len() == 4 * self.width * self.height
    }
}

/// The byte at `i`, or 0 past the end — decoders may hand short buffers.
pub open spec fn byte_or0(data: Seq<u8>, i: int) -> u8 {
    if 0 <= i < data.len() {
        data[i]
    } else {
        0
    }
}

/// Offset of pixel `(x, y)`'s first byte in a `fw`-wide RGBA frame.
pub open spec fn cell_start(fw: int, x: int, y: int) -> int {
    (y * fw + x) * 4
}

pub open spec fn spec_min3(a: int, b: int, c: int) -> int {
    if a <= b && a <= c {
        a
    } else if b <= c {
        b
    } else {
        c
    }
}

/// Rows of the requested area that are actually processed: cut at the frame
/// height and at the display height.
pub open spec fn rows_limit(gh: int, fh: int) -> int {
    spec_min3(gh, fh, 40)
}

/// Columns of the requested area whose pixels are actually sampled: cut at
/// the frame width and at the display width.
pub open spec fn cols_limit(gw: int, fw: int) -> int {
    spec_min3(gw, fw, 128)
}

fn min3(a: i32, b: i32, c: i32) -> (r: i32)
    ensures
        r == spec_min3(a as int, b as int, c as int),
{
    if a <= b && a <= c {
        a
    } else if b <= c {
        b
    } else {
        c
    }
}

/// The brightness bucket of the pixel starting at `s`: the mean of its
/// colour channels.
pub open spec fn cell_avg(data: Seq<u8>, s: int) -> int {
    (data[s] + data[s + 1] + data[s + 2]) / 3
}

/// What the pixel at `(x, y)` adds to brightness bucket `c` of the gif
/// histogram: its alpha weight (0 or 1), when its bytes exist and its mean
/// falls in the bucket.
pub open spec fn gif_cell_weight(data: Seq<u8>, fw: int, x: int, y: int, c: int) -> int {
    let s = cell_start(fw, x, y);
    if s + 4 <= data.len() && cell_avg(data, s) == c {
        (data[s + 3] as int) / 255
    } else {
        0
    }
}

/// Bucket `c` contributions of row `y`, columns `< x`.
pub open spec fn gif_row_hist(data: Seq<u8>, fw: int, y: int, c: int, x: nat) -> int
    decreases x,
{
    if x == 0 {
        0
    } else {
        gif_row_hist(data, fw, y, c, (x - 1) as nat) + gif_cell_weight(data, fw, x - 1, y, c)
    }
}

/// Bucket `c` contributions of the whole sampled area.
pub open spec fn gif_hist(data: Seq<u8>, fw: int, c: int, rows: nat, cols: nat) -> int
    decreases rows,
{
    if rows == 0 {
        0
    } else {
        gif_hist(data, fw, c, (rows - 1) as nat, cols) + gif_row_hist(
            data,
            fw,
            rows - 1,
            c,
            cols,
        )
    }
}

/// Weighted pixel count over buckets `0 ..= c`.
pub open spec fn gif_cum(data: Seq<u8>, fw: int, rows: nat, cols: nat, c: nat) -> int
    decreases c,
{
    gif_hist(data, fw, c as int, rows, cols) + if c == 0 {
        0
    } else {
        gif_cum(data, fw, rows, cols, (c - 1) as nat)
    }
}

/// The median search from bucket `c` up: the first bucket whose cumulative
/// weight reaches `half` (bucket 0 is reported as 1, as is exhaustion).
pub open spec fn gif_median_from(
    data: Seq<u8>,
    fw: int,
    rows: nat,
    cols: nat,
    half: int,
    c: nat,
) -> int
    decreases 256 - c,
{
    if c >= 256 {
        1
    } else if gif_cum(data, fw, rows, cols, c) >= half {
        if c == 0 {
            1
        } else {
            c as int
        }
    } else {
        gif_median_from(data, fw, rows, cols, half, (c + 1) as nat)
    }
}

/// The threshold brightness of a gif frame: the median of the alpha-weighted
/// brightness histogram, against half the nominal pixel count.
pub open spec fn spec_gif_median(data: Seq<u8>, fw: int, gh: int, fh: int, gw: int) -> int {
    gif_median_from(
        data,
        fw,
        rows_limit(gh, fh) as nat,
        cols_limit(gw, fw) as nat,
        (gw * gh) / 2,
        0,
    )
}

proof fn lemma_gif_row_hist_bound(data: Seq<u8>, fw: int, y: int, c: int, x: nat)
    ensures
        0 <= gif_row_hist(data, fw, y, c, x) <= x,
    decreases x,
{
    if x > 0 {
        lemma_gif_row_hist_bound(data, fw, y, c, (x - 1) as nat);
    }
}

proof fn lemma_gif_hist_bound(data: Seq<u8>, fw: int, c: int, rows: nat, cols: nat)
    ensures
        0 <= gif_hist(data, fw, c, rows, cols) <= rows * cols,
    decreases rows,
{
    if rows > 0 {
        lemma_gif_hist_bound(data, fw, c, (rows - 1) as nat, cols);
        lemma_gif_row_hist_bound(data, fw, rows - 1, c, cols);
        assert((rows - 1) * cols + cols == rows * cols) by (nonlinear_arith);
    } else {
        assert(rows * cols == 0) by (nonlinear_arith)
            requires rows == 0;
    }
}

proof fn lemma_gif_cum_bound(data: Seq<u8>, fw: int, rows: nat, cols: nat, c: nat)
    ensures
        0 <= gif_cum(data, fw, rows, cols, c) <= (c + 1) * (rows * cols),
    decreases c,
{
    lemma_gif_hist_bound(data, fw, c as int, rows, cols);
    if c > 0 {
        lemma_gif_cum_bound(data, fw, rows, cols, (c - 1) as nat);
        assert(c * (rows * cols) + rows * cols == (c + 1) * (rows * cols)) by (nonlinear_arith);
    } else {
        assert((c + 1) * (rows * cols) == rows * cols) by (nonlinear_arith)
            requires c == 0;
    }
}

/// Pixel byte offsets of the sampled area stay inside machine bounds.
proof fn lemma_cell_start_small(fw: int, x: int, y: int)
    requires
        0 <= x < 128,
        0 <= y < 40,
        0 <= fw <= 65535,
    ensures
        0 <= cell_start(fw, x, y) <= 11000000,
        cell_start(fw, x, y) == (y * fw + x) * 4,
{
    assert(0 <= y * fw <= 39 * 65535) by (nonlinear_arith)
        requires 0 <= y < 40 && 0 <= fw <= 65535;
}

/// Builds the 256-bucket alpha-weighted brightness histogram of the sampled
/// area, exactly as the median definitions count it.
#[verifier::loop_isolation(false)]
fn gif_histogram(frame: &RgbaFrame, rows: i32, cols: i32) -> (colors: Vec<u32>)
    requires
        0 <= rows <= 40,
        0 <= cols <= 128,
        cols <= frame.width,
    ensures
        colors@.len() == 256,
        forall|c: int| 0 <= c < 256 ==> colors@[c] == gif_hist(
            frame.data@,
            frame.width as int,
            c,
            rows as nat,
            cols as nat,
        ),
{
    let mut colors: Vec<u32> = Vec::new();
    let mut i: usize = 0;
    while i < 256
        invariant
            i <= 256,
            colors@.len() == i,
            forall|c: int| 0 <= c < i ==> colors@[c] == 0u32,
        decreases 256 - i,
    {
        colors.push(0);
        i += 1;
    }
    let data = &frame.data;
    let dlen = data.len();
    let fw = frame.width;
    let ghost dv = frame.data@;
    let ghost fwi = frame.width as int;
    let mut y: i32 = 0;
    while y < rows
        invariant
            0 <= y <= rows,
            rows <= 40,
            0 <= cols <= 128,
            cols <= fw,
            dv == frame.data@,
            fwi == fw as int,
            dlen == dv.len(),
            colors@.len() == 256,
            forall|c: int| 0 <= c < 256 ==> colors@[c] == gif_hist(
                dv,
                fwi,
                c,
                y as nat,
                cols as nat,
            ),
        decreases rows - y,
    {
        let mut x: i32 = 0;
        while x < cols
            invariant
                0 <= y < rows,
                0 <= x <= cols,
                rows <= 40,
                0 <= cols <= 128,
                cols <= fw,
                dv == frame.data@,
                fwi == fw as int,
                dlen == dv.len(),
                colors@.len() == 256,
                forall|c: int| 0 <= c < 256 ==> colors@[c] == gif_hist(dv, fwi, c, y as nat, cols as nat)
                    + gif_row_hist(dv, fwi, y as int, c, x as nat),
            decreases cols - x,
        {
            proof {
                lemma_cell_start_small(fwi, x as int, y as int);
            }
            let start: usize = ((y as usize) * (fw as usize) + (x as usize)) * 4;
            if start + 4 <= dlen {
                let cr = data[start];
                let cg = data[start + 1];
                let cb = data[start + 2];
                let ca = data[start + 3];
                let avg: u32 = ((cr as u32) + (cg as u32) + (cb as u32)) / 3;
                let w: u32 = (ca as u32) / 255;
                let cur = colors[avg as usize];
                proof {
                    lemma_gif_hist_bound(dv, fwi, avg as int, y as nat, cols as nat);
                    lemma_gif_row_hist_bound(dv, fwi, y as int, avg as int, x as nat);
                    assert((y as int) * (cols as int) <= 5120) by (nonlinear_arith)
                        requires 0 <= y <= 40 && 0 <= cols <= 128;
                }
                colors.set(avg as usize, cur + w);
                proof {
                    assert forall|c: int| 0 <= c < 256 implies colors@[c] == gif_hist(
                        dv,
                        fwi,
                        c,
                        y as nat,
                        cols as nat,
                    ) + gif_row_hist(dv, fwi, y as int, c, (x + 1) as nat) by {
                        assert(gif_row_hist(dv, fwi, y as int, c, (x + 1) as nat)
                            == gif_row_hist(dv, fwi, y as int, c, x as nat)
                            + gif_cell_weight(dv, fwi, x as int, y as int, c));
                    }
                }
            } else {
                proof {
                    assert forall|c: int| 0 <= c < 256 implies colors@[c] == gif_hist(
                        dv,
                        fwi,
                        c,
                        y as nat,
                        cols as nat,
                    ) + gif_row_hist(dv, fwi, y as int, c, (x + 1) as nat) by {
                        assert(gif_cell_weight(dv, fwi, x as int, y as int, c) == 0);
                    }
                }
            }
            x += 1;
        }
        proof {
            assert forall|c: int| 0 <= c < 256 implies colors@[c] == gif_hist(
                dv,
                fwi,
                c,
                (y + 1) as nat,
                cols as nat,
            ) by {
                assert(gif_hist(dv, fwi, c, (y + 1) as nat, cols as nat) == gif_hist(
                    dv,
                    fwi,
                    c,
                    y as nat,
                    cols as nat,
                ) + gif_row_hist(dv, fwi, y as int, c, cols as nat));
            }
        }
        y += 1;
    }
    colors
}

/// The animated-image source: the frames of a decoded gif, packed to one bit
/// per pixel, with the position they are blitted to and their delays.
pub struct Gif {
    pub origin: Coord,
    pub stop: Coord,
    pub decoded_frames: Vec<Vec<u8>>,
    pub current_frame: usize,
    pub delays: Vec<u16>,
}

impl Gif {
    /// The threshold between black and white for a gif frame: the median of
    /// the alpha-weighted brightness histogram of the sampled area. Bucket 0
    /// maps to 1 so fully black frames still show structure.
    #[verifier::loop_isolation(false)]
    pub fn calculate_median_color_value(frame: &RgbaFrame, gif_height: i32, gif_width: i32) -> (r:
        u8)
        requires
            0 <= gif_height,
            0 <= gif_width,
            gif_width * gif_height <= u32::MAX,
        ensures
            r == spec_gif_median(
                frame.data@,
                frame.width as int,
                gif_height as int,
                frame.height as int,
                gif_width as int,
            ),
    {
        let rows = min3(gif_height, frame.height as i32, 40);
        let cols = min3(gif_width, frame.width as i32, 128);
        let colors = gif_histogram(frame, rows, cols);
        let ghost dv = frame.data@;
        let ghost fwi = frame.width as int;
        proof {
            assert(gif_width * gif_height >= 0) by (nonlinear_arith)
                requires gif_width >= 0 && gif_height >= 0;
        }
        let num_pixels: u32 = (gif_width as u32) * (gif_height as u32);
        let half: u32 = num_pixels / 2;
        let mut sum: u32 = 0;
        let mut i: usize = 0;
        while i < 256
            invariant
                i <= 256,
                colors@.len() == 256,
                forall|c: int| 0 <= c < 256 ==> colors@[c] == gif_hist(
                    dv,
                    fwi,
                    c,
                    rows as nat,
                    cols as nat,
                ),
                0 <= rows <= 40,
                0 <= cols <= 128,
                half == (gif_width * gif_height) / 2,
                rows == rows_limit(gif_height as int, frame.height as int),
                cols == cols_limit(gif_width as int, frame.width as int),
                sum == if i == 0 {
                    0int
                } else {
                    gif_cum(dv, fwi, rows as nat, cols as nat, (i - 1) as nat)
                },
                gif_median_from(dv, fwi, rows as nat, cols as nat, half as int, 0)
                    == gif_median_from(dv, fwi, rows as nat, cols as nat, half as int, i as nat),
            decreases 256 - i,
        {
            let count = colors[i];
            proof {
                lemma_gif_cum_bound(dv, fwi, rows as nat, cols as nat, i as nat);
                lemma_gif_hist_bound(dv, fwi, i as int, rows as nat, cols as nat);
                if i > 0 {
                    lemma_gif_cum_bound(dv, fwi, rows as nat, cols as nat, (i - 1) as nat);
                }
                assert((rows as int) * (cols as int) <= 5120) by (nonlinear_arith)
                    requires 0 <= rows <= 40 && 0 <= cols <= 128;
                assert((i as int + 1) * ((rows as int) * (cols as int)) <= 257 * 5120)
                    by (nonlinear_arith)
                    requires 0 <= (rows as int) * (cols as int) <= 5120 && i <= 256;
            }
            sum = sum + count;
            proof {
                assert(sum == gif_cum(dv, fwi, rows as nat, cols as nat, i as nat));
            }
            if sum >= half {
                let res: u8 = if i == 0 {
                    1
                } else {
                    i as u8
                };
                return res;
            }
            i += 1;
        }
        1
    }

    /// Packs one gif frame to 1-bit rows against the frame's median.
    pub fn read_frame(frame: &RgbaFrame, gif_height: i32, gif_width: i32) -> (r: Vec<u8>)
        requires
            0 <= gif_height,
            0 <= gif_width,
            gif_width * gif_height <= u32::MAX,
        ensures
            ({
                let median = spec_gif_median(
                    frame.data@,
                    frame.width as int,
                    gif_height as int,
                    frame.height as int,
                    gif_width as int,
                );
                let nrows = rows_limit(gif_height as int, frame.height as int);
                let bpr = bytes_per_row(gif_width as int);
                &&& r@.len() == nrows * bpr
                &&& forall|row: int, j: int, t: int|
                    0 <= row < nrows && 0 <= j < bpr && 0 <= t < 8 ==> #[trigger] byte_bit(
                        r@[row * bpr + j],
                        t as u8,
                    ) == packed_bit(
                        frame.data@,
                        frame.width as int,
                        median,
                        gif_width as int,
                        8 * j + t,
                        row,
                    )
            }),
    {
        let median_color = Self::calculate_median_color_value(frame, gif_height, gif_width);
        pack_rows(frame, gif_height, gif_width, median_color)
    }

    /// The gif is positioned and non-degenerate, and the cursor is on a frame.
    pub open spec fn wf(self) -> bool {
        &&& self.decoded_frames@.len() > 0
        &&& self.delays@.len() == self.decoded_frames@.len()
        &&& self.current_frame < self.decoded_frames@.len()
        &&& self.origin.x < self.stop.x
        &&& self.stop.x <= self.origin.x + 128
    }

    /// Blits the current frame at the gif's origin.
    pub fn draw(&self, target: &mut FrameBuffer)
        requires
            self.wf(),
            old(target).wf(),
        ensures
            final(target).wf(),
            forall|x: int, y: int| FrameBuffer::in_range(x, y) ==> final(target).pixel(x, y)
                == blit_pixel(
                *old(target),
                self.decoded_frames@[self.current_frame as int]@,
                self.origin.x as int,
                self.origin.y as int,
                (self.stop.x - self.origin.x) as int,
                x,
                y,
            ),
    {
        let frame_data = &self.decoded_frames[self.current_frame];
        let width: u32 = (self.stop.x - self.origin.x) as u32;
        target.draw_packed(self.origin.x, self.origin.y, frame_data, width);
    }

    /// Advances to the next frame when the current frame's delay (in 10 ms
    /// gif units) has elapsed; reports whether the animation wrapped around.
    pub fn advance_if_due(&mut self, elapsed_ms: u64) -> (ended: bool)
        requires
            old(self).wf(),
        ensures
            final(self).wf(),
            final(self).decoded_frames == old(self).decoded_frames,
            final(self).delays == old(self).delays,
            final(self).origin == old(self).origin,
            final(self).stop == old(self).stop,
            ({
                let due = elapsed_ms >= old(self).delays@[old(self).current_frame as int] * 10;
                &&& ended == (due && old(self).current_frame + 1
                    >= old(self).decoded_frames@.len())
                &&& final(self).current_frame == if !due {
                    old(self).current_frame as int
                } else if old(self).current_frame + 1 >= old(self).decoded_frames@.len() {
                    0int
                } else {
                    old(self).current_frame + 1
                }
            }),
    {
        let delay = self.delays[self.current_frame];
        let n = self.decoded_frames.len();
        if elapsed_ms >= (delay as u64) * 10 {
            let next_frame = self.current_frame + 1;
            let has_ended = next_frame >= n;
            if has_ended {
                self.current_frame = 0;
            } else {
                self.current_frame = next_frame;
            }
            has_ended
        } else {
            false
        }
    }
}

/// How many packed bytes one processed row yields: eight columns per byte,
/// and the flush at the end of the row always emits one.
pub open spec fn bytes_per_row(gw: int) -> int {
    if gw <= 0 {
        1
    } else {
        (gw - 1) / 8 + 1
    }
}

/// The brightness the packer compares against the median: the per-channel
/// third, over bytes that read as 0 past the end of a short buffer.
pub open spec fn packed_mean(data: Seq<u8>, s: int) -> int {
    byte_or0(data, s) / 3 + byte_or0(data, s + 1) / 3 + byte_or0(data, s + 2) / 3
}

/// Whether the packed bit for column `x` of row `y` is set: the column must
/// exist in the requested area, the frame and the display, and the pixel's
/// mean brightness must reach the median.
pub open spec fn packed_bit(
    data: Seq<u8>,
    fw: int,
    median: int,
    gw: int,
    x: int,
    y: int,
) -> bool {
    &&& x < gw
    &&& x < fw
    &&& x < 128
    &&& packed_mean(data, cell_start(fw, x, y)) >= median
}

fn byte_at(data: &Vec<u8>, i: usize) -> (r: u8)
    ensures
        r == byte_or0(data@, i as int),
{
    if i < data.len() {
        data[i]
    } else {
        0
    }
}

/// Packs the sampled area of a frame into 1-bit rows, most significant bit
/// first, one bit per column, thresholding the mean brightness at `median`.
#[verifier::loop_isolation(false)]
fn pack_rows(frame: &RgbaFrame, gif_height: i32, gif_width: i32, median: u8) -> (r: Vec<u8>)
    requires
        0 <= gif_height,
        0 <= gif_width,
    ensures
        ({
            let nrows = rows_limit(gif_height as int, frame.height as int);
            let bpr = bytes_per_row(gif_width as int);
            &&& r@.len() == nrows * bpr
            &&& forall|row: int, j: int, t: int|
                0 <= row < nrows && 0 <= j < bpr && 0 <= t < 8 ==> #[trigger] byte_bit(
                    r@[row * bpr + j],
                    t as u8,
                ) == packed_bit(
                    frame.data@,
                    frame.width as int,
                    median as int,
                    gif_width as int,
                    8 * j + t,
                    row,
                )
        }),
{
    let rows: i32 = min3(gif_height, frame.height as i32, 40);
    let bpr: i32 = if gif_width == 0 {
        1
    } else {
        (gif_width - 1) / 8 + 1
    };
    let ghost dv = frame.data@;
    let ghost fwi = frame.width as int;
    let ghost gwi = gif_width as int;
    let ghost bpri = bpr as int;
    let data = &frame.data;
    let fw = frame.width;
    let mut out: Vec<u8> = Vec::new();
    let mut y: i32 = 0;
    while y < rows
        invariant
            0 <= y <= rows,
            rows <= 40,
            rows == rows_limit(gif_height as int, frame.height as int),
            bpri == bytes_per_row(gwi),
            bpri == bpr as int,
            1 <= bpr,
            gwi == gif_width as int,
            0 <= gwi,
            dv == frame.data@,
            fwi == fw as int,
            fw == frame.width,
            out@.len() == y * bpri,
            forall|row: int, j: int, t: int|
                0 <= row < y && 0 <= j < bpri && 0 <= t < 8 ==> #[trigger] byte_bit(
                    out@[row * bpri + j],
                    t as u8,
                ) == packed_bit(dv, fwi, median as int, gwi, 8 * j + t, row),
        decreases rows - y,
    {
        let mut j: i32 = 0;
        while j < bpr
            invariant
                0 <= y < rows,
                rows <= 40,
                rows == rows_limit(gif_height as int, frame.height as int),
                0 <= j <= bpr,
                bpri == bytes_per_row(gwi),
                bpri == bpr as int,
                1 <= bpr,
                gwi == gif_width as int,
                0 <= gwi,
                dv == frame.data@,
                fwi == fw as int,
                fw == frame.width,
                out@.len() == y * bpri + j,
                forall|row: int, jj: int, t: int|
                    0 <= row < y && 0 <= jj < bpri && 0 <= t < 8 ==> #[trigger] byte_bit(
                        out@[row * bpri + jj],
                        t as u8,
                    ) == packed_bit(dv, fwi, median as int, gwi, 8 * jj + t, row),
                forall|jj: int, t: int|
                    0 <= jj < j && 0 <= t < 8 ==> #[trigger] byte_bit(
                        out@[y * bpri + jj],
                        t as u8,
                    ) == packed_bit(dv, fwi, median as int, gwi, 8 * jj + t, y as int),
            decreases bpr - j,
        {
            let mut buf: u8 = 0;
            proof {
                assert forall|tt: u8| tt < 8 implies !byte_bit(0u8, tt) by {
                    assert(0u8 & (0x80u8 >> tt) == 0) by (bit_vector);
                }
            }
            let mut t: i32 = 0;
            while t < 8
                invariant
                    0 <= y < rows,
                    rows <= 40,
                    rows == rows_limit(gif_height as int, frame.height as int),
                    0 <= j < bpr,
                    0 <= t <= 8,
                    bpri == bpr as int,
                    gwi == gif_width as int,
                    dv == frame.data@,
                    fwi == fw as int,
                    fw == frame.width,
                    forall|tt: int| 0 <= tt < 8 ==> #[trigger] byte_bit(buf, tt as u8) == (tt < t
                        && packed_bit(dv, fwi, median as int, gwi, 8 * (j as int) + tt, y as int)),
                decreases 8 - t,
            {
                let ghost old_buf = buf;
                let x: i64 = 8 * (j as i64) + (t as i64);
                let mut set_bit = false;
                if x < gif_width as i64 && x < fw as i64 && x < 128 {
                    proof {
                        lemma_cell_start_small(fwi, x as int, y as int);
                    }
                    let start: usize = ((y as usize) * (fw as usize) + (x as usize)) * 4;
                    let mean: u8 = byte_at(data, start) / 3 + byte_at(data, start + 1) / 3
                        + byte_at(data, start + 2) / 3;
                    if mean >= median {
                        set_bit = true;
                    }
                }
                proof {
                    assert(set_bit == packed_bit(
                        dv,
                        fwi,
                        median as int,
                        gwi,
                        8 * (j as int) + t,
                        y as int,
                    ));
                }
                if set_bit {
                    let mask: u8 = 0x80u8 >> (t as u8);
                    proof {
                        lemma_mask_write(old_buf, t as u8, true);
                        assert forall|tt: int| 0 <= tt < 8 && tt != t implies #[trigger] byte_bit(
                            (old_buf | (0x80u8 >> (t as u8))),
                            tt as u8,
                        ) == byte_bit(old_buf, tt as u8) by {
                            lemma_mask_write_other(old_buf, t as u8, true, tt as u8);
                        }
                    }
                    buf = buf | mask;
                }
                t += 1;
            }
            let ghost pre_push = out@;
            out.push(buf);
            proof {
                assert(out@.len() == y * bpri + j + 1);
                assert(out@[y * bpri + (j as int)] == buf);
                assert forall|row: int, jj: int|
                    (0 <= row < y && 0 <= jj < bpri) || (row == y && 0 <= jj < j) implies
                    #[trigger] out@[row * bpri + jj] == pre_push[row * bpri + jj] by {
                    if row < y {
                        assert(0 <= row * bpri + jj && row * bpri + jj < y * bpri) by (nonlinear_arith)
                            requires 0 <= row && row < y && 0 <= jj < bpri && bpri >= 1;
                        assert(y * bpri >= 0) by (nonlinear_arith)
                            requires 0 <= y && bpri >= 1;
                    }
                }
            }
            j += 1;
        }
        proof {
            assert(out@.len() == y * bpri + bpri);
            assert((y + 1) * bpri == y * bpri + bpri) by (nonlinear_arith);
        }
        y += 1;
    }
    proof {
        assert(out@.len() == rows * bpri);
    }
    out
}

impl FrameBuffer {
    /// Blits packed 1-bit rows (as the packer produces them) at an origin:
    /// every pixel of the image rectangle is written, set or cleared, and
    /// everything outside it is untouched. The row count is what the data
    /// length holds whole rows for.
    #[verifier::loop_isolation(false)]
    pub fn draw_packed(&mut self, origin_x: i32, origin_y: i32, data: &Vec<u8>, width: u32)
        requires
            old(self).wf(),
            width > 0,
            width <= 128,
        ensures
            final(self).wf(),
            forall|x: int, y: int| FrameBuffer::in_range(x, y) ==> final(self).pixel(x, y)
                == blit_pixel(*old(self), data@, origin_x as int, origin_y as int, width as int, x, y),
    {
        let stride: usize = ((width as usize) + 7) / 8;
        let nrows: usize = data.len() / stride;
        let ghost dv = data@;
        let mut y: i32 = 0;
        while y < 40
            invariant
                0 <= y <= 40,
                self.wf(),
                stride == ((width as int) + 7) / 8,
                nrows == dv.len() as int / (stride as int),
                dv == data@,
                forall|a: int, b: int| FrameBuffer::in_range(a, b) ==> self.pixel(a, b)
                    == if blit_covers(origin_x as int, origin_y as int, width as int, dv, a, b)
                        && b < y {
                        blit_bit(dv, width as int, a - origin_x, b - origin_y)
                    } else {
                        old(self).pixel(a, b)
                    },
            decreases 40 - y,
        {
            let imgrow_i: i64 = y as i64 - origin_y as i64;
            if 0 <= imgrow_i && (imgrow_i as u64) < (nrows as u64) {
                let imgrow: usize = imgrow_i as usize;
                let mut col: u32 = 0;
                while col < width
                    invariant
                        0 <= y < 40,
                        col <= width,
                        self.wf(),
                        imgrow == y - origin_y,
                        imgrow < nrows,
                        forall|a: int, b: int| FrameBuffer::in_range(a, b) ==> self.pixel(a, b)
                            == if blit_covers(origin_x as int, origin_y as int, width as int, dv, a, b)
                                && (b < y || (b == y && a - origin_x < col)) {
                                blit_bit(dv, width as int, a - origin_x, b - origin_y)
                            } else {
                                old(self).pixel(a, b)
                            },
                    decreases width - col,
                {
                    proof {
                        lemma_blit_index(dv, width as int, col as int, imgrow as int, stride as int, nrows as int);
                    }
                    let idx: usize = imgrow * stride + (col as usize) / 8;
                    let b = data[idx];
                    let on = b & (0x80u8 >> ((col % 8) as u8)) != 0;
                    proof {
                        assert(on == blit_bit(dv, width as int, col as int, imgrow as int));
                    }
                    let fx: i64 = origin_x as i64 + col as i64;
                    if 0 <= fx && fx < 128 {
                        self.draw_pixel(fx as i32, y, on);
                    }
                    col += 1;
                }
            } else {
                proof {
                    assert forall|a: int, b: int| FrameBuffer::in_range(a, b) && b == y implies
                        !blit_covers(origin_x as int, origin_y as int, width as int, dv, a, b) by {
                    }
                }
            }
            y += 1;
        }
    }
}

/// Whether the blit of `width`-wide packed rows at the origin covers `(x, y)`.
pub open spec fn blit_covers(
    origin_x: int,
    origin_y: int,
    width: int,
    data: Seq<u8>,
    x: int,
    y: int,
) -> bool {
    &&& 0 <= x - origin_x < width
    &&& 0 <= y - origin_y < data.len() as int / ((width + 7) / 8)
}

/// The packed bit for image column `col` of image row `row`.
pub open spec fn blit_bit(data: Seq<u8>, width: int, col: int, row: int) -> bool {
    byte_bit(data[row * ((width + 7) / 8) + col / 8], (col % 8) as u8)
}

/// The pixel a blit leaves at `(x, y)`: the packed bit inside the image
/// rectangle, the prior pixel outside it.
pub open spec fn blit_pixel(
    base: FrameBuffer,
    data: Seq<u8>,
    origin_x: int,
    origin_y: int,
    width: int,
    x: int,
    y: int,
) -> bool {
    if blit_covers(origin_x, origin_y, width, data, x, y) {
        blit_bit(data, width, x - origin_x, y - origin_y)
    } else {
        base.pixel(x, y)
    }
}

proof fn lemma_blit_index(data: Seq<u8>, width: int, col: int, row: int, stride: int, nrows: int)
    requires
        0 < width,
        0 <= col < width,
        0 <= row < nrows,
        stride == (width + 7) / 8,
        nrows == data.len() as int / stride,
    ensures
        0 <= row * stride + col / 8 < data.len(),
        row * stride + col / 8 < nrows * stride <= data.len(),
{
    assert(0 <= col / 8 < stride);
    assert(row * stride + stride <= nrows * stride) by (nonlinear_arith)
        requires row < nrows && stride > 0;
    assert(row * stride >= 0) by (nonlinear_arith)
        requires row >= 0 && stride > 0;
    assert(nrows * stride <= data.len()) by (nonlinear_arith)
        requires stride > 0 && nrows == data.len() as int / stride;
}

/// What the pixel at `(x, y)` adds to brightness bucket `c` of the image
/// histogram: its full alpha value, when its bytes exist and its mean falls
/// in the bucket.
pub open spec fn img_cell_weight(data: Seq<u8>, fw: int, x: int, y: int, c: int) -> int {
    let s = cell_start(fw, x, y);
    if s + 4 <= data.len() && cell_avg(data, s) == c {
        data[s + 3] as int
    } else {
        0
    }
}

/// Bucket `c` contributions of row `y`, columns `< x` (alpha-weighted).
pub open spec fn img_row_hist(data: Seq<u8>, fw: int, y: int, c: int, x: nat) -> int
    decreases x,
{
    if x == 0 {
        0
    } else {
        img_row_hist(data, fw, y, c, (x - 1) as nat) + img_cell_weight(data, fw, x - 1, y, c)
    }
}

/// Bucket `c` contributions of the whole sampled area (alpha-weighted).
pub open spec fn img_hist(data: Seq<u8>, fw: int, c: int, rows: nat, cols: nat) -> int
    decreases rows,
{
    if rows == 0 {
        0
    } else {
        img_hist(data, fw, c, (rows - 1) as nat, cols) + img_row_hist(data, fw, rows - 1, c, cols)
    }
}

/// The alpha of the pixel at `(x, y)`, 0 when its bytes are missing.
pub open spec fn img_alpha_cell(data: Seq<u8>, fw: int, x: int, y: int) -> int {
    let s = cell_start(fw, x, y);
    if s + 4 <= data.len() {
        data[s + 3] as int
    } else {
        0
    }
}

/// Total alpha of row `y`, columns `< x`.
pub open spec fn img_alpha_row(data: Seq<u8>, fw: int, y: int, x: nat) -> int
    decreases x,
{
    if x == 0 {
        0
    } else {
        img_alpha_row(data, fw, y, (x - 1) as nat) + img_alpha_cell(data, fw, x - 1, y)
    }
}

/// Total alpha of the sampled area.
pub open spec fn img_alpha_total(data: Seq<u8>, fw: int, rows: nat, cols: nat) -> int
    decreases rows,
{
    if rows == 0 {
        0
    } else {
        img_alpha_total(data, fw, (rows - 1) as nat, cols) + img_alpha_row(
            data,
            fw,
            rows - 1,
            cols,
        )
    }
}

/// Opaque-pixel count over buckets `0 ..= c`: each bucket's alpha weight is
/// scaled back to whole pixels before it is accumulated.
pub open spec fn img_cum(data: Seq<u8>, fw: int, rows: nat, cols: nat, c: nat) -> int
    decreases c,
{
    img_hist(data, fw, c as int, rows, cols) / 255 + if c == 0 {
        0
    } else {
        img_cum(data, fw, rows, cols, (c - 1) as nat)
    }
}

/// The image median search: the first bucket whose cumulative opaque-pixel
/// count reaches `half` (bucket 0 reported as 1, as is exhaustion).
pub open spec fn img_median_from(
    data: Seq<u8>,
    fw: int,
    rows: nat,
    cols: nat,
    half: int,
    c: nat,
) -> int
    decreases 256 - c,
{
    if c >= 256 {
        1
    } else if img_cum(data, fw, rows, cols, c) >= half {
        if c == 0 {
            1
        } else {
            c as int
        }
    } else {
        img_median_from(data, fw, rows, cols, half, (c + 1) as nat)
    }
}

/// The threshold brightness of a still image: the median of the
/// alpha-weighted brightness histogram, against half the opaque pixel count.
pub open spec fn spec_img_median(data: Seq<u8>, fw: int, gh: int, fh: int, gw: int) -> int {
    let rows = rows_limit(gh, fh) as nat;
    let cols = cols_limit(gw, fw) as nat;
    img_median_from(data, fw, rows, cols, (img_alpha_total(data, fw, rows, cols) / 255) / 2, 0)
}

proof fn lemma_img_row_hist_bound(data: Seq<u8>, fw: int, y: int, c: int, x: nat)
    ensures
        0 <= img_row_hist(data, fw, y, c, x) <= 255 * x,
    decreases x,
{
    if x > 0 {
        lemma_img_row_hist_bound(data, fw, y, c, (x - 1) as nat);
    }
}

proof fn lemma_img_hist_bound(data: Seq<u8>, fw: int, c: int, rows: nat, cols: nat)
    ensures
        0 <= img_hist(data, fw, c, rows, cols) <= 255 * (rows * cols),
    decreases rows,
{
    if rows > 0 {
        lemma_img_hist_bound(data, fw, c, (rows - 1) as nat, cols);
        lemma_img_row_hist_bound(data, fw, rows - 1, c, cols);
        assert(255 * ((rows - 1) * cols) + 255 * cols == 255 * (rows * cols)) by (nonlinear_arith);
    } else {
        assert(255 * (rows * cols) == 0) by (nonlinear_arith)
            requires rows == 0;
    }
}

proof fn lemma_img_alpha_row_bound(data: Seq<u8>, fw: int, y: int, x: nat)
    ensures
        0 <= img_alpha_row(data, fw, y, x) <= 255 * x,
    decreases x,
{
    if x > 0 {
        lemma_img_alpha_row_bound(data, fw, y, (x - 1) as nat);
    }
}

proof fn lemma_img_alpha_total_bound(data: Seq<u8>, fw: int, rows: nat, cols: nat)
    ensures
        0 <= img_alpha_total(data, fw, rows, cols) <= 255 * (rows * cols),
    decreases rows,
{
    if rows > 0 {
        lemma_img_alpha_total_bound(data, fw, (rows - 1) as nat, cols);
        lemma_img_alpha_row_bound(data, fw, rows - 1, cols);
        assert(255 * ((rows - 1) * cols) + 255 * cols == 255 * (rows * cols)) by (nonlinear_arith);
    } else {
        assert(255 * (rows * cols) == 0) by (nonlinear_arith)
            requires rows == 0;
    }
}

proof fn lemma_img_cum_bound(data: Seq<u8>, fw: int, rows: nat, cols: nat, c: nat)
    ensures
        0 <= img_cum(data, fw, rows, cols, c) <= (c + 1) * (rows * cols),
    decreases c,
{
    lemma_img_hist_bound(data, fw, c as int, rows, cols);
    assert(img_hist(data, fw, c as int, rows, cols) / 255 <= rows * cols) by (nonlinear_arith)
        requires 0 <= img_hist(data, fw, c as int, rows, cols) <= 255 * (rows * cols);
    if c > 0 {
        lemma_img_cum_bound(data, fw, rows, cols, (c - 1) as nat);
        assert(c * (rows * cols) + rows * cols == (c + 1) * (rows * cols)) by (nonlinear_arith);
    } else {
        assert((c + 1) * (rows * cols) == rows * cols) by (nonlinear_arith)
            requires c == 0;
    }
}

/// Builds the 256-bucket alpha-weighted histogram of a still image together
/// with its total alpha.
#[verifier::loop_isolation(false)]
fn img_histogram(frame: &RgbaFrame, rows: i32, cols: i32) -> (r: (Vec<u32>, u32))
    requires
        0 <= rows <= 40,
        0 <= cols <= 128,
        cols <= frame.width,
    ensures
        r.0@.len() == 256,
        forall|c: int| 0 <= c < 256 ==> r.0@[c] == img_hist(
            frame.data@,
            frame.width as int,
            c,
            rows as nat,
            cols as nat,
        ),
        r.1 == img_alpha_total(frame.data@, frame.width as int, rows as nat, cols as nat),
{
    let mut colors: Vec<u32> = Vec::new();
    let mut i: usize = 0;
    while i < 256
        invariant
            i <= 256,
            colors@.len() == i,
            forall|c: int| 0 <= c < i ==> colors@[c] == 0u32,
        decreases 256 - i,
    {
        colors.push(0);
        i += 1;
    }
    let data = &frame.data;
    let dlen = data.len();
    let fw = frame.width;
    let ghost dv = frame.data@;
    let ghost fwi = frame.width as int;
    let mut npa: u32 = 0;
    let mut y: i32 = 0;
    while y < rows
        invariant
            0 <= y <= rows,
            colors@.len() == 256,
            forall|c: int| 0 <= c < 256 ==> colors@[c] == img_hist(dv, fwi, c, y as nat, cols as nat),
            npa == img_alpha_total(dv, fwi, y as nat, cols as nat),
        decreases rows - y,
    {
        let mut x: i32 = 0;
        while x < cols
            invariant
                0 <= y < rows,
                0 <= x <= cols,
                colors@.len() == 256,
                forall|c: int| 0 <= c < 256 ==> colors@[c] == img_hist(dv, fwi, c, y as nat, cols as nat)
                    + img_row_hist(dv, fwi, y as int, c, x as nat),
                npa == img_alpha_total(dv, fwi, y as nat, cols as nat) + img_alpha_row(
                    dv,
                    fwi,
                    y as int,
                    x as nat,
                ),
            decreases cols - x,
        {
            proof {
                lemma_cell_start_small(fwi, x as int, y as int);
                lemma_img_alpha_total_bound(dv, fwi, y as nat, cols as nat);
                lemma_img_alpha_row_bound(dv, fwi, y as int, x as nat);
                assert((y as int) * (cols as int) <= 5120) by (nonlinear_arith)
                    requires 0 <= y <= 40 && 0 <= cols <= 128;
                assert(255 * ((y as int) * (cols as int)) <= 255 * 5120) by (nonlinear_arith)
                    requires (y as int) * (cols as int) <= 5120;
                assert(255 * (x as int) <= 255 * 128) by (nonlinear_arith)
                    requires 0 <= x <= 128;
            }
            let start: usize = ((y as usize) * (fw as usize) + (x as usize)) * 4;
            if start + 4 <= dlen {
                let cr = data[start];
                let cg = data[start + 1];
                let cb = data[start + 2];
                let ca = data[start + 3];
                let avg: u32 = ((cr as u32) + (cg as u32) + (cb as u32)) / 3;
                let cur = colors[avg as usize];
                proof {
                    lemma_img_hist_bound(dv, fwi, avg as int, y as nat, cols as nat);
                    lemma_img_row_hist_bound(dv, fwi, y as int, avg as int, x as nat);
                }
                colors.set(avg as usize, cur + (ca as u32));
                npa = npa + (ca as u32);
                proof {
                    assert forall|c: int| 0 <= c < 256 implies colors@[c] == img_hist(
                        dv,
                        fwi,
                        c,
                        y as nat,
                        cols as nat,
                    ) + img_row_hist(dv, fwi, y as int, c, (x + 1) as nat) by {
                        assert(img_row_hist(dv, fwi, y as int, c, (x + 1) as nat)
                            == img_row_hist(dv, fwi, y as int, c, x as nat)
                            + img_cell_weight(dv, fwi, x as int, y as int, c));
                    }
                    assert(img_alpha_row(dv, fwi, y as int, (x + 1) as nat)
                        == img_alpha_row(dv, fwi, y as int, x as nat)
                        + img_alpha_cell(dv, fwi, x as int, y as int));
                }
            } else {
                proof {
                    assert forall|c: int| 0 <= c < 256 implies colors@[c] == img_hist(
                        dv,
                        fwi,
                        c,
                        y as nat,
                        cols as nat,
                    ) + img_row_hist(dv, fwi, y as int, c, (x + 1) as nat) by {
                        assert(img_cell_weight(dv, fwi, x as int, y as int, c) == 0);
                    }
                    assert(img_alpha_cell(dv, fwi, x as int, y as int) == 0);
                }
            }
            x += 1;
        }
        proof {
            assert forall|c: int| 0 <= c < 256 implies colors@[c] == img_hist(
                dv,
                fwi,
                c,
                (y + 1) as nat,
                cols as nat,
            ) by {
                assert(img_hist(dv, fwi, c, (y + 1) as nat, cols as nat) == img_hist(
                    dv,
                    fwi,
                    c,
                    y as nat,
                    cols as nat,
                ) + img_row_hist(dv, fwi, y as int, c, cols as nat));
            }
            assert(img_alpha_total(dv, fwi, (y + 1) as nat, cols as nat) == img_alpha_total(
                dv,
                fwi,
                y as nat,
                cols as nat,
            ) + img_alpha_row(dv, fwi, y as int, cols as nat));
        }
        y += 1;
    }
    (colors, npa)
}

/// The still-image source: decoded frames packed to one bit per pixel, with
/// their position and per-frame delays in milliseconds.
pub struct ImageRenderer {
    pub origin: Coord,
    pub stop: Coord,
    pub decoded_frames: Vec<Vec<u8>>,
    pub current_frame: usize,
    pub delays: Vec<u16>,
}

impl ImageRenderer {
    /// The threshold between black and white for a still image: the median of
    /// the alpha-weighted brightness histogram against half the opaque pixel
    /// count. Bucket 0 maps to 1.
    #[verifier::loop_isolation(false)]
    pub fn calculate_median_color_value(
        frame: &RgbaFrame,
        image_height: i32,
        image_width: i32,
    ) -> (r: u8)
        requires
            0 <= image_height,
            0 <= image_width,
        ensures
            r == spec_img_median(
                frame.data@,
                frame.width as int,
                image_height as int,
                frame.height as int,
                image_width as int,
            ),
    {
        let rows = min3(image_height, frame.height as i32, 40);
        let cols = min3(image_width, frame.width as i32, 128);
        let (colors, total_alpha) = img_histogram(frame, rows, cols);
        let ghost dv = frame.data@;
        let ghost fwi = frame.width as int;
        let num_pixels_alpha: u32 = total_alpha / 255;
        let half: u32 = num_pixels_alpha / 2;
        let mut sum: u32 = 0;
        let mut i: usize = 0;
        while i < 256
            invariant
                i <= 256,
                colors@.len() == 256,
                forall|c: int| 0 <= c < 256 ==> colors@[c] == img_hist(
                    dv,
                    fwi,
                    c,
                    rows as nat,
                    cols as nat,
                ),
                0 <= rows <= 40,
                0 <= cols <= 128,
                half == (img_alpha_total(dv, fwi, rows as nat, cols as nat) / 255) / 2,
                rows == rows_limit(image_height as int, frame.height as int),
                cols == cols_limit(image_width as int, frame.width as int),
                sum == if i == 0 {
                    0int
                } else {
                    img_cum(dv, fwi, rows as nat, cols as nat, (i - 1) as nat)
                },
                img_median_from(dv, fwi, rows as nat, cols as nat, half as int, 0)
                    == img_median_from(dv, fwi, rows as nat, cols as nat, half as int, i as nat),
            decreases 256 - i,
        {
            let count = colors[i];
            proof {
                lemma_img_cum_bound(dv, fwi, rows as nat, cols as nat, i as nat);
                lemma_img_hist_bound(dv, fwi, i as int, rows as nat, cols as nat);
                if i > 0 {
                    lemma_img_cum_bound(dv, fwi, rows as nat, cols as nat, (i - 1) as nat);
                }
                assert((rows as int) * (cols as int) <= 5120) by (nonlinear_arith)
                    requires 0 <= rows <= 40 && 0 <= cols <= 128;
                assert((i as int + 1) * ((rows as int) * (cols as int)) <= 257 * 5120)
                    by (nonlinear_arith)
                    requires 0 <= (rows as int) * (cols as int) <= 5120 && i <= 256;
                assert(255 * ((rows as int) * (cols as int)) <= 255 * 5120) by (nonlinear_arith)
                    requires 0 <= (rows as int) * (cols as int) <= 5120;
            }
            sum = sum + count / 255;
            proof {
                assert(sum == img_cum(dv, fwi, rows as nat, cols as nat, i as nat));
            }
            if sum >= half {
                let res: u8 = if i == 0 {
                    1
                } else {
                    i as u8
                };
                return res;
            }
            i += 1;
        }
        1
    }

    /// Packs one still-image frame to 1-bit rows against the image's median.
    pub fn read_image(frame: &RgbaFrame, image_height: i32, image_width: i32) -> (r: Vec<u8>)
        requires
            0 <= image_height,
            0 <= image_width,
        ensures
            ({
                let median = spec_img_median(
                    frame.data@,
                    frame.width as int,
                    image_height as int,
                    frame.height as int,
                    image_width as int,
                );
                let nrows = rows_limit(image_height as int, frame.height as int);
                let bpr = bytes_per_row(image_width as int);
                &&& r@.len() == nrows * bpr
                &&& forall|row: int, j: int, t: int|
                    0 <= row < nrows && 0 <= j < bpr && 0 <= t < 8 ==> #[trigger] byte_bit(
                        r@[row * bpr + j],
                        t as u8,
                    ) == packed_bit(
                        frame.data@,
                        frame.width as int,
                        median,
                        image_width as int,
                        8 * j + t,
                        row,
                    )
            }),
    {
        let median_color = Self::calculate_median_color_value(frame, image_height, image_width);
        pack_rows(frame, image_height, image_width, median_color)
    }

    /// Re-frames an image on a larger canvas: the new canvas is transparent
    /// black, with the source pixels shifted by `offset`. Columns and rows
    /// the shift pushes before the top-left edge are dropped.
    #[verifier::loop_isolation(false)]
    pub fn move_image(image: &RgbaFrame, offset: Coord, size: Coord) -> (r: RgbaFrame)
        requires
            image.complete(),
            0 <= size.x <= u16::MAX,
            0 <= size.y <= u16::MAX,
            offset.x + image.width <= size.x,
            offset.y + image.height <= size.y,
        ensures
            r.width == size.x,
            r.height == size.y,
            r.complete(),
            forall|tx: int, ty: int, c: int|
                0 <= tx < size.x && 0 <= ty < size.y && 0 <= c < 4
                    ==> #[trigger] r.data@[cell_start(size.x as int, tx, ty) + c] == moved_byte(
                    *image,
                    offset.x as int,
                    offset.y as int,
                    tx,
                    ty,
                    c,
                ),
    {
        let sw: u32 = size.x as u32;
        let sh: u32 = size.y as u32;
        let src_len = image.data.len();
        let ghost iv = *image;
        let ghost oxi = offset.x as int;
        let ghost oyi = offset.y as int;
        let mut data: Vec<u8> = Vec::new();
        let mut ty: u32 = 0;
        while ty < sh
            invariant
                ty <= sh,
                data@.len() == 4 * (ty * sw),
                forall|tx2: int, ty2: int, c: int|
                    0 <= tx2 < sw && 0 <= ty2 < ty && 0 <= c < 4
                        ==> #[trigger] data@[cell_start(sw as int, tx2, ty2) + c] == moved_byte(
                        iv,
                        oxi,
                        oyi,
                        tx2,
                        ty2,
                        c,
                    ),
            decreases sh - ty,
        {
            let mut tx: u32 = 0;
            while tx < sw
                invariant
                    ty < sh,
                    tx <= sw,
                    data@.len() == 4 * (ty * sw) + 4 * tx,
                    forall|tx2: int, ty2: int, c: int|
                        0 <= tx2 < sw && 0 <= ty2 < ty && 0 <= c < 4
                            ==> #[trigger] data@[cell_start(sw as int, tx2, ty2) + c] == moved_byte(
                            iv,
                            oxi,
                            oyi,
                            tx2,
                            ty2,
                            c,
                        ),
                    forall|tx2: int, c: int|
                        0 <= tx2 < tx && 0 <= c < 4
                            ==> #[trigger] data@[cell_start(sw as int, tx2, ty as int) + c]
                            == moved_byte(iv, oxi, oyi, tx2, ty as int, c),
                decreases sw - tx,
            {
                let txi: i64 = tx as i64;
                let tyi: i64 = ty as i64;
                let oxw: i64 = offset.x as i64;
                let oyw: i64 = offset.y as i64;
                let inside = oxw <= txi && txi < oxw + image.width as i64 && oyw <= tyi && tyi
                    < oyw + image.height as i64;
                proof {
                    lemma_row_major_cell(sw as int, ty as int, tx as int);
                    assert(cell_start(sw as int, tx as int, ty as int) == data@.len());
                }
                let ghost pre = data@;
                if inside {
                    let col: usize = (txi - oxw) as usize;
                    let row: usize = (tyi - oyw) as usize;
                    proof {
                        lemma_rgba_cell_bounds(
                            image.width as int,
                            image.height as int,
                            col as int,
                            row as int,
                        );
                        assert(4 * ((image.width as int) * (image.height as int))
                            == 4 * image.width * image.height) by (nonlinear_arith);
                        assert((row * image.width + col) * 4 + 4 <= src_len);
                    }
                    let start: usize = (row * (image.width as usize) + col) * 4;
                    data.push(image.data[start]);
                    data.push(image.data[start + 1]);
                    data.push(image.data[start + 2]);
                    data.push(image.data[start + 3]);
                } else {
                    data.push(0);
                    data.push(0);
                    data.push(0);
                    data.push(0);
                }
                proof {
                    assert forall|c: int| 0 <= c < 4 implies #[trigger] data@[cell_start(
                        sw as int,
                        tx as int,
                        ty as int,
                    ) + c] == moved_byte(iv, oxi, oyi, tx as int, ty as int, c) by {
                        assert(data@[pre.len() + c] == moved_byte(iv, oxi, oyi, tx as int, ty as int, c));
                    }
                    assert forall|tx2: int, ty2: int, c: int|
                        (0 <= tx2 < sw && 0 <= ty2 < ty && 0 <= c < 4) || (0 <= tx2 < tx && ty2
                            == ty && 0 <= c < 4) implies #[trigger] data@[cell_start(
                        sw as int,
                        tx2,
                        ty2,
                    ) + c] == pre[cell_start(sw as int, tx2, ty2) + c] by {
                        lemma_row_major_cell(sw as int, ty2, tx2);
                        if ty2 < ty {
                            assert(cell_start(sw as int, tx2, ty2) + c < 4 * (ty2 * sw) + 4 * sw)
                                by (nonlinear_arith)
                                requires 0 <= tx2 < sw && 0 <= c < 4;
                            assert(4 * (ty2 * sw) + 4 * sw <= 4 * (ty * sw)) by (nonlinear_arith)
                                requires 0 <= ty2 < ty && 0 <= sw;
                        }
                    }
                }
                tx += 1;
            }
            proof {
                assert(4 * (ty * sw) + 4 * sw == 4 * ((ty + 1) * sw)) by (nonlinear_arith);
            }
            ty += 1;
        }
        let r = RgbaFrame { width: size.x as u16, height: size.y as u16, data };
        proof {
            assert(r.data@.len() == 4 * (sh * sw));
            assert(4 * (sh * sw) == 4 * sw * sh) by (nonlinear_arith);
        }
        r
    }

    /// Centers an image on a larger canvas.
    pub fn center_image(image: &RgbaFrame, size: Coord) -> (r: RgbaFrame)
        requires
            image.complete(),
            image.width <= size.x,
            image.height <= size.y,
            size.x <= u16::MAX,
            size.y <= u16::MAX,
        ensures
            r.width == size.x,
            r.height == size.y,
            r.complete(),
            forall|tx: int, ty: int, c: int|
                0 <= tx < size.x && 0 <= ty < size.y && 0 <= c < 4
                    ==> #[trigger] r.data@[cell_start(size.x as int, tx, ty) + c] == moved_byte(
                    *image,
                    (size.x - image.width) / 2,
                    (size.y - image.height) / 2,
                    tx,
                    ty,
                    c,
                ),
    {
        let new_x: i32 = (size.x - image.width as i32) / 2;
        let new_y: i32 = (size.y - image.height as i32) / 2;
        proof {
            assert(new_x + image.width <= size.x) by (nonlinear_arith)
                requires
                    new_x == (size.x - image.width) / 2,
                    image.width <= size.x,
                    0 <= image.width;
            assert(new_y + image.height <= size.y) by (nonlinear_arith)
                requires
                    new_y == (size.y - image.height) / 2,
                    image.height <= size.y,
                    0 <= image.height;
        }
        Self::move_image(image, Coord { x: new_x, y: new_y }, size)
    }

    /// The image is positioned and non-degenerate, and the cursor is on a
    /// frame.
    pub open spec fn wf(self) -> bool {
        &&& self.decoded_frames@.len() > 0
        &&& self.delays@.len() == self.decoded_frames@.len()
        &&& self.current_frame < self.decoded_frames@.len()
        &&& self.origin.x < self.stop.x
        &&& self.stop.x <= self.origin.x + 128
    }

    /// Blits the current frame at the image's origin.
    pub fn draw(&self, target: &mut FrameBuffer)
        requires
            self.wf(),
            old(target).wf(),
        ensures
            final(target).wf(),
            forall|x: int, y: int| FrameBuffer::in_range(x, y) ==> final(target).pixel(x, y)
                == blit_pixel(
                *old(target),
                self.decoded_frames@[self.current_frame as int]@,
                self.origin.x as int,
                self.origin.y as int,
                (self.stop.x - self.origin.x) as int,
                x,
                y,
            ),
    {
        let frame_data = &self.decoded_frames[self.current_frame];
        let width: u32 = (self.stop.x - self.origin.x) as u32;
        target.draw_packed(self.origin.x, self.origin.y, frame_data, width);
    }

    /// Advances to the next frame when the current frame's delay (in
    /// milliseconds) has elapsed; reports whether the animation wrapped.
    pub fn advance_if_due(&mut self, elapsed_ms: u64) -> (ended: bool)
        requires
            old(self).wf(),
        ensures
            final(self).wf(),
            final(self).decoded_frames == old(self).decoded_frames,
            final(self).delays == old(self).delays,
            final(self).origin == old(self).origin,
            final(self).stop == old(self).stop,
            ({
                let due = elapsed_ms >= old(self).delays@[old(self).current_frame as int];
                &&& ended == (due && old(self).current_frame + 1
                    >= old(self).decoded_frames@.len())
                &&& final(self).current_frame == if !due {
                    old(self).current_frame as int
                } else if old(self).current_frame + 1 >= old(self).decoded_frames@.len() {
                    0int
                } else {
                    old(self).current_frame + 1
                }
            }),
    {
        let delay = self.delays[self.current_frame];
        let n = self.decoded_frames.len();
        if elapsed_ms >= delay as u64 {
            let next_frame = self.current_frame + 1;
            let has_ended = next_frame >= n;
            if has_ended {
                self.current_frame = 0;
            } else {
                self.current_frame = next_frame;
            }
            has_ended
        } else {
            false
        }
    }
}

/// The byte a re-framing leaves at channel `c` of target pixel `(tx, ty)`:
/// the source byte where the shifted source covers the target, 0 elsewhere.
pub open spec fn moved_byte(image: RgbaFrame, ox: int, oy: int, tx: int, ty: int, c: int) -> u8 {
    if ox <= tx < ox + image.width && oy <= ty < oy + image.height {
        image.data@[cell_start(image.width as int, tx - ox, ty - oy) + c]
    } else {
        0
    }
}

/// Row-major RGBA addressing stays inside a complete `w x h` store.
proof fn lemma_rgba_cell_bounds(w: int, h: int, x: int, y: int)
    requires
        0 <= x < w,
        0 <= y < h,
    ensures
        0 <= (y * w + x) * 4,
        (y * w + x) * 4 + 4 <= 4 * (w * h),
        cell_start(w, x, y) == (y * w + x) * 4,
{
    assert(0 <= y * w + x && y * w + x < w * h) by (nonlinear_arith)
        requires 0 <= x < w && 0 <= y < h;
    assert((y * w + x) * 4 + 4 <= 4 * (w * h)) by (nonlinear_arith)
        requires y * w + x < w * h;
}

/// The cell of target pixel `(x, y)` starts where row-major filling has
/// arrived after `y` full rows and `x` cells.
proof fn lemma_row_major_cell(w: int, y: int, x: int)
    requires
        0 <= x,
        0 <= y,
        0 <= w,
    ensures
        cell_start(w, x, y) == 4 * (y * w) + 4 * x,
{
    assert((y * w + x) * 4 == 4 * (y * w) + 4 * x) by (nonlinear_arith);
}

/// The list of still images the image source cycles through, and which one is
/// on screen.
pub struct Images {
    pub renderers: Vec<Gif>,
    pub current_image: usize,
}

impl Images {
    pub open spec fn wf(self) -> bool {
        &&& self.renderers@.len() > 0
        &&& self.current_image < self.renderers@.len()
        &&& forall|i: int| 0 <= i < self.renderers@.len() ==> (#[trigger] self.renderers@[i]).wf()
    }

    /// Draws the current image's current frame, advances that image's frame
    /// when due, and moves to the next image once the animation has wrapped.
    pub fn render(&mut self, target: &mut FrameBuffer, elapsed_ms: u64)
        requires
            old(self).wf(),
            old(target).wf(),
        ensures
            final(self).wf(),
            final(target).wf(),
            final(self).renderers@.len() == old(self).renderers@.len(),
            ({
                let g = old(self).renderers@[old(self).current_image as int];
                let due = elapsed_ms >= g.delays@[g.current_frame as int] * 10;
                let ended = due && g.current_frame + 1 >= g.decoded_frames@.len();
                &&& final(self).current_image == if ended {
                    if old(self).current_image + 1 >= old(self).renderers@.len() {
                        0int
                    } else {
                        old(self).current_image + 1
                    }
                } else {
                    old(self).current_image as int
                }
                &&& forall|x: int, y: int| FrameBuffer::in_range(x, y) ==> final(target).pixel(
                    x,
                    y,
                ) == blit_pixel(
                    *old(target),
                    g.decoded_frames@[g.current_frame as int]@,
                    g.origin.x as int,
                    g.origin.y as int,
                    (g.stop.x - g.origin.x) as int,
                    x,
                    y,
                )
            }),
    {
        let idx = self.current_image;
        let n = self.renderers.len();
        let image = crate::util::vec_index_mut(&mut self.renderers, idx);
        image.draw(target);
        let has_ended = image.advance_if_due(elapsed_ms);
        if has_ended {
            let next_image = idx + 1;
            if next_image >= n {
                self.current_image = 0;
            } else {
                self.current_image = next_image;
            }
        }
        proof {
            assert forall|i: int| 0 <= i < self.renderers@.len() implies (
            #[trigger] self.renderers@[i]).wf() by {
                if i != idx {
                    assert(self.renderers@[i] == old(self).renderers@[i]);
                }
            }
        }
    }
}

} // verus!
