//! The bit-packed binary frame buffer sent to the display device.
//!
//! The buffer holds one bit per pixel for a 128 x 40 display, packed
//! most-significant-bit first, plus a two byte protocol envelope: byte 0 is
//! the fixed header `0x61` and the last byte is a trailing pad that stays 0.
//! Pixel `(x, y)` lives at bit offset `8 + y * 128 + x` of the buffer.

use vstd::prelude::*;

verus! {

/// Display width in pixels.
pub const DISPLAY_WIDTH: i32 = 128;
/// Display height in pixels.
pub const DISPLAY_HEIGHT: i32 = 40;
/// Total buffer size in bytes: 40 * 128 / 8 pixel bytes plus the envelope.
pub const FB_BYTES: usize = 642;
/// The fixed protocol header stored in byte 0.
pub const FB_HEADER: u8 = 0x61;

/// True iff bit `k` (counted from the most significant bit) of `b` is set.
pub open spec fn byte_bit(b: u8, k: u8) -> bool {
    b & (0x80u8 >> k) != 0
}

/// A single pixel write request: turn pixel `(x, y)` on or off.
/// Out-of-range coordinates are silently ignored by the frame buffer.
#[derive(Clone, Copy, Debug, PartialEq, Eq, Structural)]
pub struct PixelUpdate {
    pub x: i32,
    pub y: i32,
    pub on: bool,
}

/// The fixed-size bit-packed canvas exchanged between producers and the sink.
#[derive(Clone, Debug)]
pub struct FrameBuffer {
    bytes: Vec<u8>,
}

impl View for FrameBuffer {
    type V = Seq<u8>;

    closed spec fn view(&self) -> Seq<u8> {
        self.bytes@
    }
}

impl FrameBuffer {
    /// Well-formed: correct size, fixed header, zero trailing pad byte.
    pub open spec fn wf(self) -> bool {
        &&& self@.len() == FB_BYTES
        &&& self@[0] == FB_HEADER
        &&& self@[FB_BYTES - 1] == 0
    }

    /// The coordinate pair addresses a real pixel of the display.
    pub open spec fn in_range(x: int, y: int) -> bool {
        0 <= x < DISPLAY_WIDTH && 0 <= y < DISPLAY_HEIGHT
    }

    /// The byte that holds pixel `(x, y)`.
    pub open spec fn byte_index(x: int, y: int) -> int {
        1 + y * 16 + x / 8
    }

    /// The value of pixel `(x, y)`; meaningful for in-range coordinates.
    pub open spec fn pixel(self, x: int, y: int) -> bool {
        byte_bit(self@[Self::byte_index(x, y)], (x % 8) as u8)
    }

    /// A fresh buffer: header set, every pixel off.
    pub fn new() -> (r: Self)
        ensures
            r.wf(),
            forall|x: int, y: int| Self::in_range(x, y) ==> !r.pixel(x, y),
    {
        let mut bytes: Vec<u8> = Vec::new();
        let mut i: usize = 0;
        while i < FB_BYTES
            invariant
                i <= FB_BYTES,
                bytes@.len() == i,
                forall|j: int| 0 <= j < i ==> bytes@[j] == 0u8,
            decreases FB_BYTES - i,
        {
            bytes.push(0u8);
            i += 1;
        }
        bytes.set(0, FB_HEADER);
        let r = FrameBuffer { bytes };
        proof {
            assert forall|x: int, y: int| Self::in_range(x, y) implies !r.pixel(x, y) by {
                assert(1 <= Self::byte_index(x, y) < FB_BYTES);
                assert(r@[Self::byte_index(x, y)] == 0u8);
                let k = (x % 8) as u8;
                assert(0u8 & (0x80u8 >> k) == 0) by (bit_vector);
            }
        }
        r
    }

    /// The raw wire bytes, exactly as sent to the device.
    pub fn as_bytes(&self) -> (r: &Vec<u8>)
        ensures
            r@ == self@,
    {
        &self.bytes
    }

    /// Reads pixel `(x, y)`. Out-of-range coordinates read as off.
    pub fn read_pixel(&self, x: i32, y: i32) -> (r: bool)
        requires
            self.wf(),
        ensures
            r == if Self::in_range(x as int, y as int) {
                self.pixel(x as int, y as int)
            } else {
                false
            },
    {
        if 0 <= x && x < DISPLAY_WIDTH && 0 <= y && y < DISPLAY_HEIGHT {
            let idx: usize = 1 + (y as usize) * 16 + (x as usize) / 8;
            let k: u8 = (x % 8) as u8;
            let b = self.bytes[idx];
            b & (0x80u8 >> k) != 0
        } else {
            false
        }
    }

    /// Sets or clears pixel `(x, y)`. Out-of-range writes are no-ops; in-range
    /// writes change exactly the addressed pixel and leave the envelope alone.
    pub fn draw_pixel(&mut self, x: i32, y: i32, on: bool)
        requires
            old(self).wf(),
        ensures
            final(self).wf(),
            !Self::in_range(x as int, y as int) ==> final(self)@ == old(self)@,
            Self::in_range(x as int, y as int) ==> {
                &&& final(self).pixel(x as int, y as int) == on
                &&& forall|a: int, b: int|
                    Self::in_range(a, b) && !(a == x as int && b == y as int)
                        ==> final(self).pixel(a, b) == old(self).pixel(a, b)
            },
    {
        if 0 <= x && x < DISPLAY_WIDTH && 0 <= y && y < DISPLAY_HEIGHT {
            let idx: usize = 1 + (y as usize) * 16 + (x as usize) / 8;
            let k: u8 = (x % 8) as u8;
            let mask: u8 = 0x80u8 >> k;
            let old_b = self.bytes[idx];
            let new_b = if on {
                old_b | mask
            } else {
                old_b & !mask
            };
            self.bytes.set(idx, new_b);
            proof {
                lemma_mask_write(old_b, k, on);
                assert forall|a: int, b: int|
                    Self::in_range(a, b) && !(a == x as int && b == y as int) implies
                    self.pixel(a, b) == old(self).pixel(a, b) by {
                    lemma_byte_index_bounds(a, b);
                    lemma_byte_index_bounds(x as int, y as int);
                    if Self::byte_index(a, b) == Self::byte_index(x as int, y as int) {
                        lemma_same_byte_distinct_bit(a, b, x as int, y as int);
                        lemma_mask_write_other(old_b, k, on, (a % 8) as u8);
                    }
                }
            }
        }
    }

    /// Applies a whole list of pixel writes, in order; later writes to the
    /// same pixel win, out-of-range writes are ignored.
    pub fn draw_pixels(&mut self, updates: &Vec<PixelUpdate>)
        requires
            old(self).wf(),
        ensures
            final(self).wf(),
            forall|a: int, b: int| Self::in_range(a, b) ==>
                final(self).pixel(a, b) == applied(updates@, old(self).pixel(a, b), a, b),
    {
        let n = updates.len();
        let mut i: usize = 0;
        while i < n
            invariant
                i <= n,
                n == updates@.len(),
                self.wf(),
                forall|a: int, b: int| Self::in_range(a, b) ==>
                    self.pixel(a, b) == applied(updates@.take(i as int), old(self).pixel(a, b), a, b),
            decreases n - i,
        {
            let u = updates[i];
            self.draw_pixel(u.x, u.y, u.on);
            proof {
                assert(updates@.take(i + 1).drop_last() =~= updates@.take(i as int));
                assert(updates@.take(i + 1).last() == updates@[i as int]);
            }
            i += 1;
        }
        proof {
            assert(updates@.take(n as int) =~= updates@);
        }
    }

    /// A byte-for-byte copy of this buffer.
    pub fn duplicate(&self) -> (r: Self)
        ensures
            r@ == self@,
    {
        let n = self.bytes.len();
        let mut bytes: Vec<u8> = Vec::new();
        let mut i: usize = 0;
        while i < n
            invariant
                i <= n,
                n == self.bytes@.len(),
                bytes@ =~= self.bytes@.take(i as int),
            decreases n - i,
        {
            bytes.push(self.bytes[i]);
            i += 1;
        }
        proof {
            assert(self.bytes@.take(n as int) =~= self.bytes@);
        }
        FrameBuffer { bytes }
    }

    /// A buffer with every pixel turned on, as used to light the whole panel.
    pub fn filled() -> (r: Self)
        ensures
            r.wf(),
            forall|x: int, y: int| Self::in_range(x, y) ==> r.pixel(x, y),
    {
        let mut r = Self::new();
        let mut y: i32 = 0;
        while y < DISPLAY_HEIGHT
            invariant
                0 <= y <= DISPLAY_HEIGHT,
                r.wf(),
                forall|a: int, b: int| Self::in_range(a, b) && b < y ==> r.pixel(a, b),
            decreases DISPLAY_HEIGHT - y,
        {
            let mut x: i32 = 0;
            while x < DISPLAY_WIDTH
                invariant
                    0 <= y < DISPLAY_HEIGHT,
                    0 <= x <= DISPLAY_WIDTH,
                    r.wf(),
                    forall|a: int, b: int| Self::in_range(a, b) && b < y ==> r.pixel(a, b),
                    forall|a: int| 0 <= a < x ==> r.pixel(a, y as int),
                decreases DISPLAY_WIDTH - x,
            {
                r.draw_pixel(x, y, true);
                proof {
                    assert forall|a: int| 0 <= a < x + 1 implies r.pixel(a, y as int) by {
                        if a < x {
                            assert(FrameBuffer::in_range(a, y as int));
                        }
                    }
                }
                x += 1;
            }
            y += 1;
        }
        r
    }
}

/// The value of pixel `(x, y)` after the updates in `ups` hit a pixel whose
/// prior value was `orig`: the last in-range update aimed at `(x, y)` wins.
pub open spec fn applied(ups: Seq<PixelUpdate>, orig: bool, x: int, y: int) -> bool
    decreases ups.len(),
{
    if ups.len() == 0 {
        orig
    } else if ups.last().x == x && ups.last().y == y {
        ups.last().on
    } else {
        applied(ups.drop_last(), orig, x, y)
    }
}

/// Writing bit `k` leaves that bit holding the written value.
pub(crate) proof fn lemma_mask_write(b: u8, k: u8, on: bool)
    by (bit_vector)
    requires
        k < 8,
    ensures
        byte_bit(if on { b | (0x80u8 >> k) } else { b & !(0x80u8 >> k) }, k) == on,
{
}

/// Writing bit `k` leaves every other bit of the byte unchanged.
pub(crate) proof fn lemma_mask_write_other(b: u8, k: u8, on: bool, j: u8)
    by (bit_vector)
    requires
        k < 8,
        j < 8,
        j != k,
    ensures
        byte_bit(if on { b | (0x80u8 >> k) } else { b & !(0x80u8 >> k) }, j) == byte_bit(b, j),
{
}

/// In-range coordinates address bytes strictly inside the envelope.
proof fn lemma_byte_index_bounds(x: int, y: int)
    requires
        FrameBuffer::in_range(x, y),
    ensures
        1 <= FrameBuffer::byte_index(x, y) < FB_BYTES - 1,
{
}

/// Two distinct in-range pixels that share a byte use distinct bits.
proof fn lemma_same_byte_distinct_bit(a: int, b: int, x: int, y: int)
    requires
        FrameBuffer::in_range(a, b),
        FrameBuffer::in_range(x, y),
        !(a == x && b == y),
        FrameBuffer::byte_index(a, b) == FrameBuffer::byte_index(x, y),
    ensures
        a % 8 != x % 8,
{
    if b != y {
        assert(1 + b * 16 + a / 8 != 1 + y * 16 + x / 8);
    } else {
        assert(a != x);
        if a % 8 == x % 8 {
            assert(a == 8 * (a / 8) + a % 8);
            assert(x == 8 * (x / 8) + x % 8);
        }
    }
}

} // verus!
