use vstd::prelude::*;

verus! {

/// The all-clear framebuffer contents: 32 rows of 64 dark pixels.
pub open spec fn fb_blank() -> Seq<u64> {
    Seq::new(32, |i: int| 0u64)
}

/// A well-formed framebuffer view holds exactly one 64-bit word per row.
pub open spec fn fb_wf(fb: Seq<u64>) -> bool {
    fb.len() == 32
}

/// The pixel at column `x`, row `y`. Coordinates wrap at the screen
/// edges (64 columns, 32 rows), as CHIP-8 sprite drawing requires.
pub open spec fn spec_pixel(fb: Seq<u64>, x: int, y: int) -> bool {
    (fb[y % 32] >> ((x % 64) as u64)) & 1 != 0
}

/// A row with bit `x` replaced by the low bit of `v` (clear, then or).
pub open spec fn spec_row_set(row: u64, x: u64, v: u64) -> u64 {
    (row & !(1u64 << x)) | ((v & 1) << x)
}

/// Writing one bit of a row changes that bit to the low bit of `v` and
/// leaves every other bit as it was.
pub proof fn lemma_row_set_bit(row: u64, x: u64, v: u64, j: u64)
    by (bit_vector)
    requires
        x < 64,
        j < 64,
    ensures
        ((spec_row_set(row, x, v) >> j) & 1 != 0) == (if j == x {
            v & 1 != 0
        } else {
            (row >> j) & 1 != 0
        }),
{
}

/// The CHIP-8 framebuffer: a 64x32 monochrome bitmap, packed as 32
/// words of 64 bits, one word per row. Its view is the row sequence.
pub struct FrameBuffer {
    pixels: Vec<u64>,
}

impl View for FrameBuffer {
    type V = Seq<u64>;

    closed spec fn view(&self) -> Seq<u64> {
        self.pixels@
    }
}

impl FrameBuffer {
    /// A framebuffer with every pixel clear.
    pub fn new() -> (r: Self)
        ensures
            r@ == fb_blank(),
    {
        let mut pixels: Vec<u64> = Vec::new();
        let mut i: usize = 0;
        while i < 32
            invariant
                i <= 32,
                pixels@.len() == i,
                forall|k: int| 0 <= k < i ==> pixels@[k] == 0u64,
            decreases 32 - i,
        {
            pixels.push(0u64);
            i = i + 1;
        }
        proof {
            assert(pixels@ =~= fb_blank());
        }
        FrameBuffer { pixels }
    }

    /// Clears every pixel.
    pub fn clear(&mut self)
        requires
            fb_wf(old(self)@),
        ensures
            final(self)@ == fb_blank(),
    {
        let mut i: usize = 0;
        while i < 32
            invariant
                i <= 32,
                self.pixels@.len() == 32,
                forall|k: int| 0 <= k < i ==> self.pixels@[k] == 0u64,
            decreases 32 - i,
        {
            self.pixels[i] = 0u64;
            i = i + 1;
        }
        proof {
            assert(self.pixels@ =~= fb_blank());
        }
    }

    /// Writes the low bit of `value` to the pixel at column `x`, row
    /// `y`. Out-of-range coordinates wrap: each coordinate is taken
    /// modulo its screen dimension, never rejected, since sprites drawn
    /// at the screen edges wrap around.
    pub fn set(&mut self, x: usize, y: usize, value: u8)
        requires
            fb_wf(old(self)@),
        ensures
            final(self)@ == old(self)@.update(
                y as int % 32,
                spec_row_set(old(self)@[y as int % 32], (x as int % 64) as u64, value as u64),
            ),
            forall|xx: int, yy: int|
                0 <= xx < 64 && 0 <= yy < 32 ==> #[trigger] spec_pixel(final(self)@, xx, yy) == (if xx
                    == x as int % 64 && yy == y as int % 32 {
                    value & 1 != 0
                } else {
                    spec_pixel(old(self)@, xx, yy)
                }),
    {
        let xm: usize = x % 64;
        let ym: usize = y % 32;
        let row: u64 = self.pixels[ym];
        proof {
            assert(((value & 1) as u64) == ((value as u64) & 1)) by (bit_vector);
        }
        self.pixels[ym] = (row & !(1u64 << (xm as u64))) | (((value & 1) as u64) << (xm as u64));
        proof {
            assert forall|xx: int, yy: int| 0 <= xx < 64 && 0 <= yy < 32 implies #[trigger] spec_pixel(
                self@,
                xx,
                yy,
            ) == (if xx == x as int % 64 && yy == y as int % 32 {
                value & 1 != 0
            } else {
                spec_pixel(old(self)@, xx, yy)
            }) by {
                if yy == ym as int {
                    lemma_row_set_bit(row, xm as u64, value as u64, xx as u64);
                }
            }
        }
    }

    /// The pixel at column `x`, row `y`, with the same wrapping as `set`.
    pub fn get(&self, x: usize, y: usize) -> (r: bool)
        requires
            fb_wf(self@),
        ensures
            r == spec_pixel(self@, x as int, y as int),
    {
        let xm: usize = x % 64;
        let ym: usize = y % 32;
        (self.pixels[ym] >> (xm as u64)) & 1 != 0
    }
}

} // verus!
