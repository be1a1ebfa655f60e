//! The display compositor: sprites are merged into the 64x32 pixel grid with
//! XOR, columns wrapping modulo 64 and rows modulo 32, and a collision is
//! reported whenever a lit pixel is turned off.

use vstd::prelude::*;

use crate::cpu::{Cpu, CpuModel};

verus! {

/// Bit `j` of `line`, most-significant first: bit 0 is the leftmost pixel of
/// a sprite row.
pub open spec fn bit_of(line: u8, j: int) -> bool
    recommends
        0 <= j < 8,
{
    (line >> ((7 - j) as u8)) & 1u8 == 1u8
}

/// XOR one pixel into the grid at column `x % 64`, row `y`: the new grid and
/// whether a lit pixel was hit by a lit sprite bit.
pub open spec fn blit_pixel(v: Seq<Seq<bool>>, x: int, y: int, px: bool) -> (Seq<Seq<bool>>, bool)
    recommends
        v.len() == 64,
        0 <= x,
        0 <= y < 32,
{
    let c = x % 64;
    (v.update(c, v[c].update(y, v[c][y] ^ px)), v[c][y] && px)
}

/// The grid after the first `j` pixels of sprite row `line` are merged in at
/// origin column `x`, row `y`, left to right, and whether any of them
/// collided.
pub open spec fn blit_row_upto(v: Seq<Seq<bool>>, x: int, y: int, line: u8, j: int) -> (
    Seq<Seq<bool>>,
    bool,
)
    recommends
        v.len() == 64,
        0 <= x,
        0 <= y < 32,
        j <= 8,
    decreases j,
{
    if j <= 0 {
        (v, false)
    } else {
        let prev = blit_row_upto(v, x, y, line, j - 1);
        let step = blit_pixel(prev.0, x + (j - 1), y, bit_of(line, j - 1));
        (step.0, prev.1 || step.1)
    }
}

/// One full 8-pixel sprite row merged in at column `x`, row `y % 32`.
pub open spec fn blit_row(v: Seq<Seq<bool>>, x: int, y: int, line: u8) -> (Seq<Seq<bool>>, bool)
    recommends
        v.len() == 64,
        0 <= x,
        0 <= y,
{
    blit_row_upto(v, x, y % 32, line, 8)
}

/// The grid after the first `i` rows of `sprite` are merged in, row `k`
/// landing at row `(y + k) % 32`, and whether any pixel of those rows
/// collided.
pub open spec fn blit_sprite_upto(
    v: Seq<Seq<bool>>,
    x: int,
    y: int,
    sprite: Seq<u8>,
    i: int,
) -> (Seq<Seq<bool>>, bool)
    recommends
        v.len() == 64,
        0 <= x,
        0 <= y,
        i <= sprite.len(),
    decreases i,
{
    if i <= 0 {
        (v, false)
    } else {
        let prev = blit_sprite_upto(v, x, y, sprite, i - 1);
        let row = blit_row(prev.0, x, y + (i - 1), sprite[i - 1]);
        (row.0, prev.1 || row.1)
    }
}

/// A whole sprite merged into the grid at origin `(x, y)`: the resulting
/// grid, and the OR of every per-pixel collision.
pub open spec fn blit_sprite(v: Seq<Seq<bool>>, x: int, y: int, sprite: Seq<u8>) -> (
    Seq<Seq<bool>>,
    bool,
)
    recommends
        v.len() == 64,
        0 <= x,
        0 <= y,
{
    blit_sprite_upto(v, x, y, sprite, sprite.len() as int)
}

impl Cpu {
    /// XOR a single pixel at column `x % 64`, row `y`; reports a collision
    /// when a lit pixel is hit by a lit sprite bit.
    fn draw_pixel(&mut self, x: usize, y: usize, px: bool) -> (res: bool)
        requires
            old(self)@.wf(),
            y < 32,
        ensures
            final(self)@ == (CpuModel {
                vram: blit_pixel(old(self)@.vram, x as int, y as int, px).0,
                ..old(self)@
            }),
            res == blit_pixel(old(self)@.vram, x as int, y as int, px).1,
            final(self)@.wf(),
    {
        let c = x % 64;
        let prev = self.vram[c][y];
        self.vram[c][y] = prev ^ px;
        proof {
            assert(self@ =~~= (CpuModel {
                vram: blit_pixel(old(self)@.vram, x as int, y as int, px).0,
                ..old(self)@
            }));
        }
        prev && px
    }

    /// Merge one 8-pixel sprite row into the grid at origin column `x`, row
    /// `y % 32`.
    fn draw_line(&mut self, x: usize, y: usize, line: u8) -> (res: bool)
        requires
            old(self)@.wf(),
            x + 8 <= usize::MAX,
        ensures
            final(self)@ == (CpuModel {
                vram: blit_row(old(self)@.vram, x as int, y as int, line).0,
                ..old(self)@
            }),
            res == blit_row(old(self)@.vram, x as int, y as int, line).1,
            final(self)@.wf(),
    {
        let yr = y % 32;
        let mut res = false;
        let mut j: usize = 0;
        while j < 8
            invariant
                j <= 8,
                x + 8 <= usize::MAX,
                yr == y % 32,
                self@ == (CpuModel {
                    vram: blit_row_upto(old(self)@.vram, x as int, yr as int, line, j as int).0,
                    ..old(self)@
                }),
                res == blit_row_upto(old(self)@.vram, x as int, yr as int, line, j as int).1,
                self@.wf(),
            decreases 8 - j,
        {
            let sh: u8 = 7 - (j as u8);
            let px = (line >> sh) & 1 == 1;
            let hit = self.draw_pixel(x + j, yr, px);
            proof {
                assert(px == bit_of(line, j as int));
            }
            res = res || hit;
            j += 1;
        }
        res
    }

    /// Merge a whole sprite into the grid at origin `(x, y)`: row `k` of the
    /// sprite lands at row `(y + k) % 32`, each row's pixels at columns
    /// `(x + j) % 64`. Returns whether any lit pixel was turned off.
    pub fn draw_sprite(&mut self, x: usize, y: usize, sprite: &[u8]) -> (collision: bool)
        requires
            old(self)@.wf(),
            x + 8 <= usize::MAX,
            y + sprite@.len() <= usize::MAX,
        ensures
            final(self)@ == (CpuModel {
                vram: blit_sprite(old(self)@.vram, x as int, y as int, sprite@).0,
                ..old(self)@
            }),
            collision == blit_sprite(old(self)@.vram, x as int, y as int, sprite@).1,
            final(self)@.wf(),
    {
        let n = sprite.len();
        let mut res = false;
        let mut i: usize = 0;
        while i < n
            invariant
                n == sprite@.len(),
                i <= n,
                x + 8 <= usize::MAX,
                y + n <= usize::MAX,
                self@ == (CpuModel {
                    vram: blit_sprite_upto(old(self)@.vram, x as int, y as int, sprite@, i as int).0,
                    ..old(self)@
                }),
                res == blit_sprite_upto(old(self)@.vram, x as int, y as int, sprite@, i as int).1,
                self@.wf(),
            decreases n - i,
        {
            let line = sprite[i];
            let hit = self.draw_line(x, y + i, line);
            res = res || hit;
            i += 1;
        }
        res
    }
}

/// An iterator-style decomposition of a byte into its 8 bits, most
/// significant first: field 0 is the byte, field 1 the next bit position.
pub struct Decon(pub u8, pub u8);

impl Decon {
    /// Start decomposing `x` at its most significant bit.
    pub fn new(x: u8) -> (d: Decon)
        ensures
            d.0 == x,
            d.1 == 0,
    {
        Decon(x, 0)
    }

    /// The next bit, most significant first, or `None` once all 8 bits are
    /// out.
    pub fn next(&mut self) -> (r: Option<bool>)
        ensures
            old(self).1 > 7 ==> r is None && *final(self) == *old(self),
            old(self).1 <= 7 ==> {
                &&& r == Some(bit_of(old(self).0, old(self).1 as int))
                &&& final(self).0 == old(self).0
                &&& final(self).1 == old(self).1 + 1
            },
    {
        if self.1 > 7 {
            None
        } else {
            let x = (self.0 >> (7 - self.1)) & 1;
            self.1 += 1;
            Some(x == 1)
        }
    }
}

} // verus!
