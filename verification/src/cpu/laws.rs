//! Machine-wide laws: properties that tie several operations together,
//! stated over the abstract model and proved once and for all.

use vstd::prelude::*;

use vstd::arithmetic::div_mod::{lemma_fundamental_div_mod, lemma_mod_multiples_vanish, lemma_small_mod};

use crate::cpu::execution::{byte_add, fetch_step_spec, step, x_of, y_of};
use crate::cpu::graphics::{bit_of, blit_row, blit_row_upto, blit_sprite, blit_sprite_upto};
use crate::cpu::{CpuModel, ExecutionState};

verus! {

/// Law: fetching and executing "set register `x` to `kk`" (opcode 6xkk)
/// leaves `kk` in register `x`, every other register untouched, and the
/// program counter advanced by exactly 2.
pub proof fn lemma_load_immediate(s: CpuModel, x: u8, kk: u8, rnd: u8)
    requires
        s.wf(),
        x < 16,
        s.pc + 2 < 4096,
        s.ram[s.pc as int] == (0x60 + x) as u8,
        s.ram[s.pc as int + 1] == kk,
    ensures
        fetch_step_spec(s, rnd).reg[x as int] == kk,
        forall|i: int|
            0 <= i < 16 && i != x ==> fetch_step_spec(s, rnd).reg[i] == s.reg[i],
        fetch_step_spec(s, rnd).pc == s.pc + 2,
{
    let b0 = (0x60 + x) as u8;
    assert(b0 / 16 == 6 && b0 % 16 == x);
}

/// Law: executing "add `k1` to register `x`" and then "add `k2` to register
/// `x`" always leaves the modulo-256 sum in the register and never faults,
/// in particular when the true sum exceeds 255.
pub proof fn lemma_add_immediate_wraps(s: CpuModel, x: u8, k1: u8, k2: u8, r1: u8, r2: u8)
    requires
        s.wf(),
        x < 16,
        s.reg[x as int] + k1 + k2 > 255,
    ensures
        ({
            let b0 = (0x70 + x) as u8;
            let t = step(step(s, b0, k1, r1), b0, k2, r2);
            &&& t.reg[x as int] == (s.reg[x as int] + k1 + k2) % 256
            &&& t.execution_state == s.execution_state
            &&& t.pc == s.pc
        }),
{
    let b0 = (0x70 + x) as u8;
    assert(b0 / 16 == 7 && b0 % 16 == x);
    let v0 = s.reg[x as int];
    let t1 = step(s, b0, k1, r1);
    assert(t1 == CpuModel { reg: s.reg.update(x as int, byte_add(v0, k1)), ..s });
    let t2 = step(t1, b0, k2, r2);
    assert(t2 == CpuModel { reg: t1.reg.update(x as int, byte_add(byte_add(v0, k1), k2)), ..t1 });
    assert(byte_add(byte_add(v0, k1), k2) == (v0 + k1 + k2) % 256);
}

/// Law: clearing the display (opcode 00E0) yields a screen on which every
/// pixel reads off, whatever the screen held before.
pub proof fn lemma_clear_display(s: CpuModel, rnd: u8)
    requires
        s.wf(),
    ensures
        forall|c: int, r: int|
            0 <= c < 64 && 0 <= r < 32 ==> !step(s, 0x00, 0xE0, rnd).vram[c][r],
{
}

/// Law: returning from a subroutine (opcode 00EE) with a non-empty stack
/// restores the address on top of the stack and pops exactly one entry;
/// with an empty stack it pauses the machine and the stack pointer stays 0.
pub proof fn lemma_return_restores(s: CpuModel, rnd: u8)
    requires
        s.wf(),
    ensures
        s.sp > 0 ==> ({
            let t = step(s, 0x00, 0xEE, rnd);
            &&& t.pc == s.stack[s.sp - 1]
            &&& t.sp == s.sp - 1
            &&& t.stack == s.stack
            &&& t.execution_state == s.execution_state
        }),
        s.sp == 0 ==> ({
            let t = step(s, 0x00, 0xEE, rnd);
            &&& t.sp == 0
            &&& t.pc == s.pc
            &&& t.execution_state == ExecutionState::Paused
        }),
{
}

/// Law: a call (opcode 2nnn) followed by a return (00EE) brings the program
/// counter back to where the call found it, with the stack pointer
/// restored, provided the stack had room for the call.
pub proof fn lemma_call_return_round_trip(s: CpuModel, b0: u8, b1: u8, r1: u8, r2: u8)
    requires
        s.wf(),
        b0 / 16 == 2,
        s.sp < 16,
    ensures
        ({
            let t = step(s, b0, b1, r1);
            let u = step(t, 0x00, 0xEE, r2);
            &&& t.sp == s.sp + 1
            &&& t.stack[s.sp as int] == s.pc
            &&& u.pc == s.pc
            &&& u.sp == s.sp
            &&& u.execution_state == s.execution_state
        }),
{
}

/// Law: a call (opcode 2nnn) arriving with the stack pointer already at its
/// 16-entry limit pushes nothing, leaves the program counter and stack
/// untouched, and pauses the machine.
pub proof fn lemma_call_overflow(s: CpuModel, b0: u8, b1: u8, rnd: u8)
    requires
        s.wf(),
        b0 / 16 == 2,
        s.sp == 16,
    ensures
        ({
            let t = step(s, b0, b1, rnd);
            &&& t.pc == s.pc
            &&& t.sp == 16
            &&& t.stack == s.stack
            &&& t.execution_state == ExecutionState::Paused
        }),
{
}

/// Law: each of the four skip opcodes (3xkk, 4xkk, 5xy0, 9xy0), fetched and
/// executed, advances the program counter by 4 in all (2 for the fetch, 2
/// more for the skip) when its condition holds, and by just the fetch's 2
/// when it does not.
pub proof fn lemma_skip_opcodes(s: CpuModel, rnd: u8)
    requires
        s.wf(),
        s.pc + 4 < 4096,
    ensures
        ({
            let b0 = s.ram[s.pc as int];
            let b1 = s.ram[s.pc as int + 1];
            let t = fetch_step_spec(s, rnd);
            &&& (b0 / 16 == 3 ==> t.pc == (if s.reg[x_of(b0)] == b1 {
                s.pc + 4
            } else {
                s.pc + 2
            }))
            &&& (b0 / 16 == 4 ==> t.pc == (if s.reg[x_of(b0)] != b1 {
                s.pc + 4
            } else {
                s.pc + 2
            }))
            &&& (b0 / 16 == 5 ==> t.pc == (if s.reg[x_of(b0)] == s.reg[y_of(b1)] {
                s.pc + 4
            } else {
                s.pc + 2
            }))
            &&& (b0 / 16 == 9 ==> t.pc == (if s.reg[x_of(b0)] != s.reg[y_of(b1)] {
                s.pc + 4
            } else {
                s.pc + 2
            }))
        }),
{
}

/// For a grid position `c` and origin `x` on a ring of `m` cells,
/// `(c - x) % m == k` says exactly that `c` is where offset `k` from `x`
/// lands.
proof fn lemma_offset_inverse(m: int, x: int, c: int, k: int)
    requires
        0 < m,
        0 <= x,
        0 <= c < m,
        0 <= k < m,
    ensures
        ((c - x) % m == k) <==> (c == (x + k) % m),
{
    lemma_fundamental_div_mod(c - x, m);
    lemma_fundamental_div_mod(x + k, m);
    if (c - x) % m == k {
        let q = (c - x) / m;
        assert(m * (-q) == -(m * q)) by (nonlinear_arith);
        assert(x + k == m * (-q) + c);
        lemma_mod_multiples_vanish(-q, c, m);
        lemma_small_mod(c as nat, m as nat);
        assert(c == (x + k) % m);
    }
    if c == (x + k) % m {
        let q = (x + k) / m;
        assert(m * (-q) == -(m * q)) by (nonlinear_arith);
        assert(c - x == m * (-q) + k);
        lemma_mod_multiples_vanish(-q, k, m);
        lemma_small_mod(k as nat, m as nat);
        assert((c - x) % m == k);
    }
}

/// Law: merging the first `j` pixels of a sprite row is exactly the
/// per-pixel XOR the compositor is specified by — pixel `k` lands at column
/// `(x + k) % 64` of row `y` and becomes its old value XOR sprite bit `k`,
/// every other pixel of the grid keeps its value, and a collision is
/// reported exactly when some lit pixel meets a lit sprite bit.
pub proof fn lemma_blit_row_pixels(v: Seq<Seq<bool>>, x: int, y: int, line: u8, j: int)
    requires
        v.len() == 64,
        forall|c: int| 0 <= c < 64 ==> (#[trigger] v[c]).len() == 32,
        0 <= x,
        0 <= y < 32,
        0 <= j <= 8,
    ensures
        blit_row_upto(v, x, y, line, j).0.len() == 64,
        forall|c: int|
            0 <= c < 64 ==> (#[trigger] blit_row_upto(v, x, y, line, j).0[c]).len() == 32,
        forall|c: int, r: int|
            0 <= c < 64 && 0 <= r < 32 && r != y ==> blit_row_upto(v, x, y, line, j).0[c][r]
                == v[c][r],
        forall|c: int|
            0 <= c < 64 && (c - x) % 64 >= j ==> blit_row_upto(v, x, y, line, j).0[c][y]
                == v[c][y],
        forall|c: int|
            0 <= c < 64 && (c - x) % 64 < j ==> blit_row_upto(v, x, y, line, j).0[c][y] == (v[c][y]
                ^ bit_of(line, (c - x) % 64)),
        blit_row_upto(v, x, y, line, j).1 == (exists|k: int|
            0 <= k < j && v[(x + k) % 64][y] && #[trigger] bit_of(line, k)),
    decreases j,
{
    if j > 0 {
        lemma_blit_row_pixels(v, x, y, line, j - 1);
        let prev = blit_row_upto(v, x, y, line, j - 1);
        let cur = blit_row_upto(v, x, y, line, j);
        let cstar = (x + (j - 1)) % 64;
        lemma_offset_inverse(64, x, cstar, j - 1);
        assert((cstar - x) % 64 == j - 1);
        assert(prev.0[cstar][y] == v[cstar][y]);
        assert(cur.0 == prev.0.update(
            cstar,
            prev.0[cstar].update(y, prev.0[cstar][y] ^ bit_of(line, j - 1)),
        ));
        assert forall|c: int| 0 <= c < 64 && (c - x) % 64 < j implies cur.0[c][y] == (v[c][y]
            ^ bit_of(line, (c - x) % 64)) by {
            lemma_offset_inverse(64, x, c, (c - x) % 64);
            if (c - x) % 64 == j - 1 {
                assert(c == cstar);
                assert(cur.0[c][y] == (v[c][y] ^ bit_of(line, j - 1)));
            } else {
                assert(c != cstar);
                assert(cur.0[c][y] == prev.0[c][y]);
            }
        }
        assert forall|c: int| 0 <= c < 64 && (c - x) % 64 >= j implies cur.0[c][y] == v[c][y] by {
            lemma_offset_inverse(64, x, c, (c - x) % 64);
            assert(c != cstar);
        }
        assert(cur.1 == (prev.1 || (v[cstar][y] && bit_of(line, j - 1))));
        if cur.1 {
            if prev.1 {
                let k = choose|k: int|
                    0 <= k < j - 1 && v[(x + k) % 64][y] && #[trigger] bit_of(line, k);
                assert(0 <= k < j && v[(x + k) % 64][y] && bit_of(line, k));
            } else {
                assert(0 <= j - 1 < j && v[(x + (j - 1)) % 64][y] && bit_of(line, j - 1));
            }
        }
        if exists|k: int| 0 <= k < j && v[(x + k) % 64][y] && #[trigger] bit_of(line, k) {
            let k = choose|k: int|
                0 <= k < j && v[(x + k) % 64][y] && #[trigger] bit_of(line, k);
            if k < j - 1 {
                assert(prev.1);
            } else {
                assert(k == j - 1);
                assert(v[cstar][y] && bit_of(line, j - 1));
            }
            assert(cur.1);
        }
    }
}

/// Every bit of an all-ones sprite row is lit.
proof fn lemma_ones_bits()
    ensures
        forall|k: int| 0 <= k < 8 ==> #[trigger] bit_of(0xFFu8, k),
{
    assert(forall|sh: u8| sh < 8 ==> (0xFFu8 >> sh) & 1u8 == 1u8) by (bit_vector);
    assert forall|k: int| 0 <= k < 8 implies #[trigger] bit_of(0xFFu8, k) by {
        let sh = (7 - k) as u8;
        assert(sh < 8);
        assert((0xFFu8 >> sh) & 1u8 == 1u8);
    }
}

/// Law: drawing an all-ones single-row sprite onto a region whose 8 target
/// pixels (the columns within row offset 0..8 of `x`, at row `y`) are all
/// lit turns every one of them off and reports a collision.
pub proof fn lemma_sprite_ones_on_ones(v: Seq<Seq<bool>>, x: int, y: int)
    requires
        v.len() == 64,
        forall|c: int| 0 <= c < 64 ==> (#[trigger] v[c]).len() == 32,
        0 <= x,
        0 <= y < 32,
        forall|c: int| 0 <= c < 64 && (c - x) % 64 < 8 ==> (#[trigger] v[c])[y],
    ensures
        ({
            let b = blit_sprite(v, x, y, seq![0xFFu8]);
            &&& forall|c: int|
                0 <= c < 64 && (c - x) % 64 < 8 ==> !(#[trigger] b.0[c])[y]
            &&& b.1
        }),
{
    lemma_ones_bits();
    let sprite = seq![0xFFu8];
    lemma_blit_sprite_characterization(v, x, y, sprite);
    let b = blit_sprite(v, x, y, sprite);
    assert(sprite.len() == 1 && sprite[0] == 0xFFu8);
    assert((y - y) % 32 == 0);
    assert forall|c: int| 0 <= c < 64 && (c - x) % 64 < 8 implies !(#[trigger] b.0[c])[y] by {
        assert(b.0[c][y] == (v[c][y] ^ bit_of(0xFFu8, (c - x) % 64)));
    }
    let c0 = (x + 0) % 64;
    lemma_offset_inverse(64, x, c0, 0);
    assert((y + 0) % 32 == y);
    assert(0 <= 0 < 1 && 0 <= 0 < 8 && v[(x + 0) % 64][(y + 0) % 32] && bit_of(sprite[0], 0));
    assert(b.1);
}

/// Law: drawing an all-ones single-row sprite onto a region whose 8 target
/// pixels (the columns within row offset 0..8 of `x`, at row `y`) are all
/// off lights every one of them and reports no collision.
pub proof fn lemma_sprite_ones_on_zeros(v: Seq<Seq<bool>>, x: int, y: int)
    requires
        v.len() == 64,
        forall|c: int| 0 <= c < 64 ==> (#[trigger] v[c]).len() == 32,
        0 <= x,
        0 <= y < 32,
        forall|c: int| 0 <= c < 64 && (c - x) % 64 < 8 ==> !(#[trigger] v[c])[y],
    ensures
        ({
            let b = blit_sprite(v, x, y, seq![0xFFu8]);
            &&& forall|c: int|
                0 <= c < 64 && (c - x) % 64 < 8 ==> (#[trigger] b.0[c])[y]
            &&& !b.1
        }),
{
    lemma_ones_bits();
    let sprite = seq![0xFFu8];
    lemma_blit_sprite_characterization(v, x, y, sprite);
    let b = blit_sprite(v, x, y, sprite);
    assert(sprite.len() == 1 && sprite[0] == 0xFFu8);
    assert((y - y) % 32 == 0);
    assert forall|c: int| 0 <= c < 64 && (c - x) % 64 < 8 implies (#[trigger] b.0[c])[y] by {
        assert(b.0[c][y] == (v[c][y] ^ bit_of(0xFFu8, (c - x) % 64)));
    }
    if b.1 {
        let (ii, k) = choose|ii: int, k: int|
            0 <= ii < 1 && 0 <= k < 8 && v[(x + k) % 64][(y + ii) % 32] && #[trigger] bit_of(
                sprite[ii],
                k,
            );
        assert(ii == 0);
        assert((y + 0) % 32 == y);
        lemma_offset_inverse(64, x, (x + k) % 64, k);
        assert(((x + k) % 64 - x) % 64 == k);
        assert(false);
    }
}

/// Law: a sprite row drawn starting at column 63 wraps: its second pixel
/// lands at column 0.
pub proof fn lemma_horizontal_wrap(v: Seq<Seq<bool>>, y: int, line: u8)
    requires
        v.len() == 64,
        forall|c: int| 0 <= c < 64 ==> (#[trigger] v[c]).len() == 32,
        0 <= y < 32,
    ensures
        blit_row(v, 63, y, line).0[0][y] == (v[0][y] ^ bit_of(line, 1)),
{
    lemma_blit_row_pixels(v, 63, y, line, 8);
    assert(y % 32 == y);
    assert((0 - 63) % 64 == 1);
}

/// Law: compositing a sprite of up to 32 rows is exactly the per-pixel XOR
/// the compositor is specified by — the pixel at offset `(k, i)` from the
/// origin lands at column `(x + k) % 64`, row `(y + i) % 32`, and becomes
/// its old value XOR bit `k` of sprite row `i`; every other pixel keeps its
/// value; and a collision is reported exactly when some lit pixel meets a
/// lit sprite bit.
pub proof fn lemma_blit_sprite_pixels(v: Seq<Seq<bool>>, x: int, y: int, sprite: Seq<u8>, i: int)
    requires
        v.len() == 64,
        forall|c: int| 0 <= c < 64 ==> (#[trigger] v[c]).len() == 32,
        0 <= x,
        0 <= y,
        0 <= i <= sprite.len() <= 32,
    ensures
        blit_sprite_upto(v, x, y, sprite, i).0.len() == 64,
        forall|c: int|
            0 <= c < 64 ==> (#[trigger] blit_sprite_upto(v, x, y, sprite, i).0[c]).len() == 32,
        forall|c: int, r: int|
            0 <= c < 64 && 0 <= r < 32 && (r - y) % 32 >= i ==> blit_sprite_upto(
                v,
                x,
                y,
                sprite,
                i,
            ).0[c][r] == v[c][r],
        forall|c: int, r: int|
            0 <= c < 64 && 0 <= r < 32 && (r - y) % 32 < i && (c - x) % 64 >= 8
                ==> blit_sprite_upto(v, x, y, sprite, i).0[c][r] == v[c][r],
        forall|c: int, r: int|
            0 <= c < 64 && 0 <= r < 32 && (r - y) % 32 < i && (c - x) % 64 < 8
                ==> blit_sprite_upto(v, x, y, sprite, i).0[c][r] == (v[c][r] ^ bit_of(
                sprite[(r - y) % 32],
                (c - x) % 64,
            )),
        blit_sprite_upto(v, x, y, sprite, i).1 == (exists|ii: int, k: int|
            0 <= ii < i && 0 <= k < 8 && v[(x + k) % 64][(y + ii) % 32] && #[trigger] bit_of(
                sprite[ii],
                k,
            )),
    decreases i,
{
    if i > 0 {
        lemma_blit_sprite_pixels(v, x, y, sprite, i - 1);
        let prev = blit_sprite_upto(v, x, y, sprite, i - 1);
        let cur = blit_sprite_upto(v, x, y, sprite, i);
        let rstar = (y + (i - 1)) % 32;
        lemma_offset_inverse(32, y, rstar, i - 1);
        assert((rstar - y) % 32 == i - 1);
        let row = blit_row_upto(prev.0, x, rstar, sprite[i - 1], 8);
        assert(cur.0 == row.0 && cur.1 == (prev.1 || row.1));
        lemma_blit_row_pixels(prev.0, x, rstar, sprite[i - 1], 8);
        // the first i - 1 rows left row rstar of the grid untouched
        assert(forall|c: int| 0 <= c < 64 ==> prev.0[c][rstar] == v[c][rstar]);
        assert forall|c: int, r: int|
            0 <= c < 64 && 0 <= r < 32 && (r - y) % 32 >= i implies cur.0[c][r] == v[c][r] by {
            lemma_offset_inverse(32, y, r, (r - y) % 32);
            assert(r != rstar);
        }
        assert forall|c: int, r: int|
            0 <= c < 64 && 0 <= r < 32 && (r - y) % 32 < i && (c - x) % 64 >= 8 implies cur.0[c][r]
            == v[c][r] by {
            lemma_offset_inverse(32, y, r, (r - y) % 32);
            assert(cur.0[c][r] == prev.0[c][r]);
        }
        assert forall|c: int, r: int|
            0 <= c < 64 && 0 <= r < 32 && (r - y) % 32 < i && (c - x) % 64 < 8 implies cur.0[c][r]
            == (v[c][r] ^ bit_of(sprite[(r - y) % 32], (c - x) % 64)) by {
            lemma_offset_inverse(32, y, r, (r - y) % 32);
            if r == rstar {
                assert(cur.0[c][r] == (prev.0[c][r] ^ bit_of(sprite[i - 1], (c - x) % 64)));
            } else {
                assert(cur.0[c][r] == prev.0[c][r]);
            }
        }
        // collisions of the new row read the original grid
        assert(row.1 == (exists|k: int|
            0 <= k < 8 && prev.0[(x + k) % 64][rstar] && #[trigger] bit_of(sprite[i - 1], k)));
        if cur.1 {
            if prev.1 {
                let (ii, k) = choose|ii: int, k: int|
                    0 <= ii < i - 1 && 0 <= k < 8 && v[(x + k) % 64][(y + ii) % 32]
                        && #[trigger] bit_of(sprite[ii], k);
                assert(0 <= ii < i && 0 <= k < 8 && v[(x + k) % 64][(y + ii) % 32] && bit_of(
                    sprite[ii],
                    k,
                ));
            } else {
                let k = choose|k: int|
                    0 <= k < 8 && prev.0[(x + k) % 64][rstar] && #[trigger] bit_of(
                        sprite[i - 1],
                        k,
                    );
                assert(0 <= i - 1 < i && 0 <= k < 8 && v[(x + k) % 64][(y + (i - 1)) % 32]
                    && bit_of(sprite[i - 1], k));
            }
        }
        if exists|ii: int, k: int|
            0 <= ii < i && 0 <= k < 8 && v[(x + k) % 64][(y + ii) % 32] && #[trigger] bit_of(
                sprite[ii],
                k,
            ) {
            let (ii, k) = choose|ii: int, k: int|
                0 <= ii < i && 0 <= k < 8 && v[(x + k) % 64][(y + ii) % 32] && #[trigger] bit_of(
                    sprite[ii],
                    k,
                );
            if ii < i - 1 {
                assert(prev.1);
            } else {
                assert(ii == i - 1);
                assert(prev.0[(x + k) % 64][rstar] && bit_of(sprite[i - 1], k));
                assert(row.1);
            }
            assert(cur.1);
        }
    }
}

/// Law: the whole-sprite form of [`lemma_blit_sprite_pixels`] — what a full
/// draw call does to every pixel of the grid, and when it collides.
pub proof fn lemma_blit_sprite_characterization(v: Seq<Seq<bool>>, x: int, y: int, sprite: Seq<u8>)
    requires
        v.len() == 64,
        forall|c: int| 0 <= c < 64 ==> (#[trigger] v[c]).len() == 32,
        0 <= x,
        0 <= y,
        sprite.len() <= 32,
    ensures
        forall|c: int, r: int|
            0 <= c < 64 && 0 <= r < 32 && (r - y) % 32 >= sprite.len() ==> blit_sprite(
                v,
                x,
                y,
                sprite,
            ).0[c][r] == v[c][r],
        forall|c: int, r: int|
            0 <= c < 64 && 0 <= r < 32 && (r - y) % 32 < sprite.len() && (c - x) % 64 >= 8
                ==> blit_sprite(v, x, y, sprite).0[c][r] == v[c][r],
        forall|c: int, r: int|
            0 <= c < 64 && 0 <= r < 32 && (r - y) % 32 < sprite.len() && (c - x) % 64 < 8
                ==> blit_sprite(v, x, y, sprite).0[c][r] == (v[c][r] ^ bit_of(
                sprite[(r - y) % 32],
                (c - x) % 64,
            )),
        blit_sprite(v, x, y, sprite).1 == (exists|ii: int, k: int|
            0 <= ii < sprite.len() && 0 <= k < 8 && v[(x + k) % 64][(y + ii) % 32]
                && #[trigger] bit_of(sprite[ii], k)),
{
    lemma_blit_sprite_pixels(v, x, y, sprite, sprite.len() as int);
}

} // verus!


