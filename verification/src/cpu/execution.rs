//! Instruction fetch, decode and execution.
//!
//! The semantics of every opcode is pinned down by the transition function
//! [`step`] over the abstract [`CpuModel`]; the executable interpreter is
//! proved to realise exactly that transition.

use vstd::prelude::*;

use crate::cpu::graphics::blit_sprite;
use crate::cpu::{blank_vram, tick_spec, Cpu, CpuModel, ExecutionState};

verus! {

/// The register index in the low nibble of the first instruction byte.
pub open spec fn x_of(b0: u8) -> int {
    (b0 % 16) as int
}

/// The register index in the high nibble of the second instruction byte.
pub open spec fn y_of(b1: u8) -> int {
    (b1 / 16) as int
}

/// The 12-bit address operand: low nibble of byte 0, then all of byte 1.
pub open spec fn nnn_of(b0: u8, b1: u8) -> u16 {
    ((b0 % 16) * 256 + b1) as u16
}

/// 8-bit addition, wrapping modulo 256.
pub open spec fn byte_add(a: u8, b: u8) -> u8 {
    if a + b > 255 {
        (a + b - 256) as u8
    } else {
        (a + b) as u8
    }
}

/// 16-bit addition, wrapping modulo 65536.
pub open spec fn word_add(a: u16, b: u16) -> u16 {
    if a + b > 65535 {
        (a + b - 65536) as u16
    } else {
        (a + b) as u16
    }
}

/// Skip the next instruction: advance the program counter one 2-byte slot.
pub open spec fn skip_pc(s: CpuModel) -> CpuModel {
    CpuModel { pc: word_add(s.pc, 2), ..s }
}

/// Family 0: clear the screen, return from a subroutine, or (for any other
/// encoding) do nothing. A return with an empty stack is a fault: the
/// machine pauses and is otherwise untouched.
pub open spec fn step_sys(s: CpuModel, b0: u8, b1: u8) -> CpuModel {
    if b0 == 0x00 && b1 == 0xE0 {
        CpuModel { vram: blank_vram(), ..s }
    } else if b0 == 0x00 && b1 == 0xEE {
        if s.sp == 0 {
            CpuModel { execution_state: ExecutionState::Paused, ..s }
        } else {
            CpuModel { sp: (s.sp - 1) as u8, pc: s.stack[s.sp - 1], ..s }
        }
    } else {
        s
    }
}

/// Family 2: push the current program counter and jump. A call with the
/// stack already 16 deep is a fault: nothing is pushed, the counter stays,
/// the machine pauses.
pub open spec fn step_call(s: CpuModel, target: u16) -> CpuModel {
    if s.sp == 16 {
        CpuModel { execution_state: ExecutionState::Paused, ..s }
    } else {
        CpuModel {
            stack: s.stack.update(s.sp as int, s.pc),
            sp: (s.sp + 1) as u8,
            pc: target,
            ..s
        }
    }
}

/// Family 8: register-to-register moves, bitwise operators, add/sub with a
/// carry/borrow flag in register 15, and the two shift opcodes.
///
/// Two oddities of this machine are kept exactly: the reversed subtraction
/// (discriminator 7) subtracts the second operand register from itself, so
/// it always stores 0 and sets the flag to 1; and the left shift
/// (discriminator 0xE) shifts by the second register masked to 3 bits, the
/// flag reporting whether the unmasked amount was 8 or more.
pub open spec fn step_alu(s: CpuModel, b0: u8, b1: u8) -> CpuModel {
    let x = x_of(b0);
    let y = y_of(b1);
    let n = b1 % 16;
    if n == 0 {
        CpuModel { reg: s.reg.update(x, s.reg[y]), ..s }
    } else if n == 1 {
        CpuModel { reg: s.reg.update(x, s.reg[x] | s.reg[y]), ..s }
    } else if n == 2 {
        CpuModel { reg: s.reg.update(x, s.reg[x] & s.reg[y]), ..s }
    } else if n == 3 {
        CpuModel { reg: s.reg.update(x, s.reg[x] ^ s.reg[y]), ..s }
    } else if n == 4 {
        let sum = s.reg[x] + s.reg[y];
        CpuModel {
            reg: s.reg.update(x, (if sum > 255 { sum - 256 } else { sum }) as u8).update(
                15,
                if sum > 255 { 1u8 } else { 0u8 },
            ),
            ..s
        }
    } else if n == 5 {
        let diff = s.reg[x] - s.reg[y];
        CpuModel {
            reg: s.reg.update(x, (if diff < 0 { diff + 256 } else { diff }) as u8).update(
                15,
                if s.reg[x] >= s.reg[y] { 1u8 } else { 0u8 },
            ),
            ..s
        }
    } else if n == 6 {
        CpuModel {
            reg: s.reg.update(x, (s.reg[x] / 2) as u8).update(15, (s.reg[x] % 2) as u8),
            ..s
        }
    } else if n == 7 {
        CpuModel { reg: s.reg.update(x, 0u8).update(15, 1u8), ..s }
    } else if n == 14 {
        CpuModel {
            reg: s.reg.update(x, s.reg[x] << ((s.reg[y] % 8) as u8)).update(
                15,
                if s.reg[y] >= 8 { 1u8 } else { 0u8 },
            ),
            ..s
        }
    } else {
        s
    }
}

/// Family D: read the sprite rows from memory at the index register
/// (addresses taken modulo the memory size), composite them at the position
/// given by the two operand registers, and put the collision flag in
/// register 15.
pub open spec fn step_draw(s: CpuModel, b0: u8, b1: u8) -> CpuModel {
    let n = (b1 % 16) as nat;
    let sprite = Seq::new(n, |i: int| s.ram[(s.reg_i + i) % 4096]);
    let blit = blit_sprite(s.vram, s.reg[x_of(b0)] as int, s.reg[y_of(b1)] as int, sprite);
    CpuModel {
        vram: blit.0,
        reg: s.reg.update(15, if blit.1 { 1u8 } else { 0u8 }),
        ..s
    }
}

/// Family E: skip on the held state of the key named by register `x` (key
/// codes are 4 bits, so the register is read modulo 16).
pub open spec fn step_key(s: CpuModel, b0: u8, b1: u8) -> CpuModel {
    let key = (s.reg[x_of(b0)] % 16) as int;
    if b1 == 0x9E {
        if s.keyboard[key] {
            skip_pc(s)
        } else {
            s
        }
    } else if b1 == 0xA1 {
        if !s.keyboard[key] {
            skip_pc(s)
        } else {
            s
        }
    } else {
        s
    }
}

/// Memory after registers `0..=x` are stored in sequence starting at `base`,
/// each address taken modulo the memory size.
pub open spec fn store_regs(ram: Seq<u8>, reg: Seq<u8>, base: int, k: int) -> Seq<u8>
    recommends
        ram.len() == 4096,
        reg.len() == 16,
        0 <= base,
        k <= 16,
    decreases k,
{
    if k <= 0 {
        ram
    } else {
        store_regs(ram, reg, base, k - 1).update((base + (k - 1)) % 4096, reg[k - 1])
    }
}

/// The register file after registers `0..=x` are loaded in sequence from
/// memory starting at `base`, each address taken modulo the memory size.
pub open spec fn load_regs(ram: Seq<u8>, reg: Seq<u8>, base: int, x: int) -> Seq<u8> {
    Seq::new(16, |i: int| if i <= x { ram[(base + i) % 4096] } else { reg[i] })
}

/// Family F: timers, wait-for-key, index-register arithmetic, font lookup,
/// BCD store, and the register-file block transfers.
pub open spec fn step_fx(s: CpuModel, b0: u8, b1: u8) -> CpuModel {
    let x = x_of(b0);
    if b1 == 0x07 {
        CpuModel { reg: s.reg.update(x, s.tim_delay), ..s }
    } else if b1 == 0x0A {
        CpuModel { execution_state: ExecutionState::WaitingForKey(x as usize), ..s }
    } else if b1 == 0x15 {
        CpuModel { tim_delay: s.reg[x], ..s }
    } else if b1 == 0x18 {
        CpuModel { tim_sound: s.reg[x], ..s }
    } else if b1 == 0x1E {
        CpuModel { reg_i: word_add(s.reg_i, s.reg[x] as u16), ..s }
    } else if b1 == 0x29 {
        CpuModel { reg_i: (s.reg[x] * 5) as u16, ..s }
    } else if b1 == 0x33 {
        CpuModel {
            ram: s.ram.update((s.reg_i as int) % 4096, (s.reg[x] / 100) as u8).update(
                (s.reg_i + 1) % 4096,
                ((s.reg[x] / 10) % 10) as u8,
            ).update((s.reg_i + 2) % 4096, (s.reg[x] % 10) as u8),
            ..s
        }
    } else if b1 == 0x55 {
        CpuModel { ram: store_regs(s.ram, s.reg, s.reg_i as int, x + 1), ..s }
    } else if b1 == 0x65 {
        CpuModel { reg: load_regs(s.ram, s.reg, s.reg_i as int, x), ..s }
    } else {
        s
    }
}

/// The complete opcode table: the machine after executing the instruction
/// word `[b0, b1]` in state `s`. The random-opcode family (0xC) masks `rnd`,
/// the byte drawn for this step; no other family reads it. Unsupported
/// encodings leave the machine unchanged.
pub open spec fn step(s: CpuModel, b0: u8, b1: u8, rnd: u8) -> CpuModel
    recommends
        s.wf(),
{
    let family = b0 / 16;
    let x = x_of(b0);
    if family == 0 {
        step_sys(s, b0, b1)
    } else if family == 1 {
        CpuModel { pc: nnn_of(b0, b1), ..s }
    } else if family == 2 {
        step_call(s, nnn_of(b0, b1))
    } else if family == 3 {
        if s.reg[x] == b1 {
            skip_pc(s)
        } else {
            s
        }
    } else if family == 4 {
        if s.reg[x] != b1 {
            skip_pc(s)
        } else {
            s
        }
    } else if family == 5 {
        if s.reg[x] == s.reg[y_of(b1)] {
            skip_pc(s)
        } else {
            s
        }
    } else if family == 6 {
        CpuModel { reg: s.reg.update(x, b1), ..s }
    } else if family == 7 {
        CpuModel { reg: s.reg.update(x, byte_add(s.reg[x], b1)), ..s }
    } else if family == 8 {
        step_alu(s, b0, b1)
    } else if family == 9 {
        if s.reg[x] != s.reg[y_of(b1)] {
            skip_pc(s)
        } else {
            s
        }
    } else if family == 10 {
        CpuModel { reg_i: nnn_of(b0, b1), ..s }
    } else if family == 11 {
        CpuModel { pc: (s.reg[0] + nnn_of(b0, b1)) as u16, ..s }
    } else if family == 12 {
        CpuModel { reg: s.reg.update(x, rnd & b1), ..s }
    } else if family == 13 {
        step_draw(s, b0, b1)
    } else if family == 14 {
        step_key(s, b0, b1)
    } else {
        step_fx(s, b0, b1)
    }
}

/// Fetch the 2-byte word at the program counter, advance the counter past
/// it, and execute the word.
pub open spec fn fetch_step_spec(s: CpuModel, rnd: u8) -> CpuModel
    recommends
        s.wf(),
        s.pc + 2 < 4096,
{
    step(
        CpuModel { pc: (s.pc + 2) as u16, ..s },
        s.ram[s.pc as int],
        s.ram[s.pc as int + 1],
        rnd,
    )
}

/// One whole clock cycle while running: tick the timers, then fetch and
/// execute one instruction.
pub open spec fn cycle_spec(s: CpuModel, rnd: u8) -> CpuModel
    recommends
        s.wf(),
        s.pc + 2 < 4096,
{
    fetch_step_spec(tick_spec(s), rnd)
}

/// The two halves of a byte, seen arithmetically.
pub proof fn lemma_nibbles(b: u8)
    ensures
        b & 0x0F == b % 16,
        b >> 4u8 == b / 16,
{
    assert(b & 0x0F == b % 16) by (bit_vector);
    assert(b >> 4u8 == b / 16) by (bit_vector);
}

/// Relies on rand::random: a byte drawn uniformly from the thread-local
/// generator. Nothing is promised of its value.
#[verifier::external_body]
fn random_byte() -> u8 {
    rand::random::<u8>()
}

impl Cpu {
    /// Read the 2-byte instruction word at the program counter (big-endian:
    /// first byte high) and advance the counter past it.
    pub fn fetch_next_instruction(&mut self) -> (instruction: [u8; 2])
        requires
            old(self)@.wf(),
            old(self)@.pc + 2 < 4096,
        ensures
            instruction@ =~= seq![
                old(self)@.ram[old(self)@.pc as int],
                old(self)@.ram[old(self)@.pc as int + 1],
            ],
            final(self)@ == (CpuModel { pc: (old(self)@.pc + 2) as u16, ..old(self)@ }),
            final(self)@.wf(),
    {
        let b0 = self.ram[self.pc as usize];
        let b1 = self.ram[self.pc as usize + 1];
        self.pc += 2;
        [b0, b1]
    }

    /// Split an instruction word into its operand fields: the two register
    /// indices `x` and `y`, the immediate byte, and the 12-bit address.
    pub fn parse_instruction(instruction: [u8; 2]) -> (r: (u8, u8, u8, u16))
        ensures
            r.0 == instruction@[0] % 16,
            r.1 == instruction@[1] / 16,
            r.2 == instruction@[1],
            r.3 == nnn_of(instruction@[0], instruction@[1]),
    {
        let b0 = instruction[0];
        let b1 = instruction[1];
        let x = b0 & 0x0F;
        let y = b1 >> 4;
        let kk = b1;
        proof {
            lemma_nibbles(b0);
            lemma_nibbles(b1);
            assert(((b0 & 0x0F) as u16) << 8 == (b0 % 16) * 256) by (bit_vector);
        }
        let nnn = kk as u16 + ((x as u16) << 8);
        (x, y, kk, nnn)
    }

    /// Execute one instruction word, drawing this step's random byte from
    /// the operating system's generator. The effect is [`step`] for some
    /// byte `r`; for every family but the random one (0xC) the byte is
    /// irrelevant and the effect is [`step`] with any byte at all.
    pub fn execute_instruction(&mut self, instruction: [u8; 2])
        requires
            old(self)@.wf(),
        ensures
            exists|r: u8| final(self)@ == #[trigger] step(old(self)@, instruction@[0], instruction@[1], r),
            instruction@[0] / 16 != 12 ==> final(self)@ == step(
                old(self)@,
                instruction@[0],
                instruction@[1],
                0,
            ),
            final(self)@.wf(),
    {
        let rnd = random_byte();
        self.execute_instruction_with(instruction, rnd);
        proof {
            assert(self@ == step(old(self)@, instruction@[0], instruction@[1], rnd));
        }
    }

    /// Execute one instruction word with the random byte supplied by the
    /// caller, so a deterministic byte source can stand in for the operating
    /// system's generator.
    pub fn execute_instruction_with(&mut self, instruction: [u8; 2], rnd: u8)
        requires
            old(self)@.wf(),
        ensures
            final(self)@ == step(old(self)@, instruction@[0], instruction@[1], rnd),
            final(self)@.wf(),
    {
        let b0 = instruction[0];
        let b1 = instruction[1];
        let (x, y, byte, addr) = Self::parse_instruction(instruction);
        let xi = x as usize;
        let yi = y as usize;
        proof {
            lemma_nibbles(b0);
            lemma_nibbles(b1);
        }
        match b0 >> 4 {
            0 => {
                if b0 == 0x00 && b1 == 0xE0 {
                    self.vram = crate::cpu::blank_screen();
                } else if b0 == 0x00 && b1 == 0xEE {
                    if self.sp == 0 {
                        self.execution_state = ExecutionState::Paused;
                    } else {
                        self.sp -= 1;
                        self.pc = self.stack[self.sp as usize];
                    }
                }
            },
            1 => {
                self.pc = addr;
            },
            2 => {
                if self.sp == 16 {
                    self.execution_state = ExecutionState::Paused;
                } else {
                    self.stack[self.sp as usize] = self.pc;
                    self.sp += 1;
                    self.pc = addr;
                }
            },
            3 => {
                if self.reg[xi] == byte {
                    self.pc = self.pc.wrapping_add(2);
                }
            },
            4 => {
                if self.reg[xi] != byte {
                    self.pc = self.pc.wrapping_add(2);
                }
            },
            5 => {
                if self.reg[xi] == self.reg[yi] {
                    self.pc = self.pc.wrapping_add(2);
                }
            },
            6 => {
                self.reg[xi] = byte;
            },
            7 => {
                self.reg[xi] = self.reg[xi].wrapping_add(byte);
            },
            8 => {
                self.exec_alu(b0, b1);
            },
            9 => {
                if self.reg[xi] != self.reg[yi] {
                    self.pc = self.pc.wrapping_add(2);
                }
            },
            10 => {
                self.reg_i = addr;
            },
            11 => {
                self.pc = self.reg[0] as u16 + addr;
            },
            12 => {
                self.reg[xi] = rnd & byte;
            },
            13 => {
                self.exec_draw(b0, b1);
            },
            14 => {
                if byte == 0x9E {
                    if self.keyboard[(self.reg[xi] % 16) as usize] {
                        self.pc = self.pc.wrapping_add(2);
                    }
                } else if byte == 0xA1 {
                    if !self.keyboard[(self.reg[xi] % 16) as usize] {
                        self.pc = self.pc.wrapping_add(2);
                    }
                }
            },
            15 => {
                self.exec_fx(b0, b1);
            },
            _ => {
                proof {
                    assert(b0 >> 4u8 < 16) by (bit_vector);
                }
            },
        }
        proof {
            assert(self@ =~~= step(old(self)@, b0, b1, rnd));
        }
    }

    /// The register-to-register family (high nibble 8).
    fn exec_alu(&mut self, b0: u8, b1: u8)
        requires
            old(self)@.wf(),
            b0 / 16 == 8,
        ensures
            final(self)@ == step_alu(old(self)@, b0, b1),
            final(self)@.wf(),
    {
        proof {
            lemma_nibbles(b0);
            lemma_nibbles(b1);
        }
        let xi = (b0 & 0x0F) as usize;
        let yi = (b1 >> 4) as usize;
        let n = b1 & 0x0F;
        if n == 0 {
            self.reg[xi] = self.reg[yi];
        } else if n == 1 {
            self.reg[xi] = self.reg[xi] | self.reg[yi];
        } else if n == 2 {
            self.reg[xi] = self.reg[xi] & self.reg[yi];
        } else if n == 3 {
            self.reg[xi] = self.reg[xi] ^ self.reg[yi];
        } else if n == 4 {
            let wide = self.reg[xi] as u16 + self.reg[yi] as u16;
            self.reg[xi] = (wide % 256) as u8;
            self.reg[15] = if wide > 255 { 1 } else { 0 };
        } else if n == 5 {
            let va = self.reg[xi];
            let vb = self.reg[yi];
            self.reg[xi] = va.wrapping_sub(vb);
            self.reg[15] = if va >= vb { 1 } else { 0 };
        } else if n == 6 {
            let va = self.reg[xi];
            proof {
                assert(va & 1 == va % 2 && va >> 1u8 == va / 2) by (bit_vector);
            }
            let carry = va & 1;
            self.reg[xi] = va >> 1;
            self.reg[15] = carry;
        } else if n == 7 {
            let vb = self.reg[yi];
            self.reg[xi] = vb.wrapping_sub(vb);
            self.reg[15] = 1;
        } else if n == 14 {
            let amount = self.reg[yi];
            let res = self.reg[xi] << (amount % 8);
            self.reg[xi] = res;
            self.reg[15] = if amount >= 8 { 1 } else { 0 };
        }
        proof {
            assert(self@ =~~= step_alu(old(self)@, b0, b1));
        }
    }

    /// The sprite-draw opcode (high nibble D).
    fn exec_draw(&mut self, b0: u8, b1: u8)
        requires
            old(self)@.wf(),
            b0 / 16 == 13,
        ensures
            final(self)@ == step_draw(old(self)@, b0, b1),
            final(self)@.wf(),
    {
        proof {
            lemma_nibbles(b0);
            lemma_nibbles(b1);
        }
        let xi = (b0 & 0x0F) as usize;
        let yi = (b1 >> 4) as usize;
        let n = (b1 & 0x0F) as usize;
        let vx = self.reg[xi];
        let vy = self.reg[yi];
        let mut sprite: Vec<u8> = Vec::new();
        let mut i: usize = 0;
        while i < n
            invariant
                i <= n,
                n <= 15,
                self@ == old(self)@,
                self@.wf(),
                sprite@.len() == i,
                forall|k: int| 0 <= k < i ==> sprite@[k] == self@.ram[(self@.reg_i + k) % 4096],
            decreases n - i,
        {
            let idx = (self.reg_i as usize + i) % 4096;
            sprite.push(self.ram[idx]);
            i += 1;
        }
        proof {
            assert(sprite@ =~= Seq::new(
                (b1 % 16) as nat,
                |k: int| old(self)@.ram[(old(self)@.reg_i + k) % 4096],
            ));
        }
        let hit = self.draw_sprite(vx as usize, vy as usize, &sprite);
        self.reg[15] = if hit { 1 } else { 0 };
        proof {
            assert(self@ =~~= step_draw(old(self)@, b0, b1));
        }
    }

    /// The miscellaneous family (high nibble F).
    fn exec_fx(&mut self, b0: u8, b1: u8)
        requires
            old(self)@.wf(),
            b0 / 16 == 15,
        ensures
            final(self)@ == step_fx(old(self)@, b0, b1),
            final(self)@.wf(),
    {
        proof {
            lemma_nibbles(b0);
        }
        let xi = (b0 & 0x0F) as usize;
        if b1 == 0x07 {
            self.reg[xi] = self.tim_delay;
        } else if b1 == 0x0A {
            self.execution_state = ExecutionState::WaitingForKey(xi);
        } else if b1 == 0x15 {
            self.tim_delay = self.reg[xi];
        } else if b1 == 0x18 {
            self.tim_sound = self.reg[xi];
        } else if b1 == 0x1E {
            self.reg_i = self.reg_i.wrapping_add(self.reg[xi] as u16);
        } else if b1 == 0x29 {
            self.reg_i = self.reg[xi] as u16 * 5;
        } else if b1 == 0x33 {
            let v = self.reg[xi];
            let base = self.reg_i as usize;
            self.ram[base % 4096] = v / 100;
            self.ram[(base + 1) % 4096] = (v / 10) % 10;
            self.ram[(base + 2) % 4096] = v % 10;
        } else if b1 == 0x55 {
            let base = self.reg_i as usize;
            let mut i: usize = 0;
            while i <= xi
                invariant
                    xi < 16,
                    i <= xi + 1,
                    base == old(self)@.reg_i as usize,
                    self@ == (CpuModel {
                        ram: store_regs(old(self)@.ram, old(self)@.reg, base as int, i as int),
                        ..old(self)@
                    }),
                    self@.wf(),
                decreases xi + 1 - i,
            {
                self.ram[(base + i) % 4096] = self.reg[i];
                i += 1;
            }
        } else if b1 == 0x65 {
            let base = self.reg_i as usize;
            let mut i: usize = 0;
            while i <= xi
                invariant
                    xi < 16,
                    i <= xi + 1,
                    base == old(self)@.reg_i as usize,
                    self@.reg.len() == 16,
                    forall|k: int| 0 <= k < i ==> self@.reg[k] == old(self)@.ram[(base + k) % 4096],
                    forall|k: int| i <= k < 16 ==> self@.reg[k] == old(self)@.reg[k],
                    self@ == (CpuModel { reg: self@.reg, ..old(self)@ }),
                    self@.wf(),
                decreases xi + 1 - i,
            {
                self.reg[i] = self.ram[(base + i) % 4096];
                i += 1;
            }
            proof {
                assert(self@.reg =~= load_regs(
                    old(self)@.ram,
                    old(self)@.reg,
                    base as int,
                    x_of(b0),
                ));
            }
        }
        proof {
            assert(self@ =~~= step_fx(old(self)@, b0, b1));
        }
    }

    /// Fetch the word at the program counter and execute it.
    fn execute_next_instruction(&mut self)
        requires
            old(self)@.wf(),
            old(self)@.pc + 2 < 4096,
        ensures
            exists|r: u8| final(self)@ == #[trigger] fetch_step_spec(old(self)@, r),
            final(self)@.wf(),
    {
        let i = self.fetch_next_instruction();
        let ghost mid = self@;
        self.execute_instruction(i);
        proof {
            let r = choose|r: u8| self@ == #[trigger] step(mid, i@[0], i@[1], r);
            assert(self@ == fetch_step_spec(old(self)@, r));
        }
    }

    /// One timing tick: while `Running`, decrement the timers and execute
    /// exactly one instruction; in any other state do nothing at all.
    pub fn clock_cycle(&mut self)
        requires
            old(self)@.wf(),
            old(self)@.execution_state == ExecutionState::Running ==> old(self)@.pc + 2 < 4096,
        ensures
            old(self)@.execution_state == ExecutionState::Running ==> exists|r: u8|
                final(self)@ == #[trigger] cycle_spec(old(self)@, r),
            old(self)@.execution_state != ExecutionState::Running ==> final(self)@ == old(self)@,
            final(self)@.wf(),
    {
        if self.execution_state == ExecutionState::Running {
            self.tick_counters();
            let ghost t = self@;
            self.execute_next_instruction();
            proof {
                let r = choose|r: u8| self@ == #[trigger] fetch_step_spec(t, r);
                assert(self@ == cycle_spec(old(self)@, r));
            }
        }
    }
}

} // verus!
