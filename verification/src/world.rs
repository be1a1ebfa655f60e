//! The host-facing wrapper: one machine instance, stepped once per host
//! update, and a renderer that turns the monochrome screen into RGBA bytes.

use vstd::prelude::*;

use crate::cpu::execution::cycle_spec;
use crate::cpu::{initial_model, Cpu, ExecutionState};

verus! {

/// Owns one emulated machine.
pub struct World {
    pub cpu: Cpu,
}

impl World {
    /// A world holding a freshly constructed machine.
    pub fn new() -> (w: World)
        ensures
            w.cpu@ == initial_model(),
            w.cpu@.wf(),
    {
        World { cpu: Cpu::new() }
    }

    /// Advance the machine by one clock cycle.
    pub fn update(&mut self)
        requires
            old(self).cpu@.wf(),
            old(self).cpu@.execution_state == ExecutionState::Running ==> old(
                self,
            ).cpu@.pc + 2 < 4096,
        ensures
            old(self).cpu@.execution_state == ExecutionState::Running ==> exists|r: u8|
                final(self).cpu@ == #[trigger] cycle_spec(old(self).cpu@, r),
            old(self).cpu@.execution_state != ExecutionState::Running ==> final(self).cpu@ == old(
                self,
            ).cpu@,
            final(self).cpu@.wf(),
    {
        self.cpu.clock_cycle()
    }

    /// Render the screen into an RGBA frame buffer laid out 64 pixels per
    /// row: a lit pixel becomes four 0xFF bytes, an unlit one four 0x00
    /// bytes. Bytes past the last whole pixel are left alone.
    pub fn draw(&self, frame: &mut Vec<u8>)
        requires
            self.cpu@.wf(),
            old(frame)@.len() <= 8192,
        ensures
            final(frame)@.len() == old(frame)@.len(),
            forall|k: int|
                0 <= k < old(frame)@.len() / 4 * 4 ==> final(frame)@[k] == (if self.cpu@.vram[(k
                    / 4) % 64][(k / 4) / 64] {
                    255u8
                } else {
                    0u8
                }),
            forall|k: int|
                old(frame)@.len() / 4 * 4 <= k < old(frame)@.len() ==> final(frame)@[k] == old(
                    frame,
                )@[k],
    {
        let n = frame.len() / 4;
        let mut p: usize = 0;
        while p < n
            invariant
                self.cpu@.wf(),
                n == old(frame)@.len() / 4,
                frame@.len() == old(frame)@.len(),
                old(frame)@.len() <= 8192,
                p <= n,
                forall|k: int|
                    0 <= k < 4 * p ==> frame@[k] == (if self.cpu@.vram[(k / 4) % 64][(k / 4)
                        / 64] {
                        255u8
                    } else {
                        0u8
                    }),
                forall|k: int| 4 * p <= k < frame@.len() ==> frame@[k] == old(frame)@[k],
            decreases n - p,
        {
            let col = p % 64;
            let row = p / 64;
            proof {
                assert(n <= 2048);
                assert(col < 64 && row < 32);
                assert(self.cpu.vram@.len() == 64);
                assert(self.cpu@.vram[col as int] == self.cpu.vram@[col as int].deep_view());
                assert(self.cpu.vram@[col as int]@.len() == self.cpu.vram@[col as int].deep_view().len());
                assert(self.cpu.vram@[col as int]@.len() == 32);
            }
            let v: u8 = if self.cpu.vram[col][row] {
                255
            } else {
                0
            };
            frame[4 * p] = v;
            frame[4 * p + 1] = v;
            frame[4 * p + 2] = v;
            frame[4 * p + 3] = v;
            p += 1;
        }
    }
}

} // verus!
