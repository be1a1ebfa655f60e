//! The machine itself: memory, registers, stack, timers, display, keypad,
//! and the lifecycle state machine that gates instruction stepping.

use vstd::prelude::*;

pub mod execution;
pub mod graphics;
pub mod laws;

verus! {

/// Whether the machine is stepping, halted, or blocked on input.
///
/// `WaitingForKey(r)` records the register that the next pressed key's code
/// must be written into before stepping resumes.
#[derive(Debug, PartialEq, Eq, Structural)]
pub enum ExecutionState {
    Running,
    Paused,
    WaitingForKey(usize),
}

/// An input event injected by the host: a key (code 0..=15) went down or up.
#[derive(Debug)]
pub enum CpuEvent {
    KeyPressed(usize),
    KeyReleased(usize),
}

/// The abstract machine state: what every contract in this crate speaks of.
///
/// `ram` always has 4096 bytes, `reg` 16 bytes, `stack` 16 return addresses,
/// `keyboard` 16 held-key flags, and `vram` is 64 columns of 32 pixels
/// (indexed column first).
#[verifier::ext_equal]
pub ghost struct CpuModel {
    pub ram: Seq<u8>,
    pub reg: Seq<u8>,
    pub reg_i: u16,
    pub tim_delay: u8,
    pub tim_sound: u8,
    pub pc: u16,
    pub sp: u8,
    pub stack: Seq<u16>,
    pub keyboard: Seq<bool>,
    pub vram: Seq<Seq<bool>>,
    pub execution_state: ExecutionState,
}

impl CpuModel {
    /// Shape invariant: all the fixed-size stores have their size, the stack
    /// pointer respects the 16-entry depth limit, and a wait-for-key target
    /// is a valid register index.
    pub open spec fn wf(self) -> bool {
        &&& self.ram.len() == 4096
        &&& self.reg.len() == 16
        &&& self.stack.len() == 16
        &&& self.keyboard.len() == 16
        &&& self.vram.len() == 64
        &&& (forall|c: int| 0 <= c < 64 ==> self.vram[c].len() == 32)
        &&& self.sp <= 16
        &&& (self.execution_state matches ExecutionState::WaitingForKey(r) ==> r < 16)
    }
}

/// A 64x32 screen with every pixel off.
pub open spec fn blank_vram() -> Seq<Seq<bool>> {
    Seq::new(64, |c: int| Seq::new(32, |r: int| false))
}

/// The built-in font: 16 glyphs (hex digits 0..=F), 5 bytes per glyph,
/// resident at addresses 0..=79 from construction on.
pub open spec fn font_seq() -> Seq<u8> {
    seq![
        0xF0u8, 0x90, 0x90, 0x90, 0xF0,
        0x20, 0x60, 0x20, 0x20, 0x70,
        0xF0, 0x10, 0xF0, 0x80, 0xF0,
        0xF0, 0x10, 0xF0, 0x10, 0xF0,
        0x90, 0x90, 0xF0, 0x10, 0x10,
        0xF0, 0x80, 0xF0, 0x10, 0xF0,
        0xF0, 0x80, 0xF0, 0x90, 0xF0,
        0xF0, 0x10, 0x20, 0x40, 0x40,
        0xF0, 0x90, 0xF0, 0x90, 0xF0,
        0xF0, 0x90, 0xF0, 0x10, 0xF0,
        0xF0, 0x90, 0xF0, 0x90, 0x90,
        0xE0, 0x90, 0xE0, 0x90, 0xE0,
        0xF0, 0x80, 0x80, 0x80, 0xF0,
        0xF0, 0x80, 0x80, 0x80, 0xF0,
        0xF0, 0x80, 0xF0, 0x80, 0xF0,
        0xF0, 0x80, 0xF0, 0x80, 0x80,
    ]
}

/// The machine right after construction: font in low memory, everything else
/// zeroed, program counter at the program origin 0x200, and `Paused`.
pub open spec fn initial_model() -> CpuModel {
    CpuModel {
        ram: Seq::new(4096, |a: int| if 0 <= a < 80 { font_seq()[a] } else { 0u8 }),
        reg: Seq::new(16, |i: int| 0u8),
        reg_i: 0,
        tim_delay: 0,
        tim_sound: 0,
        pc: 0x200,
        sp: 0,
        stack: Seq::new(16, |i: int| 0u16),
        keyboard: Seq::new(16, |i: int| false),
        vram: blank_vram(),
        execution_state: ExecutionState::Paused,
    }
}

/// The machine after a program image `rom` is loaded: `rom` copied in at
/// 0x200, registers, stack, timers and screen cleared, counter back at
/// 0x200, state `Paused`. Memory outside the image (the font included) and
/// the held-key flags keep their previous contents.
pub open spec fn load_spec(s: CpuModel, rom: Seq<u8>) -> CpuModel {
    CpuModel {
        ram: Seq::new(
            4096,
            |a: int| if 0x200 <= a < 0x200 + rom.len() { rom[a - 0x200] } else { s.ram[a] },
        ),
        reg: Seq::new(16, |i: int| 0u8),
        reg_i: 0,
        tim_delay: 0,
        tim_sound: 0,
        pc: 0x200,
        sp: 0,
        stack: Seq::new(16, |i: int| 0u16),
        keyboard: s.keyboard,
        vram: blank_vram(),
        execution_state: ExecutionState::Paused,
    }
}

/// A pause request: takes effect only while `Running`.
pub open spec fn pause_spec(s: CpuModel) -> CpuModel {
    if s.execution_state == ExecutionState::Running {
        CpuModel { execution_state: ExecutionState::Paused, ..s }
    } else {
        s
    }
}

/// A resume request: takes effect only while `Paused`.
pub open spec fn resume_spec(s: CpuModel) -> CpuModel {
    if s.execution_state == ExecutionState::Paused {
        CpuModel { execution_state: ExecutionState::Running, ..s }
    } else {
        s
    }
}

/// One timing tick of the two countdown timers: each drops by one while
/// non-zero and floors at zero.
pub open spec fn tick_spec(s: CpuModel) -> CpuModel {
    CpuModel {
        tim_delay: if s.tim_delay > 0 { (s.tim_delay - 1) as u8 } else { 0u8 },
        tim_sound: if s.tim_sound > 0 { (s.tim_sound - 1) as u8 } else { 0u8 },
        ..s
    }
}

/// A key event while not blocked merely updates the held-key flags; a
/// key-down while `WaitingForKey(r)` additionally writes the key code into
/// register `r` and resumes stepping. Codes outside 0..=15 are ignored.
pub open spec fn event_spec(s: CpuModel, e: CpuEvent) -> CpuModel {
    match e {
        CpuEvent::KeyPressed(k) => if k < 16 {
            let held = CpuModel { keyboard: s.keyboard.update(k as int, true), ..s };
            match s.execution_state {
                ExecutionState::WaitingForKey(r) => CpuModel {
                    reg: held.reg.update(r as int, k as u8),
                    execution_state: ExecutionState::Running,
                    ..held
                },
                _ => held,
            }
        } else {
            s
        },
        CpuEvent::KeyReleased(k) => if k < 16 {
            CpuModel { keyboard: s.keyboard.update(k as int, false), ..s }
        } else {
            s
        },
    }
}

/// One emulated machine: the sole owner of its memory, registers, stack,
/// timers, screen and keypad. Fields are public so a host's control surface
/// can inspect and adjust them while the machine is paused.
#[derive(Debug)]
pub struct Cpu {
    pub ram: Vec<u8>,
    pub reg: Vec<u8>,
    pub reg_i: u16,
    pub tim_delay: u8,
    pub tim_sound: u8,
    pub pc: u16,
    pub sp: u8,
    pub stack: Vec<u16>,
    pub keyboard: Vec<bool>,
    pub vram: Vec<Vec<bool>>,
    pub execution_state: ExecutionState,
}

impl View for Cpu {
    type V = CpuModel;

    open spec fn view(&self) -> CpuModel {
        CpuModel {
            ram: self.ram@,
            reg: self.reg@,
            reg_i: self.reg_i,
            tim_delay: self.tim_delay,
            tim_sound: self.tim_sound,
            pc: self.pc,
            sp: self.sp,
            stack: self.stack@,
            keyboard: self.keyboard@,
            vram: self.vram.deep_view(),
            execution_state: self.execution_state,
        }
    }
}

/// The font bytes as a table, for loading into low memory.
fn font_table() -> (v: Vec<u8>)
    ensures
        v@ == font_seq(),
{
    let mut v: Vec<u8> = Vec::new();
    v.push(0xF0); v.push(0x90); v.push(0x90); v.push(0x90); v.push(0xF0);
    v.push(0x20); v.push(0x60); v.push(0x20); v.push(0x20); v.push(0x70);
    v.push(0xF0); v.push(0x10); v.push(0xF0); v.push(0x80); v.push(0xF0);
    v.push(0xF0); v.push(0x10); v.push(0xF0); v.push(0x10); v.push(0xF0);
    v.push(0x90); v.push(0x90); v.push(0xF0); v.push(0x10); v.push(0x10);
    v.push(0xF0); v.push(0x80); v.push(0xF0); v.push(0x10); v.push(0xF0);
    v.push(0xF0); v.push(0x80); v.push(0xF0); v.push(0x90); v.push(0xF0);
    v.push(0xF0); v.push(0x10); v.push(0x20); v.push(0x40); v.push(0x40);
    v.push(0xF0); v.push(0x90); v.push(0xF0); v.push(0x90); v.push(0xF0);
    v.push(0xF0); v.push(0x90); v.push(0xF0); v.push(0x10); v.push(0xF0);
    v.push(0xF0); v.push(0x90); v.push(0xF0); v.push(0x90); v.push(0x90);
    v.push(0xE0); v.push(0x90); v.push(0xE0); v.push(0x90); v.push(0xE0);
    v.push(0xF0); v.push(0x80); v.push(0x80); v.push(0x80); v.push(0xF0);
    v.push(0xF0); v.push(0x80); v.push(0x80); v.push(0x80); v.push(0xF0);
    v.push(0xF0); v.push(0x80); v.push(0xF0); v.push(0x80); v.push(0xF0);
    v.push(0xF0); v.push(0x80); v.push(0xF0); v.push(0x80); v.push(0x80);
    proof {
        assert(v@ =~= font_seq());
    }
    v
}

/// `n` zero bytes.
fn zeroed_bytes(n: usize) -> (v: Vec<u8>)
    ensures
        v@ =~= Seq::new(n as nat, |i: int| 0u8),
{
    let mut v: Vec<u8> = Vec::new();
    let mut i: usize = 0;
    while i < n
        invariant
            i <= n,
            v@.len() == i,
            forall|k: int| 0 <= k < i ==> v@[k] == 0u8,
        decreases n - i,
    {
        v.push(0);
        i += 1;
    }
    v
}

/// `n` zero words.
fn zeroed_words(n: usize) -> (v: Vec<u16>)
    ensures
        v@ =~= Seq::new(n as nat, |i: int| 0u16),
{
    let mut v: Vec<u16> = Vec::new();
    let mut i: usize = 0;
    while i < n
        invariant
            i <= n,
            v@.len() == i,
            forall|k: int| 0 <= k < i ==> v@[k] == 0u16,
        decreases n - i,
    {
        v.push(0);
        i += 1;
    }
    v
}

/// `n` cleared flags.
fn cleared_flags(n: usize) -> (v: Vec<bool>)
    ensures
        v@ =~= Seq::new(n as nat, |i: int| false),
{
    let mut v: Vec<bool> = Vec::new();
    let mut i: usize = 0;
    while i < n
        invariant
            i <= n,
            v@.len() == i,
            forall|k: int| 0 <= k < i ==> v@[k] == false,
        decreases n - i,
    {
        v.push(false);
        i += 1;
    }
    v
}

/// A screen of 64 columns, 32 pixels each, all off.
fn blank_screen() -> (v: Vec<Vec<bool>>)
    ensures
        v.deep_view() =~~= blank_vram(),
{
    let mut v: Vec<Vec<bool>> = Vec::new();
    let mut c: usize = 0;
    while c < 64
        invariant
            c <= 64,
            v@.len() == c,
            forall|k: int| 0 <= k < c ==> #[trigger] v@[k]@ =~= Seq::new(32, |r: int| false),
        decreases 64 - c,
    {
        v.push(cleared_flags(32));
        c += 1;
    }
    proof {
        assert(v.deep_view() =~~= blank_vram());
    }
    v
}

impl Cpu {
    /// Build a machine in its initial state: font loaded at address 0,
    /// everything else zeroed, counter at 0x200, `Paused`.
    pub fn new() -> (cpu: Cpu)
        ensures
            cpu@ == initial_model(),
            cpu@.wf(),
    {
        let mut ram = zeroed_bytes(4096);
        let font = font_table();
        let mut i: usize = 0;
        while i < 80
            invariant
                i <= 80,
                font@ == font_seq(),
                ram@.len() == 4096,
                forall|k: int| 0 <= k < i ==> ram@[k] == font_seq()[k],
                forall|k: int| i <= k < 4096 ==> ram@[k] == 0u8,
            decreases 80 - i,
        {
            ram[i] = font[i];
            i += 1;
        }
        let cpu = Cpu {
            ram,
            reg: zeroed_bytes(16),
            reg_i: 0,
            tim_delay: 0,
            tim_sound: 0,
            pc: 0x200,
            sp: 0,
            stack: zeroed_words(16),
            keyboard: cleared_flags(16),
            vram: blank_screen(),
            execution_state: ExecutionState::Paused,
        };
        proof {
            assert(cpu@ =~~= initial_model());
        }
        cpu
    }

    /// Load a program image: copy it in at 0x200 and reset the machine for a
    /// fresh run (see [`load_spec`]). The image must fit in the 3584 bytes of
    /// program memory.
    pub fn load_rom(&mut self, rom: &[u8])
        requires
            old(self)@.wf(),
            rom@.len() <= 3584,
        ensures
            final(self)@ == load_spec(old(self)@, rom@),
            final(self)@.wf(),
    {
        let n = rom.len();
        let mut i: usize = 0;
        while i < n
            invariant
                n == rom@.len() <= 3584,
                i <= n,
                self.ram@.len() == 4096,
                forall|k: int| 0 <= k < i ==> self.ram@[0x200 + k] == rom@[k],
                forall|a: int|
                    0 <= a < 4096 && !(0x200 <= a < 0x200 + i) ==> self.ram@[a] == old(self)@.ram[a],
                self.reg == old(self).reg,
                self.reg_i == old(self).reg_i,
                self.tim_delay == old(self).tim_delay,
                self.tim_sound == old(self).tim_sound,
                self.pc == old(self).pc,
                self.sp == old(self).sp,
                self.stack == old(self).stack,
                self.keyboard == old(self).keyboard,
                self.vram == old(self).vram,
                self.execution_state == old(self).execution_state,
            decreases n - i,
        {
            self.ram[0x200 + i] = rom[i];
            i += 1;
        }
        self.reg = zeroed_bytes(16);
        self.reg_i = 0;
        self.pc = 0x200;
        self.stack = zeroed_words(16);
        self.sp = 0;
        self.execution_state = ExecutionState::Paused;
        self.tim_delay = 0;
        self.tim_sound = 0;
        self.vram = blank_screen();
        proof {
            assert(self@ =~~= load_spec(old(self)@, rom@));
        }
    }

    /// Halt stepping; only effective while `Running`.
    pub fn pause(&mut self)
        ensures
            final(self)@ == pause_spec(old(self)@),
    {
        if self.execution_state == ExecutionState::Running {
            self.execution_state = ExecutionState::Paused
        }
    }

    /// Resume stepping; only effective while `Paused`.
    pub fn resume(&mut self)
        ensures
            final(self)@ == resume_spec(old(self)@),
    {
        if self.execution_state == ExecutionState::Paused {
            self.execution_state = ExecutionState::Running
        }
    }

    /// Inject a key-down or key-up event (see [`event_spec`]): held-key
    /// flags are kept current, and a key-down delivers the awaited key while
    /// in `WaitingForKey`.
    pub fn handle_event(&mut self, e: CpuEvent)
        requires
            old(self)@.wf(),
        ensures
            final(self)@ == event_spec(old(self)@, e),
            final(self)@.wf(),
    {
        match e {
            CpuEvent::KeyPressed(k) => {
                if k < 16 {
                    self.keyboard[k] = true;
                    match self.execution_state {
                        ExecutionState::WaitingForKey(r) => {
                            self.reg[r] = k as u8;
                            self.execution_state = ExecutionState::Running;
                        },
                        _ => {},
                    }
                }
            },
            CpuEvent::KeyReleased(k) => {
                if k < 16 {
                    self.keyboard[k] = false;
                }
            },
        }
        proof {
            assert(self@ =~~= event_spec(old(self)@, e));
        }
    }

    /// One timing tick of the countdown timers.
    fn tick_counters(&mut self)
        ensures
            final(self)@ == tick_spec(old(self)@),
    {
        if self.tim_delay > 0 {
            self.tim_delay -= 1;
        }
        if self.tim_sound > 0 {
            self.tim_sound -= 1;
        }
    }
}

} // verus!
