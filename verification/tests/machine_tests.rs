use chip8::cpu::{Cpu, CpuEvent, ExecutionState};
use chip8::world::World;

#[test]
fn test_new_loads_font() {
    let cpu = Cpu::new();
    assert_eq!(cpu.ram[0], 0xF0);
    assert_eq!(cpu.ram[5], 0x20);
    assert_eq!(cpu.ram[79], 0x80);
    assert_eq!(cpu.ram[80], 0);
    assert_eq!(cpu.pc, 0x200);
    assert_eq!(cpu.sp, 0);
    assert_eq!(cpu.execution_state, ExecutionState::Paused);
}

#[test]
fn test_load_rom_roundtrip() {
    let mut cpu = Cpu::new();
    let rom = [0x12u8, 0x34, 0x56, 0x78, 0x9A];
    cpu.load_rom(&rom);
    for (i, &b) in rom.iter().enumerate() {
        assert_eq!(cpu.ram[0x200 + i], b);
    }
    assert_eq!(cpu.ram[0x200 + rom.len()], 0);
    assert_eq!(cpu.ram[0], 0xF0, "font survives a program load");
    assert_eq!(cpu.pc, 0x200);
    assert_eq!(cpu.execution_state, ExecutionState::Paused);
}

#[test]
fn test_load_rom_resets_machine() {
    let mut cpu = Cpu::new();
    cpu.reg[3] = 9;
    cpu.reg_i = 77;
    cpu.sp = 2;
    cpu.stack[0] = 5;
    cpu.tim_delay = 8;
    cpu.vram[0][0] = true;
    cpu.execution_state = ExecutionState::Running;
    cpu.load_rom(&[0x00]);
    assert_eq!(cpu.reg[3], 0);
    assert_eq!(cpu.reg_i, 0);
    assert_eq!(cpu.sp, 0);
    assert_eq!(cpu.stack[0], 0);
    assert_eq!(cpu.tim_delay, 0);
    assert_eq!(cpu.vram[0][0], false);
    assert_eq!(cpu.execution_state, ExecutionState::Paused);
}

#[test]
fn test_load_sets_register_and_pc_via_cycle() {
    let mut cpu = Cpu::new();
    cpu.load_rom(&[0x65, 0x77]);
    cpu.resume();
    assert_eq!(cpu.execution_state, ExecutionState::Running);
    cpu.clock_cycle();
    assert_eq!(cpu.reg[5], 0x77);
    assert_eq!(cpu.pc, 0x202, "one fetch advances the counter by exactly 2");
}

#[test]
fn test_add_twice_wraps() {
    let mut cpu = Cpu::new();
    cpu.reg[2] = 0;
    cpu.execute_instruction([0x72, 200]);
    cpu.execute_instruction([0x72, 100]);
    assert_eq!(cpu.reg[2], 44, "200 + 100 wraps to 44 modulo 256");
    assert_eq!(cpu.execution_state, ExecutionState::Paused);
}

#[test]
fn test_call_then_ret_round_trip() {
    let mut cpu = Cpu::new();
    cpu.execute_instruction([0x2A, 0xBC]);
    assert_eq!(cpu.pc, 0xABC);
    cpu.execute_instruction([0x00, 0xEE]);
    assert_eq!(cpu.pc, 0x200, "return restores the address the call pushed");
    assert_eq!(cpu.sp, 0);
}

#[test]
fn test_call_overflow_pauses() {
    let mut cpu = Cpu::new();
    cpu.sp = 16;
    cpu.execute_instruction([0x23, 0x45]);
    assert_eq!(cpu.sp, 16, "nothing is pushed on a full stack");
    assert_eq!(cpu.pc, 0x200, "the program counter is untouched");
    assert_eq!(cpu.execution_state, ExecutionState::Paused);
}

#[test]
fn test_sne_reg() {
    let mut cpu = Cpu::new();
    cpu.reg[0] = 1;
    cpu.execute_instruction([0x90, 0x10]);
    assert_eq!(cpu.pc, 0x202);
    let mut cpu = Cpu::new();
    cpu.execute_instruction([0x90, 0x10]);
    assert_eq!(cpu.pc, 0x200);
}

#[test]
fn test_alu_moves_and_bitwise() {
    let mut cpu = Cpu::new();
    cpu.reg[0] = 0b1100;
    cpu.reg[1] = 0b1010;
    cpu.execute_instruction([0x82, 0x00]);
    assert_eq!(cpu.reg[2], 0b1100, "8xy0 copies");
    cpu.execute_instruction([0x80, 0x11]);
    assert_eq!(cpu.reg[0], 0b1110, "8xy1 is OR");
    cpu.reg[0] = 0b1100;
    cpu.execute_instruction([0x80, 0x12]);
    assert_eq!(cpu.reg[0], 0b1000, "8xy2 is AND");
    cpu.reg[0] = 0b1100;
    cpu.execute_instruction([0x80, 0x13]);
    assert_eq!(cpu.reg[0], 0b0110, "8xy3 is XOR");
}

#[test]
fn test_alu_add_carry() {
    let mut cpu = Cpu::new();
    cpu.reg[0] = 200;
    cpu.reg[1] = 100;
    cpu.execute_instruction([0x80, 0x14]);
    assert_eq!(cpu.reg[0], 44);
    assert_eq!(cpu.reg[15], 1, "carry set on overflow");
    cpu.reg[0] = 1;
    cpu.reg[1] = 2;
    cpu.execute_instruction([0x80, 0x14]);
    assert_eq!(cpu.reg[0], 3);
    assert_eq!(cpu.reg[15], 0, "carry clear without overflow");
}

#[test]
fn test_alu_sub_borrow() {
    let mut cpu = Cpu::new();
    cpu.reg[0] = 5;
    cpu.reg[1] = 3;
    cpu.execute_instruction([0x80, 0x15]);
    assert_eq!(cpu.reg[0], 2);
    assert_eq!(cpu.reg[15], 1, "flag 1 when no borrow");
    cpu.reg[0] = 3;
    cpu.reg[1] = 5;
    cpu.execute_instruction([0x80, 0x15]);
    assert_eq!(cpu.reg[0], 254);
    assert_eq!(cpu.reg[15], 0, "flag 0 when a borrow occurred");
}

#[test]
fn test_alu_shr() {
    let mut cpu = Cpu::new();
    cpu.reg[0] = 0b101;
    cpu.execute_instruction([0x80, 0x16]);
    assert_eq!(cpu.reg[0], 0b10);
    assert_eq!(cpu.reg[15], 1, "low bit goes to the flag");
}

#[test]
fn test_alu_subn_quirk() {
    let mut cpu = Cpu::new();
    cpu.reg[0] = 9;
    cpu.reg[1] = 4;
    cpu.execute_instruction([0x80, 0x17]);
    assert_eq!(cpu.reg[0], 0, "the reversed subtract always stores 0");
    assert_eq!(cpu.reg[15], 1, "and always reports no borrow");
}

#[test]
fn test_alu_shl_by_register() {
    let mut cpu = Cpu::new();
    cpu.reg[0] = 0b1;
    cpu.reg[1] = 3;
    cpu.execute_instruction([0x80, 0x1E]);
    assert_eq!(cpu.reg[0], 0b1000, "shift amount comes from the second register");
    assert_eq!(cpu.reg[15], 0);
    cpu.reg[0] = 1;
    cpu.reg[1] = 9;
    cpu.execute_instruction([0x80, 0x1E]);
    assert_eq!(cpu.reg[0], 2, "an amount of 9 shifts by 9 mod 8");
    assert_eq!(cpu.reg[15], 1, "the flag reports an amount of 8 or more");
}

#[test]
fn test_ld_i_and_jp_v0() {
    let mut cpu = Cpu::new();
    cpu.execute_instruction([0xA1, 0x23]);
    assert_eq!(cpu.reg_i, 0x123);
    cpu.reg[0] = 4;
    cpu.execute_instruction([0xB1, 0x00]);
    assert_eq!(cpu.pc, 0x104);
}

#[test]
fn test_rnd_masks_random_byte() {
    let mut cpu = Cpu::new();
    cpu.execute_instruction_with([0xC3, 0x0F], 0xAB);
    assert_eq!(cpu.reg[3], 0x0B, "the drawn byte is masked with kk");
    cpu.execute_instruction_with([0xC3, 0x00], 0xFF);
    assert_eq!(cpu.reg[3], 0, "a zero mask always gives zero");
}

#[test]
fn test_draw_sprite_xor_and_collision() {
    let mut cpu = Cpu::new();
    let hit = cpu.draw_sprite(0, 0, &[0xFF]);
    assert_eq!(hit, false, "no collision on a blank region");
    for k in 0..8 {
        assert_eq!(cpu.vram[k][0], true);
    }
    let hit = cpu.draw_sprite(0, 0, &[0xFF]);
    assert_eq!(hit, true, "drawing over lit pixels collides");
    for k in 0..8 {
        assert_eq!(cpu.vram[k][0], false, "XOR turned the region off again");
    }
}

#[test]
fn test_draw_sprite_wraps_column() {
    let mut cpu = Cpu::new();
    cpu.draw_sprite(63, 0, &[0b11000000]);
    assert_eq!(cpu.vram[63][0], true);
    assert_eq!(cpu.vram[0][0], true, "the second pixel wraps to column 0");
    assert_eq!(cpu.vram[1][0], false);
}

#[test]
fn test_draw_sprite_wraps_row() {
    let mut cpu = Cpu::new();
    cpu.draw_sprite(0, 31, &[0x80, 0x80]);
    assert_eq!(cpu.vram[0][31], true);
    assert_eq!(cpu.vram[0][0], true, "the second row wraps to row 0");
}

#[test]
fn test_draw_opcode_uses_index_register() {
    let mut cpu = Cpu::new();
    cpu.execute_instruction([0xA0, 0x00]);
    cpu.execute_instruction([0xD0, 0x05]);
    assert_eq!(cpu.vram[0][0], true, "glyph 0 starts with 0xF0");
    assert_eq!(cpu.vram[3][0], true);
    assert_eq!(cpu.vram[4][0], false);
    assert_eq!(cpu.vram[0][1], true);
    assert_eq!(cpu.vram[1][1], false, "0x90 has its middle bits off");
    assert_eq!(cpu.reg[15], 0, "no collision on a blank screen");
}

#[test]
fn test_font_glyph_address() {
    let mut cpu = Cpu::new();
    cpu.reg[4] = 0xA;
    cpu.execute_instruction([0xF4, 0x29]);
    assert_eq!(cpu.reg_i, 50, "glyphs are 5 bytes apart");
}

#[test]
fn test_bcd_store() {
    let mut cpu = Cpu::new();
    cpu.reg[0] = 234;
    cpu.reg_i = 0x300;
    cpu.execute_instruction([0xF0, 0x33]);
    assert_eq!(cpu.ram[0x300], 2);
    assert_eq!(cpu.ram[0x301], 3);
    assert_eq!(cpu.ram[0x302], 4);
}

#[test]
fn test_store_and_load_registers() {
    let mut cpu = Cpu::new();
    cpu.reg[0] = 10;
    cpu.reg[1] = 20;
    cpu.reg[2] = 30;
    cpu.reg[3] = 99;
    cpu.reg_i = 0x400;
    cpu.execute_instruction([0xF2, 0x55]);
    assert_eq!(cpu.ram[0x400], 10);
    assert_eq!(cpu.ram[0x401], 20);
    assert_eq!(cpu.ram[0x402], 30);
    assert_eq!(cpu.ram[0x403], 0, "only registers up to x are stored");
    cpu.reg[0] = 0;
    cpu.reg[1] = 0;
    cpu.reg[2] = 0;
    cpu.execute_instruction([0xF2, 0x65]);
    assert_eq!(cpu.reg[0], 10);
    assert_eq!(cpu.reg[1], 20);
    assert_eq!(cpu.reg[2], 30);
    assert_eq!(cpu.reg[3], 99, "registers past x are untouched");
}

#[test]
fn test_timer_opcodes() {
    let mut cpu = Cpu::new();
    cpu.reg[0] = 42;
    cpu.execute_instruction([0xF0, 0x15]);
    assert_eq!(cpu.tim_delay, 42);
    cpu.execute_instruction([0xF0, 0x18]);
    assert_eq!(cpu.tim_sound, 42);
    cpu.reg[1] = 0;
    cpu.execute_instruction([0xF1, 0x07]);
    assert_eq!(cpu.reg[1], 42, "the delay timer is read back");
}

#[test]
fn test_add_to_index() {
    let mut cpu = Cpu::new();
    cpu.reg_i = 0x100;
    cpu.reg[0] = 0x20;
    cpu.execute_instruction([0xF0, 0x1E]);
    assert_eq!(cpu.reg_i, 0x120);
}

#[test]
fn test_clock_cycle_ticks_timers() {
    let mut cpu = Cpu::new();
    cpu.tim_delay = 5;
    cpu.tim_sound = 1;
    cpu.resume();
    cpu.clock_cycle();
    assert_eq!(cpu.tim_delay, 4);
    assert_eq!(cpu.tim_sound, 0);
    assert_eq!(cpu.pc, 0x202, "a zero word executes as a no-op");
    cpu.pause();
    cpu.tim_sound = 0;
    cpu.clock_cycle();
    assert_eq!(cpu.tim_delay, 4, "timers only tick while running");
    assert_eq!(cpu.tim_sound, 0, "a zero timer stays at zero");
}

#[test]
fn test_pause_resume() {
    let mut cpu = Cpu::new();
    assert_eq!(cpu.execution_state, ExecutionState::Paused);
    cpu.resume();
    assert_eq!(cpu.execution_state, ExecutionState::Running);
    cpu.resume();
    assert_eq!(cpu.execution_state, ExecutionState::Running);
    cpu.pause();
    assert_eq!(cpu.execution_state, ExecutionState::Paused);
    cpu.pause();
    assert_eq!(cpu.execution_state, ExecutionState::Paused);
}

#[test]
fn test_wait_for_key() {
    let mut cpu = Cpu::new();
    cpu.execution_state = ExecutionState::Running;
    cpu.execute_instruction([0xF2, 0x0A]);
    assert_eq!(cpu.execution_state, ExecutionState::WaitingForKey(2));
    cpu.clock_cycle();
    assert_eq!(cpu.pc, 0x200, "no stepping while waiting for a key");
    cpu.handle_event(CpuEvent::KeyPressed(7));
    assert_eq!(cpu.reg[2], 7, "the key code lands in the waited-on register");
    assert_eq!(cpu.execution_state, ExecutionState::Running);
    assert_eq!(cpu.keyboard[7], true);
    cpu.handle_event(CpuEvent::KeyReleased(7));
    assert_eq!(cpu.keyboard[7], false);
}

#[test]
fn test_key_events_update_flags() {
    let mut cpu = Cpu::new();
    cpu.handle_event(CpuEvent::KeyPressed(4));
    assert_eq!(cpu.keyboard[4], true);
    assert_eq!(
        cpu.execution_state,
        ExecutionState::Paused,
        "a key while not waiting only updates the flags"
    );
    cpu.handle_event(CpuEvent::KeyPressed(99));
    for k in 0..16 {
        assert_eq!(cpu.keyboard[k], k == 4, "out-of-range codes are ignored");
    }
}

#[test]
fn test_skip_on_key() {
    let mut cpu = Cpu::new();
    cpu.handle_event(CpuEvent::KeyPressed(4));
    cpu.reg[0] = 4;
    cpu.execute_instruction([0xE0, 0x9E]);
    assert_eq!(cpu.pc, 0x202, "skip when the key is held");
    cpu.execute_instruction([0xE0, 0xA1]);
    assert_eq!(cpu.pc, 0x202, "no skip when the key is held");
    cpu.handle_event(CpuEvent::KeyReleased(4));
    cpu.execute_instruction([0xE0, 0x9E]);
    assert_eq!(cpu.pc, 0x202, "no skip when the key is up");
    cpu.execute_instruction([0xE0, 0xA1]);
    assert_eq!(cpu.pc, 0x204, "skip when the key is up");
}

#[test]
fn test_unsupported_encodings_are_noops() {
    let mut cpu = Cpu::new();
    cpu.execute_instruction([0x01, 0x23]);
    cpu.execute_instruction([0x85, 0x68]);
    cpu.execute_instruction([0xE0, 0x00]);
    cpu.execute_instruction([0xF0, 0x99]);
    assert_eq!(cpu.pc, 0x200);
    assert_eq!(cpu.execution_state, ExecutionState::Paused);
}

#[test]
fn test_world_draw_frame() {
    let mut w = World::new();
    w.cpu.vram[1][0] = true;
    let mut frame = vec![0x11u8; 8192];
    w.draw(&mut frame);
    for j in 0..4 {
        assert_eq!(frame[j], 0, "pixel (0,0) is off");
        assert_eq!(frame[4 + j], 255, "pixel (1,0) is lit");
    }
    assert_eq!(frame[8], 0);
}

#[test]
fn test_world_update_steps_machine() {
    let mut w = World::new();
    w.cpu.load_rom(&[0x60, 0x55]);
    w.cpu.resume();
    w.update();
    assert_eq!(w.cpu.reg[0], 0x55);
    assert_eq!(w.cpu.pc, 0x202);
}
