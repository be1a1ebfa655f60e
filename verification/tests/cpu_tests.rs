use chip8::cpu::graphics::Decon;
use chip8::cpu::{Cpu, ExecutionState};

#[test]
fn test_cls() {
    let mut cpu = Cpu::new();
    for c in 0..64 {
        for r in 0..32 {
            cpu.vram[c][r] = true;
        }
    }
    cpu.execute_instruction([0x00, 0xE0]);
    let mut or_result = false;
    for c in 0..64 {
        for r in 0..32 {
            or_result = or_result | cpu.vram[c][r];
        }
    }
    assert_eq!(or_result, false, "Screen should be black");
}

#[test]
fn test_ret() {
    let mut cpu = Cpu::new();
    cpu.stack[0] = 2048;
    cpu.sp = 1;
    cpu.execute_instruction([0x00, 0xEE]);
    assert_eq!(cpu.sp, 0, "Stack pointer should decrease by 1");
    assert_eq!(
        cpu.pc, 2048,
        "Program counter should point at the return address"
    );
}

#[test]
fn test_ret_graceful() {
    let mut cpu = Cpu::new();
    cpu.execute_instruction([0x00, 0xEE]);
    assert_eq!(
        cpu.execution_state,
        ExecutionState::Paused,
        "This incorrect command should stop the execution."
    )
}

#[test]
fn test_jump() {
    let mut cpu = Cpu::new();
    cpu.execute_instruction([0x12, 0x34]);
    assert_eq!(
        cpu.pc, 0x234,
        "Program counter should point to the target address"
    );
}

#[test]
fn test_call() {
    let mut cpu = Cpu::new();
    cpu.execute_instruction([0x23, 0x45]);
    assert_eq!(cpu.sp, 1, "Stack pointer should go up by 1");
    assert_eq!(
        cpu.stack[0], 0x200,
        "Return address should be pushed onto a stack"
    );
    assert_eq!(
        cpu.pc, 0x345,
        "Program counter should be pointing to the target address"
    );
}

#[test]
fn test_se() {
    let mut cpu = Cpu::new();
    cpu.reg[4] = 0x56;
    cpu.execute_instruction([0x34, 0x56]);
    assert_eq!(
        cpu.pc, 0x202,
        "Program counter should skip the next instruction if V4 == 0x56"
    );
    let mut cpu = Cpu::new();
    cpu.execute_instruction([0x34, 0x56]);
    assert_eq!(
        cpu.pc, 0x200,
        "Program counter should not skip the next instruction if V4 != 0x56"
    );
}

#[test]
fn test_sne() {
    let mut cpu = Cpu::new();
    cpu.execute_instruction([0x41, 0x23]);
    assert_eq!(
        cpu.pc, 0x202,
        "Program counter should skip the next instruction if V1 != 0x23"
    );
    let mut cpu = Cpu::new();
    cpu.reg[1] = 0x23;
    cpu.execute_instruction([0x41, 0x23]);
    assert_eq!(
        cpu.pc, 0x200,
        "Program counter should not skip the next instruction if V1 == 0x23"
    );
}

#[test]
fn test_se_reg() {
    let mut cpu = Cpu::new();
    cpu.execute_instruction([0x50, 0x10]);
    assert_eq!(
        cpu.pc, 0x202,
        "Program counter should skip the next instrution is V0 == V1"
    );
    let mut cpu = Cpu::new();
    cpu.reg[0] = 1;
    cpu.execute_instruction([0x50, 0x10]);
    assert_eq!(
        cpu.pc, 0x200,
        "Program counter should not skip the next instrution is V0 != V1"
    );
}

#[test]
fn test_ld() {
    let mut cpu = Cpu::new();
    cpu.execute_instruction([0x60, 0x12]);
    assert_eq!(cpu.reg[0], 0x12, "0x12 should be loaded into V0");
}

#[test]
fn test_add_byte() {
    let mut cpu = Cpu::new();
    cpu.reg[0] = 1;
    cpu.execute_instruction([0x70, 0x02]);
    assert_eq!(cpu.reg[0], 3, "V0 should 1+2=3");
    cpu.reg[0] = 255;
    cpu.execute_instruction([0x70, 0x01]);
    assert_eq!(cpu.reg[0], 0, "Addition should be overflowing")
}

#[test]
fn test_parse() {
    let result = Cpu::parse_instruction([0x12, 0x34]);
    assert_eq!(result, (0x2, 0x3, 0x34, 0x234))
}

#[test]
fn test_nopanic() {
    let mut cpu = Cpu::new();
    for i in 0..=255u8 {
        for j in 0..=255u8 {
            cpu.execute_instruction([i, j]);
        }
    }
}

#[test]
fn test_decon() {
    let a: u8 = 0b10101010;
    let mut d = Decon::new(a);
    let mut col: Vec<bool> = Vec::new();
    while let Some(bit) = d.next() {
        col.push(bit);
    }
    assert_eq!(col, vec![true, false, true, false, true, false, true, false]);
}
