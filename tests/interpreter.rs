use gameboy_emu::{decode, EmuError, Flow, Instruction, CPU};

fn cpu_with(program: &[u8]) -> CPU {
    let mut cpu = CPU::new();
    cpu.load(0, program);
    cpu
}

#[test]
fn zero_program_halts_without_touching_registers() {
    let mut cpu = CPU::new();
    cpu.registers[3] = 9;
    cpu.registers[15] = 1;
    let before = cpu.registers;
    assert_eq!(cpu.run(), Ok(()));
    assert_eq!(cpu.registers, before);
    assert_eq!(cpu.position_in_memory, 2);
    assert_eq!(cpu.stack_pointer, 0);
}

#[test]
fn add_xy_without_carry() {
    let mut cpu = CPU::new();
    cpu.registers[0] = 5;
    cpu.registers[1] = 10;
    cpu.add_xy(0, 1);
    assert_eq!(cpu.registers[0], 15);
    assert_eq!(cpu.registers[1], 10);
    assert_eq!(cpu.registers[15], 0);
}

#[test]
fn add_xy_with_carry_wraps() {
    let mut cpu = CPU::new();
    cpu.registers[2] = 200;
    cpu.registers[7] = 100;
    cpu.add_xy(2, 7);
    assert_eq!(cpu.registers[2], 44);
    assert_eq!(cpu.registers[15], 1);
}

#[test]
fn add_xy_edge_of_carry() {
    let mut cpu = CPU::new();
    cpu.registers[4] = 255;
    cpu.registers[5] = 0;
    cpu.registers[15] = 1;
    cpu.add_xy(4, 5);
    assert_eq!(cpu.registers[4], 255);
    assert_eq!(cpu.registers[15], 0);
    cpu.registers[5] = 1;
    cpu.add_xy(4, 5);
    assert_eq!(cpu.registers[4], 0);
    assert_eq!(cpu.registers[15], 1);
}

#[test]
fn add_instruction_runs_through_run() {
    let mut cpu = cpu_with(&[0x80, 0x14, 0x80, 0x14, 0x00, 0x00]);
    cpu.registers[0] = 5;
    cpu.registers[1] = 10;
    assert_eq!(cpu.run(), Ok(()));
    assert_eq!(cpu.registers[0], 25);
    assert_eq!(cpu.registers[15], 0);
    assert_eq!(cpu.position_in_memory, 6);
}

#[test]
fn call_then_ret_restores_program_counter() {
    let mut cpu = CPU::new();
    cpu.position_in_memory = 0x123;
    assert_eq!(cpu.call(0x400), Ok(()));
    assert_eq!(cpu.position_in_memory, 0x400);
    assert_eq!(cpu.stack_pointer, 1);
    assert_eq!(cpu.ret(), Ok(()));
    assert_eq!(cpu.position_in_memory, 0x123);
    assert_eq!(cpu.stack_pointer, 0);
}

#[test]
fn subroutine_returns_to_next_instruction() {
    // 0: call 4; 2: halt; 4: return
    let mut cpu = cpu_with(&[0x20, 0x04, 0x00, 0x00, 0x00, 0xEE]);
    assert_eq!(cpu.run(), Ok(()));
    assert_eq!(cpu.position_in_memory, 4);
    assert_eq!(cpu.stack_pointer, 0);
}

#[test]
fn seventeenth_call_overflows() {
    let mut cpu = CPU::new();
    for _ in 0..16 {
        assert_eq!(cpu.call(0x10), Ok(()));
    }
    assert_eq!(cpu.stack_pointer, 16);
    assert_eq!(cpu.call(0x10), Err(EmuError::StackOverflow));
    assert_eq!(cpu.stack_pointer, 16);
}

#[test]
fn recursive_program_overflows() {
    // 0: call 0, forever deeper
    let mut cpu = cpu_with(&[0x20, 0x00]);
    assert_eq!(cpu.run(), Err(EmuError::StackOverflow));
    assert_eq!(cpu.stack_pointer, 16);
}

#[test]
fn ret_on_empty_stack_underflows() {
    let mut cpu = CPU::new();
    assert_eq!(cpu.ret(), Err(EmuError::StackUnderflow));
    let mut cpu = cpu_with(&[0x00, 0xEE]);
    assert_eq!(cpu.run(), Err(EmuError::StackUnderflow));
    assert_eq!(cpu.stack_pointer, 0);
}

#[test]
fn call_then_halt_scenario() {
    let mut cpu = CPU::new();
    cpu.load(0, &[0x20, 0x04]);
    cpu.load(4, &[0x00, 0x00]);
    assert_eq!(cpu.step(), Ok(Flow::Continue));
    assert_eq!(cpu.position_in_memory, 4);
    assert_eq!(cpu.stack_pointer, 1);
    assert_eq!(cpu.stack[0], 2);
    assert_eq!(cpu.run(), Ok(()));
    assert_eq!(cpu.stack_pointer, 1);
}

#[test]
fn unsupported_opcode_is_reported() {
    let mut cpu = cpu_with(&[0xFF, 0xFF]);
    cpu.registers[1] = 42;
    let before = cpu.registers;
    assert_eq!(cpu.run(), Err(EmuError::UnsupportedOpcode(0xFFFF)));
    assert_eq!(cpu.registers, before);
    assert_eq!(cpu.stack_pointer, 0);
}

#[test]
fn program_counter_past_memory_is_reported() {
    let mut cpu = CPU::new();
    cpu.position_in_memory = 65535;
    assert_eq!(cpu.run(), Err(EmuError::ProgramCounterOutOfRange(65535)));
    // add instructions up to the last word run off the end
    let mut cpu = CPU::new();
    cpu.position_in_memory = 65532;
    cpu.load(65532, &[0x80, 0x14, 0x80, 0x14]);
    assert_eq!(cpu.run(), Err(EmuError::ProgramCounterOutOfRange(65536)));
}

#[test]
fn call_from_last_word_cannot_push() {
    let mut cpu = CPU::new();
    cpu.position_in_memory = 65534;
    cpu.load(65534, &[0x20, 0x10]);
    assert_eq!(cpu.run(), Err(EmuError::ProgramCounterOutOfRange(65536)));
    assert_eq!(cpu.stack_pointer, 0);
}

#[test]
fn read_opcode_is_big_endian() {
    let mut cpu = cpu_with(&[0x12, 0x34]);
    assert_eq!(cpu.read_opcode(), 0x1234);
    cpu.position_in_memory = 1;
    assert_eq!(cpu.read_opcode(), 0x3400);
}

#[test]
fn decode_recognises_each_instruction() {
    assert_eq!(decode(0x0000), Some(Instruction::Halt));
    assert_eq!(decode(0x00EE), Some(Instruction::Return));
    assert_eq!(decode(0x2ABC), Some(Instruction::Call(0xABC)));
    assert_eq!(decode(0x8AB4), Some(Instruction::AddXY(0xA, 0xB)));
    assert_eq!(decode(0x8AB5), None);
    assert_eq!(decode(0x1234), None);
    assert_eq!(decode(0x00E0), None);
    assert_eq!(decode(0xFFFF), None);
}

#[test]
fn load_places_bytes() {
    let mut cpu = CPU::new();
    cpu.load(10, &[1, 2, 3]);
    assert_eq!(cpu.memory[9], 0);
    assert_eq!(&cpu.memory[10..13], &[1, 2, 3]);
    assert_eq!(cpu.memory[13], 0);
}
