use cpu_emu::cpu::CPU;
use cpu_emu::decode::{combine_bytes, decode, instruction_of, Instruction};
use cpu_emu::machine::{CpuError, FLAG_REGISTER, MEMORY_SIZE, STACK_SIZE};
use cpu_emu::q7::Q7;

fn cpu_with(registers: &[(usize, u8)], program: &[(usize, &[u8])]) -> CPU {
    let mut cpu = CPU::new();
    for &(i, v) in registers {
        cpu.set_register(i, v);
    }
    for &(addr, bytes) in program {
        cpu.load(addr, bytes);
    }
    cpu
}

#[test]
fn add_without_overflow() {
    let mut cpu = cpu_with(&[(0, 5), (1, 10)], &[]);
    cpu.add_xy(0, 1);
    assert_eq!(cpu.register(0), 15);
    assert_eq!(cpu.register(1), 10);
    assert_eq!(cpu.register(FLAG_REGISTER), 0);
}

#[test]
fn add_with_overflow() {
    let mut cpu = cpu_with(&[(0, 250), (1, 10)], &[]);
    cpu.add_xy(0, 1);
    assert_eq!(cpu.register(0), 4);
    assert_eq!(cpu.register(FLAG_REGISTER), 1);
}

#[test]
fn add_clears_a_flag_left_from_before() {
    let mut cpu = cpu_with(&[(0, 1), (1, 2), (FLAG_REGISTER, 1)], &[]);
    cpu.add_xy(0, 1);
    assert_eq!(cpu.register(0), 3);
    assert_eq!(cpu.register(FLAG_REGISTER), 0);
}

#[test]
fn add_into_flag_register_keeps_only_the_flag() {
    let mut cpu = cpu_with(&[(FLAG_REGISTER, 200), (1, 100)], &[]);
    cpu.add_xy(15, 1);
    assert_eq!(cpu.register(FLAG_REGISTER), 1);
    let mut cpu = cpu_with(&[(FLAG_REGISTER, 20), (1, 100)], &[]);
    cpu.add_xy(15, 1);
    assert_eq!(cpu.register(FLAG_REGISTER), 0);
}

#[test]
fn repeated_add_accumulates() {
    let mut cpu = cpu_with(&[(0, 5), (1, 10), (2, 10), (3, 10)], &[]);
    cpu.add_xy(0, 1);
    cpu.add_xy(0, 2);
    cpu.add_xy(0, 3);
    assert_eq!(cpu.register(0), 35);
}

#[test]
fn program_of_adds_accumulates() {
    let program: &[u8] = &[0x80, 0x14, 0x80, 0x24, 0x80, 0x34];
    let mut cpu = cpu_with(&[(0, 5), (1, 10), (2, 10), (3, 10)], &[(0, program)]);
    assert_eq!(cpu.run(), Ok(()));
    assert_eq!(cpu.register(0), 35);
    assert_eq!(cpu.register(FLAG_REGISTER), 0);
    assert_eq!(cpu.program_counter(), 8);
}

#[test]
fn call_and_return_twice() {
    let main: &[u8] = &[0x21, 0x00, 0x21, 0x00, 0x00, 0x00];
    let sub: &[u8] = &[0x80, 0x14, 0x80, 0x14, 0x00, 0xEE];
    let mut cpu = cpu_with(&[(0, 5), (1, 10)], &[(0x000, main), (0x100, sub)]);
    assert_eq!(cpu.run(), Ok(()));
    assert_eq!(cpu.register(0), 45);
    assert_eq!(cpu.program_counter(), 6);
    assert_eq!(cpu.stack_pointer(), 0);
}

#[test]
fn call_saves_the_next_address() {
    let mut cpu = CPU::new();
    cpu.load(0, &[0x00, 0x00]);
    assert_eq!(cpu.call(0x100), Ok(()));
    assert_eq!(cpu.program_counter(), 0x100);
    assert_eq!(cpu.stack_pointer(), 1);
    assert_eq!(cpu.ret(), Ok(()));
    assert_eq!(cpu.program_counter(), 0);
    assert_eq!(cpu.stack_pointer(), 0);
}

#[test]
fn halt_terminates_immediately() {
    let mut cpu = cpu_with(&[(0, 7), (3, 9), (FLAG_REGISTER, 1)], &[]);
    assert_eq!(cpu.run(), Ok(()));
    assert_eq!(cpu.program_counter(), 2);
    assert_eq!(cpu.register(0), 7);
    assert_eq!(cpu.register(3), 9);
    assert_eq!(cpu.register(FLAG_REGISTER), 1);
    for i in [1, 2, 4, 5, 6, 7, 8, 9, 10, 11, 12, 13, 14] {
        assert_eq!(cpu.register(i), 0);
    }
}

#[test]
fn fetch_combines_bytes_high_first() {
    let mut cpu = CPU::new();
    cpu.load(0, &[0x81, 0x23]);
    let word = cpu.read_opcode();
    assert_eq!(word, 0x8123);
    assert_eq!(decode(word), (8, 1, 2, 3, 0x123));
    assert_eq!(combine_bytes(0x81, 0x23), 0x8123);
    assert_eq!(combine_bytes(0x00, 0xEE), 0x00EE);
}

#[test]
fn decode_splits_every_nibble() {
    assert_eq!(decode(0x0000), (0, 0, 0, 0, 0x000));
    assert_eq!(decode(0xFFFF), (15, 15, 15, 15, 0xFFF));
    assert_eq!(decode(0x2ABC), (2, 10, 11, 12, 0xABC));
}

#[test]
fn opcode_table() {
    assert_eq!(instruction_of(0x0000), Instruction::Halt);
    assert_eq!(instruction_of(0x00EE), Instruction::Return);
    assert_eq!(instruction_of(0x2100), Instruction::Call(0x100));
    assert_eq!(instruction_of(0x2FFF), Instruction::Call(0xFFF));
    assert_eq!(instruction_of(0x8014), Instruction::AddXY(0, 1));
    assert_eq!(instruction_of(0x8F34), Instruction::AddXY(15, 3));
    assert_eq!(instruction_of(0x8015), Instruction::Unimplemented(0x8015));
    assert_eq!(instruction_of(0x1234), Instruction::Unimplemented(0x1234));
    assert_eq!(instruction_of(0x00E0), Instruction::Unimplemented(0x00E0));
    assert_eq!(instruction_of(0x0001), Instruction::Unimplemented(0x0001));
}

#[test]
fn unimplemented_opcode_is_fatal() {
    let program: &[u8] = &[0x80, 0x14, 0x12, 0x34, 0x80, 0x14];
    let mut cpu = cpu_with(&[(0, 5), (1, 10)], &[(0, program)]);
    assert_eq!(cpu.run(), Err(CpuError::UnimplementedOpcode(0x1234)));
    assert_eq!(cpu.register(0), 15);
    assert_eq!(cpu.register(1), 10);
    assert_eq!(cpu.program_counter(), 4);
}

#[test]
fn return_on_empty_stack_underflows() {
    let mut cpu = cpu_with(&[], &[(0, &[0x00, 0xEE])]);
    assert_eq!(cpu.run(), Err(CpuError::StackUnderflow));
    assert_eq!(cpu.stack_pointer(), 0);
    let mut cpu = CPU::new();
    assert_eq!(cpu.ret(), Err(CpuError::StackUnderflow));
    assert_eq!(cpu.program_counter(), 0);
}

#[test]
fn call_on_full_stack_overflows() {
    let mut cpu = cpu_with(&[], &[(0, &[0x20, 0x00])]);
    assert_eq!(cpu.run(), Err(CpuError::StackOverflow));
    assert_eq!(cpu.stack_pointer(), STACK_SIZE);
    assert_eq!(cpu.program_counter(), 2);
}

#[test]
fn fetch_past_memory_end_is_fatal() {
    let mut cpu = cpu_with(&[], &[(0, &[0x2F, 0xFF])]);
    assert_eq!(cpu.run(), Err(CpuError::MemoryBounds));
    assert_eq!(cpu.program_counter(), 0xFFF);
    assert_eq!(cpu.stack_pointer(), 1);
}

#[test]
fn running_off_the_end_of_memory_is_fatal() {
    let mut bytes = Vec::new();
    for _ in 0..MEMORY_SIZE / 2 {
        bytes.push(0x80);
        bytes.push(0x14);
    }
    let mut cpu = cpu_with(&[(1, 1)], &[(0, &bytes)]);
    assert_eq!(cpu.run(), Err(CpuError::MemoryBounds));
    assert_eq!(cpu.program_counter(), MEMORY_SIZE);
    // 2048 additions of 1 wrap round eight times, the last one included.
    assert_eq!(cpu.register(0), 0);
    assert_eq!(cpu.register(FLAG_REGISTER), 1);
}

#[test]
fn new_cpu_is_zeroed() {
    let cpu = CPU::new();
    for i in 0..16 {
        assert_eq!(cpu.register(i), 0);
    }
    assert_eq!(cpu.program_counter(), 0);
    assert_eq!(cpu.stack_pointer(), 0);
}

#[test]
fn load_writes_only_its_range() {
    let mut cpu = CPU::new();
    cpu.load(MEMORY_SIZE - 2, &[0x80, 0x14]);
    cpu.load(0x10, &[0xAB]);
    assert_eq!(cpu.read_opcode(), 0x0000);
    assert_eq!(cpu.call((MEMORY_SIZE - 2) as u16), Ok(()));
    assert_eq!(cpu.read_opcode(), 0x8014);
    assert_eq!(cpu.call(0x10), Ok(()));
    assert_eq!(cpu.read_opcode(), 0xAB00);
}

#[test]
fn q7_holds_its_raw_value() {
    assert_eq!(Q7(89), Q7(89));
    assert_ne!(Q7(89), Q7(-51));
    assert_eq!(Q7(127).0, 127);
}
