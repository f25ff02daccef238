use chip8::{decode_opcode, Chip8Error, CpuState, Instruction, CPU, PROGRAM_START};

fn machine() -> CPU {
    CPU::new(Some(600))
}

/// Runs one next_cycle / simulate pair with a fixed random byte.
fn tick(cpu: &mut CPU) -> Result<(), Chip8Error> {
    cpu.next_cycle()?;
    cpu.simulate_with(0)
}

#[test]
fn new_machine_is_zeroed() {
    let cpu = CPU::new(None);
    assert_eq!(cpu.frequency(), 600);
    assert!(!cpu.is_on());
    assert_eq!(cpu.state(), CpuState::IDLE);
    assert_eq!(cpu.pc(), PROGRAM_START);
    assert_eq!(cpu.index_register(), 0);
    assert_eq!(cpu.delay_timer(), 0);
    assert_eq!(cpu.sound_timer(), 0);
    assert_eq!(cpu.stack_depth(), 0);
    assert_eq!(cpu.register(3), Ok(0));
    assert_eq!(cpu.memory(0x200), Ok(0));
    assert_eq!(cpu.instruction(), None);
}

#[test]
fn cycle_rotation() {
    let mut cpu = machine();
    cpu.next_cycle().unwrap();
    assert_eq!(cpu.state(), CpuState::IDLE);
    cpu.power_on();
    cpu.next_cycle().unwrap();
    assert_eq!(cpu.state(), CpuState::FETCH);
    cpu.next_cycle().unwrap();
    assert_eq!(cpu.state(), CpuState::DECODE);
    cpu.next_cycle().unwrap();
    assert_eq!(cpu.state(), CpuState::EXEC);
    cpu.next_cycle().unwrap();
    assert_eq!(cpu.state(), CpuState::FETCH);
    cpu.power_off();
    cpu.next_cycle().unwrap();
    assert_eq!(cpu.state(), CpuState::IDLE);
}

#[test]
fn add_registers_carry() {
    let mut cpu = machine();
    cpu.execute_instruction(Instruction::LDi(0, 0xFF), 0).unwrap();
    cpu.execute_instruction(Instruction::LDi(1, 0x01), 0).unwrap();
    cpu.execute_instruction(Instruction::ADD(0, 1), 0).unwrap();
    assert_eq!(cpu.register(0), Ok(0x00));
    assert_eq!(cpu.register(15), Ok(1));
}

#[test]
fn add_registers_no_carry_resets_flag() {
    let mut cpu = machine();
    cpu.execute_instruction(Instruction::LDi(15, 1), 0).unwrap();
    cpu.execute_instruction(Instruction::LDi(0, 0x01), 0).unwrap();
    cpu.execute_instruction(Instruction::LDi(1, 0x01), 0).unwrap();
    cpu.execute_instruction(Instruction::ADD(0, 1), 0).unwrap();
    assert_eq!(cpu.register(0), Ok(0x02));
    assert_eq!(cpu.register(15), Ok(0));
}

#[test]
fn sub_without_borrow() {
    let mut cpu = machine();
    cpu.execute_instruction(Instruction::LDi(0, 0x05), 0).unwrap();
    cpu.execute_instruction(Instruction::LDi(1, 0x03), 0).unwrap();
    cpu.execute_instruction(Instruction::SUB(0, 1), 0).unwrap();
    assert_eq!(cpu.register(0), Ok(0x02));
    assert_eq!(cpu.register(15), Ok(1));
}

#[test]
fn sub_with_borrow() {
    let mut cpu = machine();
    cpu.execute_instruction(Instruction::LDi(15, 1), 0).unwrap();
    cpu.execute_instruction(Instruction::LDi(0, 0x03), 0).unwrap();
    cpu.execute_instruction(Instruction::LDi(1, 0x05), 0).unwrap();
    cpu.execute_instruction(Instruction::SUB(0, 1), 0).unwrap();
    assert_eq!(cpu.register(0), Ok(0xFE));
    assert_eq!(cpu.register(15), Ok(0));
}

#[test]
fn subn_and_shifts() {
    let mut cpu = machine();
    cpu.execute_instruction(Instruction::LDi(0, 0x03), 0).unwrap();
    cpu.execute_instruction(Instruction::LDi(1, 0x05), 0).unwrap();
    cpu.execute_instruction(Instruction::SUBN(0, 1), 0).unwrap();
    assert_eq!(cpu.register(0), Ok(0x02));
    assert_eq!(cpu.register(15), Ok(1));
    cpu.execute_instruction(Instruction::LDi(2, 0b1000_0011), 0).unwrap();
    cpu.execute_instruction(Instruction::SHR(2), 0).unwrap();
    assert_eq!(cpu.register(2), Ok(0b0100_0001));
    assert_eq!(cpu.register(15), Ok(1));
    cpu.execute_instruction(Instruction::LDi(3, 0b1000_0010), 0).unwrap();
    cpu.execute_instruction(Instruction::SHL(3), 0).unwrap();
    assert_eq!(cpu.register(3), Ok(0b0000_0100));
    assert_eq!(cpu.register(15), Ok(1));
    cpu.execute_instruction(Instruction::SHL(3), 0).unwrap();
    assert_eq!(cpu.register(3), Ok(0b0000_1000));
    assert_eq!(cpu.register(15), Ok(0));
}

#[test]
fn logic_and_immediate_ops() {
    let mut cpu = machine();
    cpu.execute_instruction(Instruction::LDi(0, 0b1100), 0).unwrap();
    cpu.execute_instruction(Instruction::LDi(1, 0b1010), 0).unwrap();
    cpu.execute_instruction(Instruction::LD(2, 0), 0).unwrap();
    cpu.execute_instruction(Instruction::OR(2, 1), 0).unwrap();
    assert_eq!(cpu.register(2), Ok(0b1110));
    cpu.execute_instruction(Instruction::LD(2, 0), 0).unwrap();
    cpu.execute_instruction(Instruction::AND(2, 1), 0).unwrap();
    assert_eq!(cpu.register(2), Ok(0b1000));
    cpu.execute_instruction(Instruction::LD(2, 0), 0).unwrap();
    cpu.execute_instruction(Instruction::XOR(2, 1), 0).unwrap();
    assert_eq!(cpu.register(2), Ok(0b0110));
    cpu.execute_instruction(Instruction::LDi(15, 7), 0).unwrap();
    cpu.execute_instruction(Instruction::ADDi(0, 0xFF), 0).unwrap();
    assert_eq!(cpu.register(0), Ok(0b1011));
    assert_eq!(cpu.register(15), Ok(7));
}

#[test]
fn bcd_of_157() {
    let mut cpu = machine();
    cpu.execute_instruction(Instruction::LD_I(0x300), 0).unwrap();
    cpu.execute_instruction(Instruction::LDi(4, 157), 0).unwrap();
    cpu.execute_instruction(Instruction::LD_B(4), 0).unwrap();
    assert_eq!(cpu.memory(0x300), Ok(1));
    assert_eq!(cpu.memory(0x301), Ok(5));
    assert_eq!(cpu.memory(0x302), Ok(7));
    assert_eq!(cpu.index_register(), 0x300);
}

#[test]
fn clear_then_jump_scenario() {
    let mut cpu = machine();
    cpu.loadb(&[0x00, 0xE0, 0x13, 0x00]).unwrap();
    cpu.power_on();
    for _ in 0..6 {
        tick(&mut cpu).unwrap();
    }
    assert_eq!(cpu.pc(), 0x300);
    assert!(cpu.get_image().iter().all(|row| row.iter().all(|b| *b == 0)));
    assert!(cpu.consume_refresh());
    assert!(!cpu.consume_refresh());
}

#[test]
fn call_then_ret_scenario() {
    let mut cpu = machine();
    assert_eq!(cpu.pc(), 0x200);
    cpu.execute_instruction(Instruction::CALL(0x400), 0).unwrap();
    assert_eq!(cpu.stack_top(), Some(0x202));
    assert_eq!(cpu.pc(), 0x400);
    cpu.execute_instruction(Instruction::RET, 0).unwrap();
    assert_eq!(cpu.pc(), 0x202);
    assert_eq!(cpu.stack_depth(), 0);
}

#[test]
fn call_ret_through_memory() {
    let mut cpu = machine();
    let mut image = vec![0u8; 0x202];
    image[0] = 0x24;
    image[1] = 0x00;
    image[0x200] = 0x00;
    image[0x201] = 0xEE;
    cpu.loadb(&image).unwrap();
    cpu.power_on();
    for _ in 0..3 {
        tick(&mut cpu).unwrap();
    }
    assert_eq!(cpu.instruction(), Some(Instruction::CALL(0x400)));
    assert_eq!(cpu.pc(), 0x400);
    assert_eq!(cpu.stack_top(), Some(0x202));
    for _ in 0..3 {
        tick(&mut cpu).unwrap();
    }
    assert_eq!(cpu.instruction(), Some(Instruction::RET));
    assert_eq!(cpu.pc(), 0x202);
}

#[test]
fn delay_timer_decrements_once_per_period() {
    let mut cpu = machine();
    cpu.execute_instruction(Instruction::LDi(0, 5), 0).unwrap();
    cpu.execute_instruction(Instruction::SET_DT(0), 0).unwrap();
    assert_eq!(cpu.delay_timer(), 5);
    for _ in 0..9 {
        cpu.simulate_with(0).unwrap();
        assert_eq!(cpu.delay_timer(), 5);
    }
    cpu.simulate_with(0).unwrap();
    assert_eq!(cpu.delay_timer(), 4);
    for _ in 0..9 {
        cpu.simulate_with(0).unwrap();
        assert_eq!(cpu.delay_timer(), 4);
    }
    cpu.simulate_with(0).unwrap();
    assert_eq!(cpu.delay_timer(), 3);
}

#[test]
fn sound_timer_drives_tone() {
    let mut cpu = CPU::new(Some(60));
    cpu.execute_instruction(Instruction::LDi(0, 1), 0).unwrap();
    cpu.execute_instruction(Instruction::SET_ST(0), 0).unwrap();
    assert!(cpu.sound());
    cpu.simulate_with(0).unwrap();
    assert_eq!(cpu.sound_timer(), 0);
    assert!(!cpu.sound());
}

#[test]
fn pc_moves_by_two_or_four() {
    let mut cpu = machine();
    cpu.execute_instruction(Instruction::LDi(0, 9), 0).unwrap();
    assert_eq!(cpu.pc(), 0x202);
    cpu.execute_instruction(Instruction::SEi(0, 9), 0).unwrap();
    assert_eq!(cpu.pc(), 0x206);
    cpu.execute_instruction(Instruction::SEi(0, 8), 0).unwrap();
    assert_eq!(cpu.pc(), 0x208);
    cpu.execute_instruction(Instruction::SNEi(0, 8), 0).unwrap();
    assert_eq!(cpu.pc(), 0x20C);
    cpu.execute_instruction(Instruction::LDi(1, 9), 0).unwrap();
    cpu.execute_instruction(Instruction::SE(0, 1), 0).unwrap();
    assert_eq!(cpu.pc(), 0x212);
    cpu.execute_instruction(Instruction::SNE(0, 1), 0).unwrap();
    assert_eq!(cpu.pc(), 0x214);
}

#[test]
fn key_skips() {
    let mut cpu = machine();
    cpu.execute_instruction(Instruction::LDi(0, 0xA), 0).unwrap();
    cpu.set_keyboard(1 << 0xA);
    cpu.execute_instruction(Instruction::SKP(0), 0).unwrap();
    assert_eq!(cpu.pc(), 0x206);
    cpu.execute_instruction(Instruction::SKNP(0), 0).unwrap();
    assert_eq!(cpu.pc(), 0x208);
    cpu.set_keyboard(0);
    cpu.execute_instruction(Instruction::SKNP(0), 0).unwrap();
    assert_eq!(cpu.pc(), 0x20C);
    cpu.execute_instruction(Instruction::LDi(0, 200), 0).unwrap();
    cpu.set_keyboard(0xFFFF);
    cpu.execute_instruction(Instruction::SKP(0), 0).unwrap();
    assert_eq!(cpu.pc(), 0x210);
}

#[test]
fn wait_for_key() {
    let mut cpu = machine();
    cpu.execute_instruction(Instruction::LD_K(3), 0).unwrap();
    assert_eq!(cpu.pc(), 0x200);
    cpu.set_keyboard((1 << 7) | (1 << 12));
    assert_eq!(cpu.keyboard(), (1 << 7) | (1 << 12));
    cpu.execute_instruction(Instruction::LD_K(3), 0).unwrap();
    assert_eq!(cpu.register(3), Ok(7));
    assert_eq!(cpu.pc(), 0x202);
}

#[test]
fn jumps() {
    let mut cpu = machine();
    cpu.execute_instruction(Instruction::JP(0x345), 0).unwrap();
    assert_eq!(cpu.pc(), 0x345);
    cpu.execute_instruction(Instruction::LDi(0, 0x10), 0).unwrap();
    cpu.execute_instruction(Instruction::JP_V0(0x300), 0).unwrap();
    assert_eq!(cpu.pc(), 0x310);
    assert_eq!(
        cpu.execute_instruction(Instruction::JP_V0(0xFFF), 0),
        Err(Chip8Error::ProgramCounterOutOfMemory)
    );
    assert_eq!(cpu.execute_instruction(Instruction::JP(0x1000), 0), Err(Chip8Error::ProgramCounterOutOfMemory));
    assert_eq!(cpu.pc(), 0x310);
}

#[test]
fn index_register_ops() {
    let mut cpu = machine();
    cpu.execute_instruction(Instruction::LD_I(0xFFF0), 0).unwrap();
    cpu.execute_instruction(Instruction::LDi(0, 0x20), 0).unwrap();
    cpu.execute_instruction(Instruction::ADD_I(0), 0).unwrap();
    assert_eq!(cpu.index_register(), 0x0010);
    cpu.execute_instruction(Instruction::LDi(1, 0x1B), 0).unwrap();
    cpu.execute_instruction(Instruction::LD_F(1), 0).unwrap();
    assert_eq!(cpu.index_register(), 0xB * 5);
    assert_eq!(cpu.execute_instruction(Instruction::LD_I(0x10000), 0), Err(Chip8Error::IndexOutOfRange));
}

#[test]
fn store_and_load_registers() {
    let mut cpu = machine();
    for i in 0..4usize {
        cpu.execute_instruction(Instruction::LDi(i, 10 + i as u8), 0).unwrap();
    }
    cpu.execute_instruction(Instruction::LD_I(0x500), 0).unwrap();
    cpu.execute_instruction(Instruction::ST_UNTIL(2), 0).unwrap();
    assert_eq!(cpu.memory(0x500), Ok(10));
    assert_eq!(cpu.memory(0x501), Ok(11));
    assert_eq!(cpu.memory(0x502), Ok(12));
    assert_eq!(cpu.memory(0x503), Ok(0));
    assert_eq!(cpu.index_register(), 0x500);
    cpu.execute_instruction(Instruction::LD_I(0x501), 0).unwrap();
    cpu.execute_instruction(Instruction::LD_UNTIL(1), 0).unwrap();
    assert_eq!(cpu.register(0), Ok(11));
    assert_eq!(cpu.register(1), Ok(12));
    assert_eq!(cpu.register(2), Ok(12));
    assert_eq!(cpu.register(3), Ok(13));
    cpu.execute_instruction(Instruction::LD_I(0xFFE), 0).unwrap();
    assert_eq!(cpu.execute_instruction(Instruction::ST_UNTIL(2), 0), Err(Chip8Error::MemoryOutOfRange));
}

#[test]
fn random_is_masked() {
    let mut cpu = machine();
    cpu.execute_instruction(Instruction::RNDi(0, 0x0F), 0xAB).unwrap();
    assert_eq!(cpu.register(0), Ok(0x0B));
    cpu.execute_instruction(Instruction::RNDi(1, 0x00), 0xFF).unwrap();
    assert_eq!(cpu.register(1), Ok(0));
    // Through the generator: the mask still bounds the value.
    cpu.loadb(&[0xC2, 0x0F]).unwrap();
    cpu.execute_instruction(Instruction::JP(0x200), 0).unwrap();
    cpu.fetch().unwrap();
    cpu.decode().unwrap();
    cpu.execute().unwrap();
    assert!(cpu.register(2).unwrap() <= 0x0F);
    assert_eq!(cpu.pc(), 0x202);
}

#[test]
fn draw_sets_collision_flag() {
    let mut cpu = machine();
    // Sprite byte at 0x300.
    cpu.execute_instruction(Instruction::LD_I(0x300), 0).unwrap();
    cpu.execute_instruction(Instruction::LDi(0, 0xF0), 0).unwrap();
    cpu.execute_instruction(Instruction::LDi(1, 0), 0).unwrap();
    cpu.execute_instruction(Instruction::ST_UNTIL(0), 0).unwrap();
    cpu.execute_instruction(Instruction::LDi(2, 66), 0).unwrap();
    cpu.execute_instruction(Instruction::LDi(3, 1), 0).unwrap();
    cpu.execute_instruction(Instruction::DRW(2, 3, 1), 0).unwrap();
    assert_eq!(cpu.register(15), Ok(0));
    // x = 66 wraps to column 2.
    assert_eq!(cpu.get_image()[1][0], 0b0011_1100);
    assert!(cpu.frame().pixel(2, 1));
    cpu.execute_instruction(Instruction::DRW(2, 3, 1), 0).unwrap();
    assert_eq!(cpu.register(15), Ok(1));
    assert_eq!(cpu.get_image()[1][0], 0);
    assert_eq!(cpu.execute_instruction(Instruction::DRW(2, 3, 16), 0), Err(Chip8Error::OperandOutOfRange));
}

#[test]
fn execute_errors_leave_state() {
    let mut cpu = machine();
    assert_eq!(cpu.execute_instruction(Instruction::SYS(0x123), 0), Err(Chip8Error::UnsupportedInstruction));
    assert_eq!(cpu.execute_instruction(Instruction::RET, 0), Err(Chip8Error::StackUnderflow));
    assert_eq!(cpu.execute_instruction(Instruction::LDi(16, 1), 0), Err(Chip8Error::RegisterOutOfRange));
    assert_eq!(cpu.pc(), 0x200);
    for _ in 0..16 {
        cpu.execute_instruction(Instruction::CALL(0x200), 0).unwrap();
    }
    assert_eq!(cpu.execute_instruction(Instruction::CALL(0x200), 0), Err(Chip8Error::StackOverflow));
    assert_eq!(cpu.stack_depth(), 16);
    cpu.execute_instruction(Instruction::JP(0xFFE), 0).unwrap();
    assert_eq!(cpu.execute_instruction(Instruction::CLS, 0), Err(Chip8Error::ProgramCounterOverflow));
    assert_eq!(cpu.pc(), 0xFFE);
}

#[test]
fn fetch_at_memory_end_fails() {
    let mut cpu = machine();
    cpu.execute_instruction(Instruction::JP(0xFFF), 0).unwrap();
    assert_eq!(cpu.fetch(), Err(Chip8Error::MemoryOutOfRange));
}

#[test]
fn decode_error_surfaces() {
    let mut cpu = machine();
    cpu.loadb(&[0x51, 0x21]).unwrap();
    cpu.power_on();
    tick(&mut cpu).unwrap();
    assert_eq!(cpu.opcode(), 0x5121);
    assert_eq!(tick(&mut cpu), Err(Chip8Error::UnknownOpcode));
}

#[test]
fn load_limits() {
    let mut cpu = machine();
    let too_big = vec![1u8; 0x1000 - 0x200 + 1];
    assert_eq!(cpu.loadb(&too_big), Err(Chip8Error::ImageTooLarge));
    assert_eq!(cpu.memory(0x200), Ok(0));
    let fits = vec![1u8; 0x1000 - 0x200];
    cpu.loadb(&fits).unwrap();
    assert_eq!(cpu.memory(0xFFF), Ok(1));
    assert_eq!(cpu.memory(0x1FF), Ok(0));
}

#[test]
fn load_hex_text() {
    let mut cpu = machine();
    cpu.loadt(b"00E0\r\n1300\na2f").unwrap();
    assert_eq!(cpu.memory(0x200), Ok(0x00));
    assert_eq!(cpu.memory(0x201), Ok(0xE0));
    assert_eq!(cpu.memory(0x202), Ok(0x13));
    assert_eq!(cpu.memory(0x203), Ok(0x00));
    assert_eq!(cpu.memory(0x204), Ok(0x0A));
    assert_eq!(cpu.memory(0x205), Ok(0x2F));
    assert_eq!(cpu.loadt(b"12G4\n"), Err(Chip8Error::MalformedHex));
}

#[test]
fn pacing_follows_frequency() {
    assert_eq!(CPU::new(Some(600)).pacing_micros(), 1666);
    assert_eq!(CPU::new(Some(1000)).pacing_micros(), 1000);
}

#[test]
fn error_messages() {
    assert_eq!(Chip8Error::StackOverflow.message(), "Stack overflow");
    assert_eq!(Chip8Error::UnknownOpcode.message(), "Can't decode current instruction");
}

#[test]
fn decode_via_public_decoder() {
    assert_eq!(decode_opcode(0x2ABC), Ok(Instruction::CALL(0xABC)));
}
