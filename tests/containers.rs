use chip8::{
    Chip8Error, DelayTimer, FrameBuffer, IndexRegister, Memory, ProgramCounter, Registers,
    SoundTimer, Stack, MEMORY_SIZE, PROGRAM_START, STACK_SIZE,
};

#[test]
fn register_write_then_read() {
    let mut regs = Registers::new();
    for i in 0..16usize {
        regs.write(i, (i as u8) * 3 + 1).unwrap();
    }
    for i in 0..16usize {
        assert_eq!(regs.read(i), Ok((i as u8) * 3 + 1));
    }
}

#[test]
fn register_index_out_of_range() {
    let mut regs = Registers::new();
    assert_eq!(regs.read(16), Err(Chip8Error::RegisterOutOfRange));
    assert_eq!(regs.write(16, 1), Err(Chip8Error::RegisterOutOfRange));
}

#[test]
fn register_flag_accessors() {
    let mut regs = Registers::new();
    assert_eq!(regs.get_f(), Ok(&0));
    regs.set_f().unwrap();
    assert_eq!(regs.get_f(), Ok(&1));
    assert_eq!(regs.read(15), Ok(1));
}

#[test]
fn memory_write_then_read() {
    let mut mem = Memory::new();
    mem.write(0, 0xAB).unwrap();
    mem.write(MEMORY_SIZE - 1, 0xCD).unwrap();
    assert_eq!(mem.read(0), Ok(0xAB));
    assert_eq!(mem.read(MEMORY_SIZE - 1), Ok(0xCD));
    assert_eq!(mem.read(1), Ok(0));
}

#[test]
fn memory_out_of_range() {
    let mut mem = Memory::new();
    assert_eq!(mem.read(MEMORY_SIZE), Err(Chip8Error::MemoryOutOfRange));
    assert_eq!(mem.write(MEMORY_SIZE, 1), Err(Chip8Error::MemoryOutOfRange));
    assert_eq!(mem.read_range(MEMORY_SIZE - 2, 3), Err(Chip8Error::MemoryOutOfRange));
    assert_eq!(mem.read_range(MEMORY_SIZE - 2, 2), Ok(vec![0, 0]));
}

#[test]
fn stack_push_then_pop() {
    let mut stack = Stack::new();
    stack.push(0x202).unwrap();
    stack.push(0x404).unwrap();
    assert_eq!(stack.pop(), Ok(0x404));
    assert_eq!(stack.pop(), Ok(0x202));
    assert_eq!(stack.depth(), 0);
}

#[test]
fn stack_pop_empty_fails() {
    let mut stack = Stack::new();
    assert_eq!(stack.pop(), Err(Chip8Error::StackUnderflow));
    assert_eq!(stack.peek(), None);
}

#[test]
fn stack_push_past_depth_fails() {
    let mut stack = Stack::new();
    for i in 0..STACK_SIZE {
        assert_eq!(stack.push(i * 2), Ok(()));
    }
    assert_eq!(stack.push(0x300), Err(Chip8Error::StackOverflow));
    assert_eq!(stack.depth(), STACK_SIZE);
    assert_eq!(stack.peek(), Some((STACK_SIZE - 1) * 2));
}

#[test]
fn timers_count_down_to_zero() {
    let mut dt = DelayTimer::new();
    dt.set(2).unwrap();
    dt.decrease().unwrap();
    assert_eq!(dt.get(), Ok(1));
    dt.decrease().unwrap();
    dt.decrease().unwrap();
    assert_eq!(dt.get(), Ok(0));
    let mut st = SoundTimer::new();
    assert!(!st.sound());
    st.set(1).unwrap();
    assert!(st.sound());
    st.decrease().unwrap();
    assert!(!st.sound());
    assert_eq!(st.get(), Ok(0));
}

#[test]
fn program_counter_moves() {
    let mut pc = ProgramCounter::new();
    assert_eq!(pc.get(), PROGRAM_START);
    pc.incr().unwrap();
    assert_eq!(pc.get(), PROGRAM_START + 2);
    assert_eq!(pc.change(MEMORY_SIZE), Err(Chip8Error::ProgramCounterOutOfMemory));
    pc.change(MEMORY_SIZE - 2).unwrap();
    assert_eq!(pc.incr(), Err(Chip8Error::ProgramCounterOverflow));
    assert_eq!(pc.get(), MEMORY_SIZE - 2);
}

#[test]
fn index_register_holds_sixteen_bits() {
    let mut i = IndexRegister::new();
    assert_eq!(i.get(), Ok(0));
    i.set(0xFFFF).unwrap();
    assert_eq!(i.get(), Ok(0xFFFF));
    assert_eq!(i.set(0x10000), Err(Chip8Error::IndexOutOfRange));
    assert_eq!(i.get(), Ok(0xFFFF));
}

#[test]
fn sprite_draw_wraps_and_collides() {
    let mut fb = FrameBuffer::new();
    // One row, leftmost and rightmost pixels, drawn at the right edge.
    let hit = fb.draw_sprite(60, 31, &[0b1000_0001]);
    assert!(!hit);
    assert!(fb.pixel(60, 31));
    // The eighth pixel wraps round to column 3.
    assert!(fb.pixel(3, 31));
    assert!(!fb.pixel(61, 31));
    assert_eq!(fb.rows()[31][7], 0b0000_1000);
    assert_eq!(fb.rows()[31][0], 0b0001_0000);
    // Drawing again erases and reports the collision.
    let hit = fb.draw_sprite(60, 31, &[0b1000_0001]);
    assert!(hit);
    assert!(!fb.pixel(60, 31));
    assert!(!fb.pixel(3, 31));
}

#[test]
fn sprite_rows_wrap_vertically() {
    let mut fb = FrameBuffer::new();
    fb.draw_sprite(0, 31, &[0xFF, 0x80]);
    for x in 0..8 {
        assert!(fb.pixel(x, 31));
    }
    assert!(fb.pixel(0, 0));
    assert!(!fb.pixel(1, 0));
    fb.clear();
    assert!(!fb.pixel(0, 0));
}
