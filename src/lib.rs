//! A CHIP-8 virtual machine: memory and register model, opcode decoder,
//! instruction executor and the cycle scheduler that drives them.

mod components;
mod cpu;
mod error;
mod hex;
mod instruction;
mod laws;
mod machine;
mod ram;
mod registers;
mod stack;

pub use components::{
    bit_on, blank_frame, collides, drawn, frame_width, sprite_covers, wrap_offset, DelayTimer,
    FrameBuffer, IndexRegister, ProgramCounter, SoundTimer,
};
pub use cpu::CPU;
pub use error::Chip8Error;
pub use hex::{hex_digit, hex_image, hex_scan, hex_step, parse_hex_program, push_word, HexScan};
pub use instruction::{
    decode_opcode, decode_spec, low_addr, low_byte, nibble0, nibble1, nibble2, nibble3, Instruction,
};
pub use laws::{
    law_call_ret, law_decode_failures, law_memory_write_read, law_pc_advance, law_register_write_read,
    law_stack_push_pop, law_timer_period, skip_taken, timers_ticks,
};
pub use machine::{
    advance, alu, bcd, count_down, decode_step_spec, execute_spec, execute_step_spec, fetch_spec,
    first_key, first_key_from, initial_state, key_held, load_spec, loaded, next, next_phase,
    outcome, phase_action, reg_ok, set_reg, set_reg_flag, skip_if, timers_tick, CpuState,
    MachineState,
};
pub use ram::Memory;
pub use registers::Registers;
pub use stack::Stack;

use vstd::prelude::*;

verus! {

/// Number of addressable bytes of memory.
pub const MEMORY_SIZE: usize = 0x1000;

/// Number of general-purpose registers (the last one doubles as the flag register).
pub const GP_REGISTERS_COUNT: usize = 16;

/// Index of the flag register VF.
pub const FLAG_REGISTER: usize = 15;

/// Depth of the return-address stack.
pub const STACK_SIZE: usize = 16;

/// Address at which a program image is loaded and execution starts.
pub const PROGRAM_START: usize = 0x200;

/// Bytes per frame-buffer row: 64 pixels, one bit each.
pub const FRAME_BUFFER_LENGTH: usize = 8;

/// Rows of the frame buffer.
pub const FRAME_BUFFER_HEIGHT: usize = 32;

/// Largest value of the 16-bit index register.
pub const INDEX_REGISTER_MAX: usize = 0xFFFF;

/// Number of keys on the hexadecimal keypad.
pub const KEY_COUNT: usize = 16;

/// Bytes in the sprite of one hexadecimal digit.
pub const FONT_SPRITE_HEIGHT: usize = 5;

/// Instructions per second used when no frequency is given.
pub const DEFAULT_FREQUENCY: u32 = 600;

/// Rate, in Hz, at which both timers count down.
pub const TIMER_FREQUENCY: u32 = 60;

/// A memory address.
pub type Addr = usize;

/// A position in the stack.
pub type StackAdress = usize;

/// A register index.
pub type VIndex = usize;

/// A memory byte.
pub type CellValue = u8;

/// A stored return address.
pub type StackValue = Addr;

/// A register value.
pub type VValue = u8;

} // verus!
