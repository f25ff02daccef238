use vstd::prelude::*;

use crate::components::{blank_frame, collides, drawn, frame_width};
use crate::instruction::{decode_spec, Instruction};
use crate::{
    Addr, Chip8Error, FLAG_REGISTER, FONT_SPRITE_HEIGHT, FRAME_BUFFER_HEIGHT, GP_REGISTERS_COUNT,
    INDEX_REGISTER_MAX, KEY_COUNT, MEMORY_SIZE, STACK_SIZE, TIMER_FREQUENCY,
};

verus! {

/// Phase of the fetch / decode / execute rotation.
#[derive(Debug, Clone, Copy, PartialEq, Eq, Structural)]
pub enum CpuState {
    IDLE,
    FETCH,
    DECODE,
    EXEC,
}

/// The whole machine as mathematical values.
#[verifier::ext_equal]
pub struct MachineState {
    pub on: bool,
    pub ram: Seq<u8>,
    pub v: Seq<u8>,
    /// Return addresses, oldest first.
    pub stack: Seq<Addr>,
    pub pc: Addr,
    pub index: Addr,
    pub dt: u8,
    pub st: u8,
    /// Pixels, `frame[y][x]`.
    pub frame: Seq<Seq<bool>>,
    /// Bit `k` set while key `k` is held.
    pub keyboard: u16,
    pub frequency: u32,
    pub frequency_counter: u32,
    pub opcode: u16,
    pub instr: Option<Instruction>,
    pub state: CpuState,
    /// Set by every instruction that changes the frame.
    pub refresh: bool,
}

impl MachineState {
    /// Sizes and ranges that every reachable machine state respects.
    pub open spec fn wf(self) -> bool {
        &&& self.ram.len() == MEMORY_SIZE
        &&& self.v.len() == GP_REGISTERS_COUNT
        &&& self.stack.len() <= STACK_SIZE
        &&& self.pc < MEMORY_SIZE
        &&& self.index <= INDEX_REGISTER_MAX
        &&& self.frame.len() == FRAME_BUFFER_HEIGHT
        &&& forall|y: int| 0 <= y < FRAME_BUFFER_HEIGHT ==> #[trigger] self.frame[y].len() == frame_width()
        &&& self.frequency >= TIMER_FREQUENCY
        &&& self.frequency_counter < self.frequency / TIMER_FREQUENCY
    }
}

/// Whether key `k` is held in the keyboard mask.
pub open spec fn key_held(mask: u16, k: int) -> bool {
    0 <= k < KEY_COUNT && (mask >> (k as u16)) & 1u16 == 1u16
}

/// The lowest held key numbered `k` or more, or `KEY_COUNT` when there is none.
pub open spec fn first_key_from(mask: u16, k: int) -> int
    decreases KEY_COUNT - k,
{
    if k >= KEY_COUNT || k < 0 {
        KEY_COUNT as int
    } else if key_held(mask, k) {
        k
    } else {
        first_key_from(mask, k + 1)
    }
}

/// The lowest held key, or `KEY_COUNT` when no key is held.
pub open spec fn first_key(mask: u16) -> int {
    first_key_from(mask, 0)
}

/// A timer after one count down.
pub open spec fn count_down(t: u8) -> u8 {
    if t == 0 {
        0
    } else {
        (t - 1) as u8
    }
}

/// The state with register `x` set to `value`.
pub open spec fn set_reg(s: MachineState, x: int, value: u8) -> MachineState {
    MachineState { v: s.v.update(x, value), ..s }
}

/// The state with register `x` set to `value`, then VF set to `flag`.
pub open spec fn set_reg_flag(s: MachineState, x: int, value: u8, flag: u8) -> MachineState {
    set_reg(set_reg(s, x, value), FLAG_REGISTER as int, flag)
}

/// Moves the program counter `by` bytes forward; fails where that leaves memory.
pub open spec fn advance(s: MachineState, by: int) -> Result<MachineState, Chip8Error> {
    if s.pc + by < MEMORY_SIZE {
        Ok(MachineState { pc: (s.pc + by) as Addr, ..s })
    } else {
        Err(Chip8Error::ProgramCounterOverflow)
    }
}

/// Moves on to the following instruction.
pub open spec fn next(s: MachineState) -> Result<MachineState, Chip8Error> {
    advance(s, 2)
}

/// Moves on, skipping one instruction where `cond` holds.
pub open spec fn skip_if(s: MachineState, cond: bool) -> Result<MachineState, Chip8Error> {
    advance(s, if cond { 4 } else { 2 })
}

/// Whether `x` names a register.
pub open spec fn reg_ok(x: int) -> bool {
    0 <= x < GP_REGISTERS_COUNT
}

/// The three decimal digits of a byte, hundreds first.
pub open spec fn bcd(value: u8) -> Seq<u8> {
    seq![(value / 100) as u8, ((value / 10) % 10) as u8, (value % 10) as u8]
}

/// Register-to-register instructions with result `value` and flag `flag`
/// (`None`: flag untouched), checked and advanced.
pub open spec fn alu(s: MachineState, x: int, y: int, value: u8, flag: Option<u8>) -> Result<
    MachineState,
    Chip8Error,
> {
    if !reg_ok(x) || !reg_ok(y) {
        Err(Chip8Error::RegisterOutOfRange)
    } else {
        match flag {
            Some(f) => next(set_reg_flag(s, x, value, f)),
            None => next(set_reg(s, x, value)),
        }
    }
}

/// What executing `instr` does to state `s`; `random` is the byte drawn for RND.
/// On an error the state is left as it was.
pub open spec fn execute_spec(s: MachineState, instr: Instruction, random: u8) -> Result<
    MachineState,
    Chip8Error,
> {
    match instr {
        Instruction::SYS(_) => Err(Chip8Error::UnsupportedInstruction),
        Instruction::CLS => next(MachineState { frame: blank_frame(), refresh: true, ..s }),
        Instruction::RET => {
            if s.stack.len() == 0 {
                Err(Chip8Error::StackUnderflow)
            } else if s.stack.last() >= MEMORY_SIZE {
                Err(Chip8Error::ProgramCounterOutOfMemory)
            } else {
                Ok(MachineState { stack: s.stack.drop_last(), pc: s.stack.last(), ..s })
            }
        },
        Instruction::JP(addr) => {
            if addr >= MEMORY_SIZE {
                Err(Chip8Error::ProgramCounterOutOfMemory)
            } else {
                Ok(MachineState { pc: addr, ..s })
            }
        },
        Instruction::CALL(addr) => {
            if s.stack.len() >= STACK_SIZE {
                Err(Chip8Error::StackOverflow)
            } else if s.pc + 2 >= MEMORY_SIZE {
                Err(Chip8Error::ProgramCounterOverflow)
            } else if addr >= MEMORY_SIZE {
                Err(Chip8Error::ProgramCounterOutOfMemory)
            } else {
                Ok(MachineState { stack: s.stack.push((s.pc + 2) as Addr), pc: addr, ..s })
            }
        },
        Instruction::SEi(x, kk) => {
            if !reg_ok(x as int) {
                Err(Chip8Error::RegisterOutOfRange)
            } else {
                skip_if(s, s.v[x as int] == kk)
            }
        },
        Instruction::SNEi(x, kk) => {
            if !reg_ok(x as int) {
                Err(Chip8Error::RegisterOutOfRange)
            } else {
                skip_if(s, s.v[x as int] != kk)
            }
        },
        Instruction::SE(x, y) => {
            if !reg_ok(x as int) || !reg_ok(y as int) {
                Err(Chip8Error::RegisterOutOfRange)
            } else {
                skip_if(s, s.v[x as int] == s.v[y as int])
            }
        },
        Instruction::SNE(x, y) => {
            if !reg_ok(x as int) || !reg_ok(y as int) {
                Err(Chip8Error::RegisterOutOfRange)
            } else {
                skip_if(s, s.v[x as int] != s.v[y as int])
            }
        },
        Instruction::LDi(x, kk) => alu(s, x as int, 0, kk, None),
        Instruction::ADDi(x, kk) => alu(s, x as int, 0, ((s.v[x as int] + kk) % 256) as u8, None),
        Instruction::LD(x, y) => alu(s, x as int, y as int, s.v[y as int], None),
        Instruction::OR(x, y) => alu(s, x as int, y as int, s.v[x as int] | s.v[y as int], None),
        Instruction::AND(x, y) => alu(s, x as int, y as int, s.v[x as int] & s.v[y as int], None),
        Instruction::XOR(x, y) => alu(s, x as int, y as int, s.v[x as int] ^ s.v[y as int], None),
        Instruction::ADD(x, y) => {
            let sum = s.v[x as int] + s.v[y as int];
            alu(s, x as int, y as int, (sum % 256) as u8, Some(if sum > 255 { 1u8 } else { 0u8 }))
        },
        Instruction::SUB(x, y) => {
            let (a, b) = (s.v[x as int], s.v[y as int]);
            alu(
                s,
                x as int,
                y as int,
                ((a - b + 256) % 256) as u8,
                Some(if a >= b { 1u8 } else { 0u8 }),
            )
        },
        Instruction::SUBN(x, y) => {
            let (a, b) = (s.v[x as int], s.v[y as int]);
            alu(
                s,
                x as int,
                y as int,
                ((b - a + 256) % 256) as u8,
                Some(if b >= a { 1u8 } else { 0u8 }),
            )
        },
        Instruction::SHR(x) => {
            let a = s.v[x as int];
            alu(s, x as int, 0, (a / 2) as u8, Some((a % 2) as u8))
        },
        Instruction::SHL(x) => {
            let a = s.v[x as int];
            alu(s, x as int, 0, ((a * 2) % 256) as u8, Some((a / 128) as u8))
        },
        Instruction::LD_I(addr) => {
            if addr > INDEX_REGISTER_MAX {
                Err(Chip8Error::IndexOutOfRange)
            } else {
                next(MachineState { index: addr, ..s })
            }
        },
        Instruction::JP_V0(addr) => {
            if addr + s.v[0] >= MEMORY_SIZE {
                Err(Chip8Error::ProgramCounterOutOfMemory)
            } else {
                Ok(MachineState { pc: (addr + s.v[0]) as Addr, ..s })
            }
        },
        Instruction::RNDi(x, kk) => alu(s, x as int, 0, random & kk, None),
        Instruction::DRW(x, y, n) => {
            if !reg_ok(x as int) || !reg_ok(y as int) {
                Err(Chip8Error::RegisterOutOfRange)
            } else if n > 15 {
                Err(Chip8Error::OperandOutOfRange)
            } else if s.index + n > MEMORY_SIZE {
                Err(Chip8Error::MemoryOutOfRange)
            } else {
                let sprite = s.ram.subrange(s.index as int, s.index + n);
                let x0 = s.v[x as int] as int % frame_width();
                let y0 = s.v[y as int] as int % (FRAME_BUFFER_HEIGHT as int);
                let hit = collides(s.frame, sprite, x0, y0);
                next(
                    MachineState {
                        frame: drawn(s.frame, sprite, x0, y0),
                        v: s.v.update(FLAG_REGISTER as int, if hit { 1u8 } else { 0u8 }),
                        refresh: true,
                        ..s
                    },
                )
            }
        },
        Instruction::SKP(x) => {
            if !reg_ok(x as int) {
                Err(Chip8Error::RegisterOutOfRange)
            } else {
                skip_if(s, key_held(s.keyboard, s.v[x as int] as int))
            }
        },
        Instruction::SKNP(x) => {
            if !reg_ok(x as int) {
                Err(Chip8Error::RegisterOutOfRange)
            } else {
                skip_if(s, !key_held(s.keyboard, s.v[x as int] as int))
            }
        },
        Instruction::LD_DT(x) => alu(s, x as int, 0, s.dt, None),
        Instruction::LD_K(x) => {
            if !reg_ok(x as int) {
                Err(Chip8Error::RegisterOutOfRange)
            } else if first_key(s.keyboard) >= KEY_COUNT {
                // No key is held: the instruction stays current and runs again.
                Ok(s)
            } else {
                next(set_reg(s, x as int, first_key(s.keyboard) as u8))
            }
        },
        Instruction::SET_DT(x) => {
            if !reg_ok(x as int) {
                Err(Chip8Error::RegisterOutOfRange)
            } else {
                next(MachineState { dt: s.v[x as int], ..s })
            }
        },
        Instruction::SET_ST(x) => {
            if !reg_ok(x as int) {
                Err(Chip8Error::RegisterOutOfRange)
            } else {
                next(MachineState { st: s.v[x as int], ..s })
            }
        },
        Instruction::ADD_I(x) => {
            if !reg_ok(x as int) {
                Err(Chip8Error::RegisterOutOfRange)
            } else {
                next(
                    MachineState {
                        index: ((s.index + s.v[x as int]) % (INDEX_REGISTER_MAX + 1)) as Addr,
                        ..s
                    },
                )
            }
        },
        Instruction::LD_F(x) => {
            if !reg_ok(x as int) {
                Err(Chip8Error::RegisterOutOfRange)
            } else {
                next(
                    MachineState {
                        index: ((s.v[x as int] % 16) * FONT_SPRITE_HEIGHT) as Addr,
                        ..s
                    },
                )
            }
        },
        Instruction::LD_B(x) => {
            if !reg_ok(x as int) {
                Err(Chip8Error::RegisterOutOfRange)
            } else if s.index + 3 > MEMORY_SIZE {
                Err(Chip8Error::MemoryOutOfRange)
            } else {
                let d = bcd(s.v[x as int]);
                next(
                    MachineState {
                        ram: s.ram.update(s.index as int, d[0]).update(s.index + 1, d[1]).update(
                            s.index + 2,
                            d[2],
                        ),
                        ..s
                    },
                )
            }
        },
        Instruction::ST_UNTIL(x) => {
            if !reg_ok(x as int) {
                Err(Chip8Error::RegisterOutOfRange)
            } else if s.index + x >= MEMORY_SIZE {
                Err(Chip8Error::MemoryOutOfRange)
            } else {
                next(
                    MachineState {
                        ram: Seq::new(
                            s.ram.len(),
                            |a: int|
                                if s.index <= a <= s.index + x {
                                    s.v[a - s.index]
                                } else {
                                    s.ram[a]
                                },
                        ),
                        ..s
                    },
                )
            }
        },
        Instruction::LD_UNTIL(x) => {
            if !reg_ok(x as int) {
                Err(Chip8Error::RegisterOutOfRange)
            } else if s.index + x >= MEMORY_SIZE {
                Err(Chip8Error::MemoryOutOfRange)
            } else {
                next(
                    MachineState {
                        v: Seq::new(
                            s.v.len(),
                            |j: int|
                                if j <= x {
                                    s.ram[s.index + j]
                                } else {
                                    s.v[j]
                                },
                        ),
                        ..s
                    },
                )
            }
        },
    }
}

/// The state after the timers' share of one scheduler tick: the frequency
/// counter advances modulo `frequency / 60`, and both timers count down
/// when it wraps to zero.
pub open spec fn timers_tick(s: MachineState) -> MachineState {
    let counter = ((s.frequency_counter + 1) % (s.frequency / TIMER_FREQUENCY) as int) as u32;
    MachineState {
        frequency_counter: counter,
        dt: if counter == 0 { count_down(s.dt) } else { s.dt },
        st: if counter == 0 { count_down(s.st) } else { s.st },
        ..s
    }
}

/// Fetch: the opcode is the big-endian word at the program counter.
pub open spec fn fetch_spec(s: MachineState) -> Result<MachineState, Chip8Error> {
    if s.pc + 1 >= MEMORY_SIZE {
        Err(Chip8Error::MemoryOutOfRange)
    } else {
        Ok(MachineState { opcode: (s.ram[s.pc as int] * 256 + s.ram[s.pc + 1]) as u16, ..s })
    }
}

/// Decode: the fetched opcode becomes the current instruction.
pub open spec fn decode_step_spec(s: MachineState) -> Result<MachineState, Chip8Error> {
    match decode_spec(s.opcode) {
        Some(i) => Ok(MachineState { instr: Some(i), ..s }),
        None => Err(Chip8Error::UnknownOpcode),
    }
}

/// Execute: the current instruction runs; with none decoded yet, the
/// program counter just moves on.
pub open spec fn execute_step_spec(s: MachineState, random: u8) -> Result<MachineState, Chip8Error> {
    match s.instr {
        Some(i) => execute_spec(s, i, random),
        None => next(s),
    }
}

/// The action of the current phase.
pub open spec fn phase_action(s: MachineState, random: u8) -> Result<MachineState, Chip8Error> {
    match s.state {
        CpuState::IDLE => Ok(s),
        CpuState::FETCH => fetch_spec(s),
        CpuState::DECODE => decode_step_spec(s),
        CpuState::EXEC => execute_step_spec(s, random),
    }
}

/// The phase that follows `state` on a machine that is `on`.
pub open spec fn next_phase(on: bool, state: CpuState) -> CpuState {
    if !on {
        CpuState::IDLE
    } else {
        match state {
            CpuState::IDLE => CpuState::FETCH,
            CpuState::FETCH => CpuState::DECODE,
            CpuState::DECODE => CpuState::EXEC,
            CpuState::EXEC => CpuState::FETCH,
        }
    }
}

/// `new` and `r` are the outcome that `expected` describes for a state
/// `old`: its state and success, or its error with `old` unchanged.
pub open spec fn outcome(
    old: MachineState,
    new: MachineState,
    r: Result<(), Chip8Error>,
    expected: Result<MachineState, Chip8Error>,
) -> bool {
    match expected {
        Ok(t) => r is Ok && new == t,
        Err(e) => r == Err::<(), Chip8Error>(e) && new == old,
    }
}

/// A machine just built: powered off, idle, everything zero but the program
/// counter, which is at the load address.
pub open spec fn initial_state(frequency: u32) -> MachineState {
    MachineState {
        on: false,
        ram: Seq::new(MEMORY_SIZE as nat, |i: int| 0u8),
        v: Seq::new(GP_REGISTERS_COUNT as nat, |i: int| 0u8),
        stack: Seq::empty(),
        pc: crate::PROGRAM_START,
        index: 0,
        dt: 0,
        st: 0,
        frame: blank_frame(),
        keyboard: 0,
        frequency,
        frequency_counter: 0,
        opcode: 0,
        instr: None,
        state: CpuState::IDLE,
        refresh: false,
    }
}

/// Memory after placing a program image at the load address.
pub open spec fn loaded(ram: Seq<u8>, image: Seq<u8>) -> Seq<u8> {
    Seq::new(
        ram.len(),
        |a: int|
            if crate::PROGRAM_START <= a < crate::PROGRAM_START + image.len() {
                image[a - crate::PROGRAM_START]
            } else {
                ram[a]
            },
    )
}

/// Placing a program image: fails where it does not fit between the load
/// address and the end of memory.
pub open spec fn load_spec(s: MachineState, image: Seq<u8>) -> Result<MachineState, Chip8Error> {
    if crate::PROGRAM_START + image.len() > MEMORY_SIZE {
        Err(Chip8Error::ImageTooLarge)
    } else {
        Ok(MachineState { ram: loaded(s.ram, image), ..s })
    }
}

} // verus!
