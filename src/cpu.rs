use vstd::prelude::*;

use rand::Rng;

use crate::components::{
    frame_width, DelayTimer, FrameBuffer, IndexRegister, ProgramCounter, SoundTimer,
};
use crate::hex::{hex_image, parse_hex_program};
use crate::instruction::{decode_opcode, Instruction};
use crate::machine::{
    advance, bcd, decode_step_spec, execute_spec, execute_step_spec, fetch_spec, first_key,
    first_key_from, initial_state, load_spec, loaded, next, next_phase, outcome, phase_action,
    set_reg, set_reg_flag, skip_if, timers_tick, CpuState, MachineState,
};
use crate::ram::Memory;
use crate::registers::Registers;
use crate::stack::Stack;
use crate::{
    Addr, Chip8Error, VIndex, DEFAULT_FREQUENCY, FLAG_REGISTER, FONT_SPRITE_HEIGHT,
    FRAME_BUFFER_HEIGHT, FRAME_BUFFER_LENGTH, GP_REGISTERS_COUNT, INDEX_REGISTER_MAX, KEY_COUNT,
    MEMORY_SIZE, PROGRAM_START, STACK_SIZE, TIMER_FREQUENCY,
};

verus! {

/// Relies on rand::thread_rng and rand::Rng::gen_range over `0..=255`: a
/// byte drawn from the thread-local generator; any byte may come back.
#[verifier::external_body]
fn random_byte() -> (r: u8) {
    rand::thread_rng().gen_range(0..=255)
}

proof fn lemma_shifts(a: u8)
    by (bit_vector)
    ensures
        a >> 1u8 == a / 2,
        a & 1u8 == a % 2,
        a << 1u8 == ((a * 2) % 256) as u8,
        a >> 7u8 == a / 128,
{
}

/// Writes V0..=Vx to memory from `start` on.
fn store_registers(ram: &mut Memory, v: &Registers, start: Addr, x: VIndex)
    requires
        x < GP_REGISTERS_COUNT,
        start + x < MEMORY_SIZE,
        old(ram)@.len() == MEMORY_SIZE,
        v@.len() == GP_REGISTERS_COUNT,
    ensures
        final(ram)@ == Seq::new(
            old(ram)@.len(),
            |a: int|
                if start <= a <= start + x {
                    v@[a - start]
                } else {
                    old(ram)@[a]
                },
        ),
{
    let ghost ram0 = ram@;
    let mut j: usize = 0;
    while j <= x
        invariant
            x < GP_REGISTERS_COUNT,
            start + x < MEMORY_SIZE,
            j <= x + 1,
            ram0.len() == MEMORY_SIZE,
            v@.len() == GP_REGISTERS_COUNT,
            ram@ == Seq::new(
                ram0.len(),
                |a: int|
                    if start <= a < start + j {
                        v@[a - start]
                    } else {
                        ram0[a]
                    },
            ),
        decreases x + 1 - j,
    {
        let value = match v.read(j) {
            Ok(value) => value,
            Err(_) => 0,
        };
        let _ = ram.write(start + j, value);
        j = j + 1;
        assert(ram@ =~= Seq::new(
            ram0.len(),
            |a: int|
                if start <= a < start + j {
                    v@[a - start]
                } else {
                    ram0[a]
                },
        ));
    }
}

/// Reads V0..=Vx from memory from `start` on.
fn load_registers(v: &mut Registers, ram: &Memory, start: Addr, x: VIndex)
    requires
        x < GP_REGISTERS_COUNT,
        start + x < MEMORY_SIZE,
        ram@.len() == MEMORY_SIZE,
        old(v)@.len() == GP_REGISTERS_COUNT,
    ensures
        final(v)@ == Seq::new(
            old(v)@.len(),
            |j: int|
                if j <= x {
                    ram@[start + j]
                } else {
                    old(v)@[j]
                },
        ),
{
    let ghost v0 = v@;
    let mut j: usize = 0;
    while j <= x
        invariant
            x < GP_REGISTERS_COUNT,
            start + x < MEMORY_SIZE,
            j <= x + 1,
            ram@.len() == MEMORY_SIZE,
            v0.len() == GP_REGISTERS_COUNT,
            v@ == Seq::new(
                v0.len(),
                |i: int|
                    if i < j {
                        ram@[start + i]
                    } else {
                        v0[i]
                    },
            ),
        decreases x + 1 - j,
    {
        let value = match ram.read(start + j) {
            Ok(value) => value,
            Err(_) => 0,
        };
        let _ = v.write(j, value);
        j = j + 1;
        assert(v@ =~= Seq::new(
            v0.len(),
            |i: int|
                if i < j {
                    ram@[start + i]
                } else {
                    v0[i]
                },
        ));
    }
}

/// The CHIP-8 machine: its state, and the scheduler that moves it through
/// fetch, decode and execute.
pub struct CPU {
    on: bool,
    ram: Memory,
    v: Registers,
    stack: Stack,
    pc: ProgramCounter,
    index_register: IndexRegister,
    dt: DelayTimer,
    st: SoundTimer,
    frame_buff: FrameBuffer,
    keyboard: u16,
    frequency: u32,
    frequency_counter: u32,
    opcode: u16,
    instr: Option<Instruction>,
    state: CpuState,
    refresh: bool,
}

impl View for CPU {
    type V = MachineState;

    closed spec fn view(&self) -> MachineState {
        MachineState {
            on: self.on,
            ram: self.ram@,
            v: self.v@,
            stack: self.stack@,
            pc: self.pc@,
            index: self.index_register@,
            dt: self.dt@,
            st: self.st@,
            frame: self.frame_buff@,
            keyboard: self.keyboard,
            frequency: self.frequency,
            frequency_counter: self.frequency_counter,
            opcode: self.opcode,
            instr: self.instr,
            state: self.state,
            refresh: self.refresh,
        }
    }
}

impl CPU {
    /// A powered-off machine running at `frequency` instructions per second
    /// (600 when `None`).
    pub fn new(frequency: Option<u32>) -> (r: CPU)
        requires
            frequency matches Some(f) ==> f >= TIMER_FREQUENCY,
        ensures
            r@ == initial_state(
                match frequency {
                    Some(f) => f,
                    None => DEFAULT_FREQUENCY,
                },
            ),
            r@.wf(),
    {
        let frequency = match frequency {
            Some(frequency) => frequency,
            None => DEFAULT_FREQUENCY,
        };
        let ram = Memory::new();
        let frame_buff = FrameBuffer::new();
        proof {
            ram.lemma_view_len();
            frame_buff.lemma_view_dims();
        }
        let r = CPU {
            on: false,
            ram,
            v: Registers::new(),
            stack: Stack::new(),
            pc: ProgramCounter::new(),
            index_register: IndexRegister::new(),
            dt: DelayTimer::new(),
            st: SoundTimer::new(),
            frame_buff,
            keyboard: 0,
            frequency,
            frequency_counter: 0,
            opcode: 0,
            instr: None,
            state: CpuState::IDLE,
            refresh: false,
        };
        assert(r@ =~~= initial_state(frequency));
        r
    }

    /// Powers the machine on.
    pub fn power_on(&mut self)
        requires
            old(self)@.wf(),
        ensures
            final(self)@.wf(),
            final(self)@ == (MachineState { on: true, ..old(self)@ }),
    {
        self.on = true;
        assert(self@ =~~= MachineState { on: true, ..old(self)@ });
    }

    /// Powers the machine off; the next cycle returns it to idle.
    pub fn power_off(&mut self)
        requires
            old(self)@.wf(),
        ensures
            final(self)@.wf(),
            final(self)@ == (MachineState { on: false, ..old(self)@ }),
    {
        self.on = false;
        assert(self@ =~~= MachineState { on: false, ..old(self)@ });
    }

    /// Places a program image at the load address; fails, changing nothing,
    /// where it does not fit in memory.
    pub fn loadb(&mut self, image: &[u8]) -> (r: Result<(), Chip8Error>)
        requires
            old(self)@.wf(),
        ensures
            final(self)@.wf(),
            outcome(old(self)@, final(self)@, r, load_spec(old(self)@, image@)),
    {
        if image.len() > MEMORY_SIZE - PROGRAM_START {
            return Err(Chip8Error::ImageTooLarge);
        }
        let ghost s0 = self@;
        let mut i: usize = 0;
        while i < image.len()
            invariant
                PROGRAM_START + image@.len() <= MEMORY_SIZE,
                i <= image@.len(),
                s0.wf(),
                self@ == (MachineState {
                    ram: Seq::new(
                        s0.ram.len(),
                        |a: int|
                            if PROGRAM_START <= a < PROGRAM_START + i {
                                image@[a - PROGRAM_START]
                            } else {
                                s0.ram[a]
                            },
                    ),
                    ..s0
                }),
            decreases image@.len() - i,
        {
            let _ = self.ram.write(PROGRAM_START + i, image[i]);
            i = i + 1;
            assert(self@ =~~= MachineState {
                ram: Seq::new(
                    s0.ram.len(),
                    |a: int|
                        if PROGRAM_START <= a < PROGRAM_START + i {
                            image@[a - PROGRAM_START]
                        } else {
                            s0.ram[a]
                        },
                ),
                ..s0
            });
        }
        assert(self@ =~~= MachineState { ram: loaded(s0.ram, image@), ..s0 });
        Ok(())
    }

    /// Places the program that a hexadecimal text describes (see
    /// `parse_hex_program`) at the load address; fails, changing nothing,
    /// where the text is malformed or the image does not fit.
    pub fn loadt(&mut self, text: &[u8]) -> (r: Result<(), Chip8Error>)
        requires
            old(self)@.wf(),
        ensures
            final(self)@.wf(),
            hex_image(text@) is None ==> r == Err::<(), Chip8Error>(Chip8Error::MalformedHex)
                && final(self)@ == old(self)@,
            hex_image(text@) is Some ==> outcome(
                old(self)@,
                final(self)@,
                r,
                load_spec(old(self)@, hex_image(text@)->0),
            ),
    {
        let image = match parse_hex_program(text) {
            Ok(image) => image,
            Err(e) => {
                return Err(e);
            },
        };
        self.loadb(image.as_slice())
    }

    /// Advances the cycle phase: idle while powered off, otherwise
    /// IDLE -> FETCH -> DECODE -> EXEC -> FETCH.
    pub fn next_cycle(&mut self) -> (r: Result<(), Chip8Error>)
        requires
            old(self)@.wf(),
        ensures
            final(self)@.wf(),
            r is Ok,
            final(self)@ == (MachineState {
                state: next_phase(old(self)@.on, old(self)@.state),
                ..old(self)@
            }),
    {
        if !self.on {
            self.state = CpuState::IDLE;
        } else {
            self.state = match self.state {
                CpuState::IDLE => CpuState::FETCH,
                CpuState::FETCH => CpuState::DECODE,
                CpuState::DECODE => CpuState::EXEC,
                CpuState::EXEC => CpuState::FETCH,
            };
        }
        assert(self@ =~~= MachineState {
            state: next_phase(old(self)@.on, old(self)@.state),
            ..old(self)@
        });
        Ok(())
    }
}

impl CPU {
    /// Value of register `x`.
    fn reg(&self, x: VIndex) -> (r: u8)
        requires
            self@.wf(),
            x < GP_REGISTERS_COUNT,
        ensures
            r == self@.v[x as int],
    {
        match self.v.read(x) {
            Ok(value) => value,
            Err(_) => 0,
        }
    }

    /// Whether the program counter can move `by` bytes forward.
    fn can_advance(&self, by: usize) -> (r: bool)
        requires
            self@.wf(),
            by <= 4,
        ensures
            r == (self@.pc + by < MEMORY_SIZE),
    {
        self.pc.get() + by < MEMORY_SIZE
    }

    /// Moves the program counter `by` bytes forward, or fails changing nothing.
    fn advance_pc(&mut self, by: usize) -> (r: Result<(), Chip8Error>)
        requires
            old(self)@.wf(),
            by == 2 || by == 4,
        ensures
            final(self)@.wf(),
            outcome(old(self)@, final(self)@, r, advance(old(self)@, by as int)),
    {
        if !self.can_advance(by) {
            return Err(Chip8Error::ProgramCounterOverflow);
        }
        let _ = self.pc.incr();
        if by == 4 {
            let _ = self.pc.incr();
        }
        assert(self@ =~~= MachineState { pc: (old(self)@.pc + by) as Addr, ..old(self)@ });
        Ok(())
    }

    /// Moves on, skipping one instruction where `cond` holds.
    fn skip_when(&mut self, cond: bool) -> (r: Result<(), Chip8Error>)
        requires
            old(self)@.wf(),
        ensures
            final(self)@.wf(),
            outcome(old(self)@, final(self)@, r, skip_if(old(self)@, cond)),
    {
        self.advance_pc(if cond { 4 } else { 2 })
    }

    /// Sets Vx to `value` and, if given, VF to `flag`, then moves on; fails,
    /// changing nothing, where the program counter cannot move on.
    fn finish_alu(&mut self, x: VIndex, value: u8, flag: Option<u8>) -> (r: Result<(), Chip8Error>)
        requires
            old(self)@.wf(),
            x < GP_REGISTERS_COUNT,
        ensures
            final(self)@.wf(),
            outcome(
                old(self)@,
                final(self)@,
                r,
                match flag {
                    Some(f) => next(set_reg_flag(old(self)@, x as int, value, f)),
                    None => next(set_reg(old(self)@, x as int, value)),
                },
            ),
    {
        if !self.can_advance(2) {
            return Err(Chip8Error::ProgramCounterOverflow);
        }
        let _ = self.v.write(x, value);
        if let Some(f) = flag {
            let _ = self.v.write(FLAG_REGISTER, f);
        }
        let _ = self.pc.incr();
        proof {
            let expected = match flag {
                Some(f) => set_reg_flag(old(self)@, x as int, value, f),
                None => set_reg(old(self)@, x as int, value),
            };
            assert(self@ =~~= MachineState { pc: (old(self)@.pc + 2) as Addr, ..expected });
        }
        Ok(())
    }

    /// Runs a control-flow instruction: SYS, CLS, RET, JP, CALL, JP V0 and the skips.
    fn execute_flow(&mut self, instr: Instruction) -> (r: Result<(), Chip8Error>)
        requires
            old(self)@.wf(),
            instr matches Instruction::SYS(_) || instr matches Instruction::CLS || instr matches Instruction::RET
                || instr matches Instruction::JP(_) || instr matches Instruction::CALL(_)
                || instr matches Instruction::JP_V0(_) || instr matches Instruction::SEi(_, _)
                || instr matches Instruction::SNEi(_, _) || instr matches Instruction::SE(_, _)
                || instr matches Instruction::SNE(_, _) || instr matches Instruction::SKP(_)
                || instr matches Instruction::SKNP(_),
        ensures
            final(self)@.wf(),
            forall|random: u8|
                outcome(old(self)@, final(self)@, r, #[trigger] execute_spec(old(self)@, instr, random)),
    {
        let ghost s0 = self@;
        match instr {
            Instruction::SYS(_) => Err(Chip8Error::UnsupportedInstruction),
            Instruction::CLS => {
                if !self.can_advance(2) {
                    return Err(Chip8Error::ProgramCounterOverflow);
                }
                self.frame_buff.clear();
                self.refresh = true;
                let _ = self.pc.incr();
                proof {
                    self.frame_buff.lemma_view_dims();
                }
                assert(self@ =~~= MachineState {
                    frame: crate::components::blank_frame(),
                    refresh: true,
                    pc: (s0.pc + 2) as Addr,
                    ..s0
                });
                Ok(())
            },
            Instruction::RET => {
                let top = match self.stack.peek() {
                    Some(top) => top,
                    None => {
                        return Err(Chip8Error::StackUnderflow);
                    },
                };
                if top >= MEMORY_SIZE {
                    return Err(Chip8Error::ProgramCounterOutOfMemory);
                }
                let _ = self.stack.pop();
                let _ = self.pc.change(top);
                assert(self@ =~~= MachineState { stack: s0.stack.drop_last(), pc: top, ..s0 });
                Ok(())
            },
            Instruction::JP(addr) => {
                let r = self.pc.change(addr);
                assert(r is Ok ==> self@ =~~= MachineState { pc: addr, ..s0 });
                r
            },
            Instruction::CALL(addr) => {
                if self.stack.depth() >= STACK_SIZE {
                    return Err(Chip8Error::StackOverflow);
                }
                if !self.can_advance(2) {
                    return Err(Chip8Error::ProgramCounterOverflow);
                }
                if addr >= MEMORY_SIZE {
                    return Err(Chip8Error::ProgramCounterOutOfMemory);
                }
                let ret = self.pc.get() + 2;
                let _ = self.stack.push(ret);
                let _ = self.pc.change(addr);
                assert(self@ =~~= MachineState { stack: s0.stack.push(ret), pc: addr, ..s0 });
                Ok(())
            },
            Instruction::JP_V0(addr) => {
                let v0 = self.reg(0);
                if addr >= MEMORY_SIZE || addr + v0 as usize >= MEMORY_SIZE {
                    return Err(Chip8Error::ProgramCounterOutOfMemory);
                }
                let _ = self.pc.change(addr + v0 as usize);
                assert(self@ =~~= MachineState { pc: (addr + v0) as Addr, ..s0 });
                Ok(())
            },
            Instruction::SEi(x, kk) => {
                if x >= GP_REGISTERS_COUNT {
                    return Err(Chip8Error::RegisterOutOfRange);
                }
                let cond = self.reg(x) == kk;
                self.skip_when(cond)
            },
            Instruction::SNEi(x, kk) => {
                if x >= GP_REGISTERS_COUNT {
                    return Err(Chip8Error::RegisterOutOfRange);
                }
                let cond = self.reg(x) != kk;
                self.skip_when(cond)
            },
            Instruction::SE(x, y) => {
                if x >= GP_REGISTERS_COUNT || y >= GP_REGISTERS_COUNT {
                    return Err(Chip8Error::RegisterOutOfRange);
                }
                let cond = self.reg(x) == self.reg(y);
                self.skip_when(cond)
            },
            Instruction::SNE(x, y) => {
                if x >= GP_REGISTERS_COUNT || y >= GP_REGISTERS_COUNT {
                    return Err(Chip8Error::RegisterOutOfRange);
                }
                let cond = self.reg(x) != self.reg(y);
                self.skip_when(cond)
            },
            Instruction::SKP(x) => {
                if x >= GP_REGISTERS_COUNT {
                    return Err(Chip8Error::RegisterOutOfRange);
                }
                let key = self.reg(x);
                let cond = key < 16 && (self.keyboard >> key as u16) & 1 == 1;
                self.skip_when(cond)
            },
            Instruction::SKNP(x) => {
                if x >= GP_REGISTERS_COUNT {
                    return Err(Chip8Error::RegisterOutOfRange);
                }
                let key = self.reg(x);
                let cond = !(key < 16 && (self.keyboard >> key as u16) & 1 == 1);
                self.skip_when(cond)
            },
            _ => Err(Chip8Error::UnsupportedInstruction),
        }
    }
}

impl CPU {
    /// Runs an instruction that sets one register: LD, ADD, the logic and
    /// shift operations, SUB, SUBN, RND and LD Vx, DT.
    fn execute_alu(&mut self, instr: Instruction, random: u8) -> (r: Result<(), Chip8Error>)
        requires
            old(self)@.wf(),
            instr matches Instruction::LDi(_, _) || instr matches Instruction::ADDi(_, _)
                || instr matches Instruction::LD(_, _) || instr matches Instruction::OR(_, _)
                || instr matches Instruction::AND(_, _) || instr matches Instruction::XOR(_, _)
                || instr matches Instruction::ADD(_, _) || instr matches Instruction::SUB(_, _)
                || instr matches Instruction::SUBN(_, _) || instr matches Instruction::SHR(_)
                || instr matches Instruction::SHL(_) || instr matches Instruction::RNDi(_, _)
                || instr matches Instruction::LD_DT(_),
        ensures
            final(self)@.wf(),
            outcome(old(self)@, final(self)@, r, execute_spec(old(self)@, instr, random)),
    {
        match instr {
            Instruction::LDi(x, kk) => {
                if x >= GP_REGISTERS_COUNT {
                    return Err(Chip8Error::RegisterOutOfRange);
                }
                self.finish_alu(x, kk, None)
            },
            Instruction::ADDi(x, kk) => {
                if x >= GP_REGISTERS_COUNT {
                    return Err(Chip8Error::RegisterOutOfRange);
                }
                let sum = self.reg(x) as u16 + kk as u16;
                self.finish_alu(x, (sum % 256) as u8, None)
            },
            Instruction::LD(x, y) => {
                if x >= GP_REGISTERS_COUNT || y >= GP_REGISTERS_COUNT {
                    return Err(Chip8Error::RegisterOutOfRange);
                }
                let b = self.reg(y);
                self.finish_alu(x, b, None)
            },
            Instruction::OR(x, y) => {
                if x >= GP_REGISTERS_COUNT || y >= GP_REGISTERS_COUNT {
                    return Err(Chip8Error::RegisterOutOfRange);
                }
                let value = self.reg(x) | self.reg(y);
                self.finish_alu(x, value, None)
            },
            Instruction::AND(x, y) => {
                if x >= GP_REGISTERS_COUNT || y >= GP_REGISTERS_COUNT {
                    return Err(Chip8Error::RegisterOutOfRange);
                }
                let value = self.reg(x) & self.reg(y);
                self.finish_alu(x, value, None)
            },
            Instruction::XOR(x, y) => {
                if x >= GP_REGISTERS_COUNT || y >= GP_REGISTERS_COUNT {
                    return Err(Chip8Error::RegisterOutOfRange);
                }
                let value = self.reg(x) ^ self.reg(y);
                self.finish_alu(x, value, None)
            },
            Instruction::ADD(x, y) => {
                if x >= GP_REGISTERS_COUNT || y >= GP_REGISTERS_COUNT {
                    return Err(Chip8Error::RegisterOutOfRange);
                }
                let sum = self.reg(x) as u16 + self.reg(y) as u16;
                let carry: u8 = if sum > 0xFF {
                    1
                } else {
                    0
                };
                self.finish_alu(x, (sum % 256) as u8, Some(carry))
            },
            Instruction::SUB(x, y) => {
                if x >= GP_REGISTERS_COUNT || y >= GP_REGISTERS_COUNT {
                    return Err(Chip8Error::RegisterOutOfRange);
                }
                let a = self.reg(x);
                let b = self.reg(y);
                let no_borrow: u8 = if a >= b {
                    1
                } else {
                    0
                };
                let diff = ((a as u16 + 256 - b as u16) % 256) as u8;
                self.finish_alu(x, diff, Some(no_borrow))
            },
            Instruction::SUBN(x, y) => {
                if x >= GP_REGISTERS_COUNT || y >= GP_REGISTERS_COUNT {
                    return Err(Chip8Error::RegisterOutOfRange);
                }
                let a = self.reg(x);
                let b = self.reg(y);
                let no_borrow: u8 = if b >= a {
                    1
                } else {
                    0
                };
                let diff = ((b as u16 + 256 - a as u16) % 256) as u8;
                self.finish_alu(x, diff, Some(no_borrow))
            },
            Instruction::SHR(x) => {
                if x >= GP_REGISTERS_COUNT {
                    return Err(Chip8Error::RegisterOutOfRange);
                }
                let a = self.reg(x);
                proof {
                    lemma_shifts(a);
                }
                self.finish_alu(x, a >> 1u8, Some(a & 1u8))
            },
            Instruction::SHL(x) => {
                if x >= GP_REGISTERS_COUNT {
                    return Err(Chip8Error::RegisterOutOfRange);
                }
                let a = self.reg(x);
                proof {
                    lemma_shifts(a);
                }
                self.finish_alu(x, a << 1u8, Some(a >> 7u8))
            },
            Instruction::RNDi(x, kk) => {
                if x >= GP_REGISTERS_COUNT {
                    return Err(Chip8Error::RegisterOutOfRange);
                }
                self.finish_alu(x, random & kk, None)
            },
            Instruction::LD_DT(x) => {
                if x >= GP_REGISTERS_COUNT {
                    return Err(Chip8Error::RegisterOutOfRange);
                }
                let value = self.delay_timer();
                self.finish_alu(x, value, None)
            },
            _ => Err(Chip8Error::UnsupportedInstruction),
        }
    }
}

impl CPU {
    /// Runs an instruction on the index register, memory, timers, keys or display:
    /// LD I, ADD I, LD F, LD B, the block stores and loads, timer loads, LD K and DRW.
    fn execute_memory(&mut self, instr: Instruction) -> (r: Result<(), Chip8Error>)
        requires
            old(self)@.wf(),
            instr matches Instruction::LD_I(_) || instr matches Instruction::ADD_I(_)
                || instr matches Instruction::LD_F(_) || instr matches Instruction::LD_B(_)
                || instr matches Instruction::ST_UNTIL(_) || instr matches Instruction::LD_UNTIL(_)
                || instr matches Instruction::SET_DT(_) || instr matches Instruction::SET_ST(_)
                || instr matches Instruction::LD_K(_) || instr matches Instruction::DRW(_, _, _),
        ensures
            final(self)@.wf(),
            forall|random: u8|
                outcome(old(self)@, final(self)@, r, #[trigger] execute_spec(old(self)@, instr, random)),
    {
        let ghost s0 = self@;
        match instr {
            Instruction::LD_I(addr) => {
                if addr > INDEX_REGISTER_MAX {
                    return Err(Chip8Error::IndexOutOfRange);
                }
                if !self.can_advance(2) {
                    return Err(Chip8Error::ProgramCounterOverflow);
                }
                let _ = self.index_register.set(addr);
                let _ = self.pc.incr();
                assert(self@ =~~= MachineState { index: addr, pc: (s0.pc + 2) as Addr, ..s0 });
                Ok(())
            },
            Instruction::ADD_I(x) => {
                if x >= GP_REGISTERS_COUNT {
                    return Err(Chip8Error::RegisterOutOfRange);
                }
                if !self.can_advance(2) {
                    return Err(Chip8Error::ProgramCounterOverflow);
                }
                let sum = (self.index() + self.reg(x) as usize) % (INDEX_REGISTER_MAX
                    + 1);
                let _ = self.index_register.set(sum);
                let _ = self.pc.incr();
                assert(self@ =~~= MachineState { index: sum, pc: (s0.pc + 2) as Addr, ..s0 });
                Ok(())
            },
            Instruction::LD_F(x) => {
                if x >= GP_REGISTERS_COUNT {
                    return Err(Chip8Error::RegisterOutOfRange);
                }
                if !self.can_advance(2) {
                    return Err(Chip8Error::ProgramCounterOverflow);
                }
                let digit = (self.reg(x) % 16) as usize;
                let _ = self.index_register.set(digit * FONT_SPRITE_HEIGHT);
                let _ = self.pc.incr();
                assert(self@ =~~= MachineState {
                    index: (digit * FONT_SPRITE_HEIGHT) as Addr,
                    pc: (s0.pc + 2) as Addr,
                    ..s0
                });
                Ok(())
            },
            Instruction::LD_B(x) => {
                if x >= GP_REGISTERS_COUNT {
                    return Err(Chip8Error::RegisterOutOfRange);
                }
                let i = self.index();
                if i + 3 > MEMORY_SIZE {
                    return Err(Chip8Error::MemoryOutOfRange);
                }
                if !self.can_advance(2) {
                    return Err(Chip8Error::ProgramCounterOverflow);
                }
                let value = self.reg(x);
                let _ = self.ram.write(i, value / 100);
                let _ = self.ram.write(i + 1, (value / 10) % 10);
                let _ = self.ram.write(i + 2, value % 10);
                let _ = self.pc.incr();
                let ghost d = bcd(value);
                assert(self@ =~~= MachineState {
                    ram: s0.ram.update(i as int, d[0]).update(i + 1, d[1]).update(i + 2, d[2]),
                    pc: (s0.pc + 2) as Addr,
                    ..s0
                });
                Ok(())
            },
            Instruction::ST_UNTIL(x) => {
                if x >= GP_REGISTERS_COUNT {
                    return Err(Chip8Error::RegisterOutOfRange);
                }
                let i = self.index();
                if i + x >= MEMORY_SIZE {
                    return Err(Chip8Error::MemoryOutOfRange);
                }
                if !self.can_advance(2) {
                    return Err(Chip8Error::ProgramCounterOverflow);
                }
                store_registers(&mut self.ram, &self.v, i, x);
                let _ = self.pc.incr();
                assert(self@ =~~= MachineState {
                    ram: Seq::new(
                        s0.ram.len(),
                        |a: int|
                            if s0.index <= a <= s0.index + x {
                                s0.v[a - s0.index]
                            } else {
                                s0.ram[a]
                            },
                    ),
                    pc: (s0.pc + 2) as Addr,
                    ..s0
                });
                Ok(())
            },
            Instruction::LD_UNTIL(x) => {
                if x >= GP_REGISTERS_COUNT {
                    return Err(Chip8Error::RegisterOutOfRange);
                }
                let i = self.index();
                if i + x >= MEMORY_SIZE {
                    return Err(Chip8Error::MemoryOutOfRange);
                }
                if !self.can_advance(2) {
                    return Err(Chip8Error::ProgramCounterOverflow);
                }
                load_registers(&mut self.v, &self.ram, i, x);
                let _ = self.pc.incr();
                assert(self@ =~~= MachineState {
                    v: Seq::new(
                        s0.v.len(),
                        |j: int|
                            if j <= x {
                                s0.ram[s0.index + j]
                            } else {
                                s0.v[j]
                            },
                    ),
                    pc: (s0.pc + 2) as Addr,
                    ..s0
                });
                Ok(())
            },
            Instruction::SET_DT(x) => {
                if x >= GP_REGISTERS_COUNT {
                    return Err(Chip8Error::RegisterOutOfRange);
                }
                if !self.can_advance(2) {
                    return Err(Chip8Error::ProgramCounterOverflow);
                }
                let value = self.reg(x);
                let _ = self.dt.set(value);
                let _ = self.pc.incr();
                assert(self@ =~~= MachineState { dt: value, pc: (s0.pc + 2) as Addr, ..s0 });
                Ok(())
            },
            Instruction::SET_ST(x) => {
                if x >= GP_REGISTERS_COUNT {
                    return Err(Chip8Error::RegisterOutOfRange);
                }
                if !self.can_advance(2) {
                    return Err(Chip8Error::ProgramCounterOverflow);
                }
                let value = self.reg(x);
                let _ = self.st.set(value);
                let _ = self.pc.incr();
                assert(self@ =~~= MachineState { st: value, pc: (s0.pc + 2) as Addr, ..s0 });
                Ok(())
            },
            Instruction::LD_K(x) => {
                if x >= GP_REGISTERS_COUNT {
                    return Err(Chip8Error::RegisterOutOfRange);
                }
                let mask = self.keyboard;
                let mut k: usize = 0;
                while k < KEY_COUNT && (mask >> k as u16) & 1 != 1
                    invariant
                        k <= KEY_COUNT,
                        first_key(mask) == first_key_from(mask, k as int),
                    decreases KEY_COUNT - k,
                {
                    k = k + 1;
                }
                if k == KEY_COUNT {
                    return Ok(());
                }
                assert(first_key(mask) == k);
                self.finish_alu(x, k as u8, None)
            },
            Instruction::DRW(x, y, n) => {
                if x >= GP_REGISTERS_COUNT || y >= GP_REGISTERS_COUNT {
                    return Err(Chip8Error::RegisterOutOfRange);
                }
                if n > 15 {
                    return Err(Chip8Error::OperandOutOfRange);
                }
                let i = self.index();
                if i + n as usize > MEMORY_SIZE {
                    return Err(Chip8Error::MemoryOutOfRange);
                }
                if !self.can_advance(2) {
                    return Err(Chip8Error::ProgramCounterOverflow);
                }
                let sprite = match self.ram.read_range(i, n as usize) {
                    Ok(sprite) => sprite,
                    Err(e) => {
                        return Err(e);
                    },
                };
                let x0 = self.reg(x) as usize % (FRAME_BUFFER_LENGTH * 8);
                let y0 = self.reg(y) as usize % FRAME_BUFFER_HEIGHT;
                let hit = self.frame_buff.draw_sprite(x0, y0, sprite.as_slice());
                let flag: u8 = if hit {
                    1
                } else {
                    0
                };
                let _ = self.v.write(FLAG_REGISTER, flag);
                self.refresh = true;
                let _ = self.pc.incr();
                proof {
                    self.frame_buff.lemma_view_dims();
                }
                assert(self@ =~~= MachineState {
                    frame: crate::components::drawn(s0.frame, sprite@, x0 as int, y0 as int),
                    v: s0.v.update(FLAG_REGISTER as int, flag),
                    refresh: true,
                    pc: (s0.pc + 2) as Addr,
                    ..s0
                });
                Ok(())
            },
            _ => Err(Chip8Error::UnsupportedInstruction),
        }
    }
}

impl CPU {
    /// Runs `instr` on the machine, with `random` as the byte that RND draws.
    /// On an error nothing changes.
    pub fn execute_instruction(&mut self, instr: Instruction, random: u8) -> (r: Result<(), Chip8Error>)
        requires
            old(self)@.wf(),
        ensures
            final(self)@.wf(),
            outcome(old(self)@, final(self)@, r, execute_spec(old(self)@, instr, random)),
    {
        match instr {
            Instruction::SYS(_) | Instruction::CLS | Instruction::RET | Instruction::JP(_)
            | Instruction::CALL(_) | Instruction::JP_V0(_) | Instruction::SEi(_, _)
            | Instruction::SNEi(_, _) | Instruction::SE(_, _) | Instruction::SNE(_, _)
            | Instruction::SKP(_) | Instruction::SKNP(_) => {
                let r = self.execute_flow(instr);
                assert(outcome(old(self)@, self@, r, execute_spec(old(self)@, instr, random)));
                r
            },
            Instruction::LD_I(_) | Instruction::ADD_I(_) | Instruction::LD_F(_)
            | Instruction::LD_B(_) | Instruction::ST_UNTIL(_) | Instruction::LD_UNTIL(_)
            | Instruction::SET_DT(_) | Instruction::SET_ST(_) | Instruction::LD_K(_)
            | Instruction::DRW(_, _, _) => {
                let r = self.execute_memory(instr);
                assert(outcome(old(self)@, self@, r, execute_spec(old(self)@, instr, random)));
                r
            },
            _ => self.execute_alu(instr, random),
        }
    }

    /// Fetch phase: reads the big-endian opcode at the program counter.
    pub fn fetch(&mut self) -> (r: Result<(), Chip8Error>)
        requires
            old(self)@.wf(),
        ensures
            final(self)@.wf(),
            outcome(old(self)@, final(self)@, r, fetch_spec(old(self)@)),
    {
        let pc_value = self.pc.get();
        if pc_value + 1 >= MEMORY_SIZE {
            return Err(Chip8Error::MemoryOutOfRange);
        }
        let high = match self.ram.read(pc_value) {
            Ok(b) => b,
            Err(e) => {
                return Err(e);
            },
        };
        let low = match self.ram.read(pc_value + 1) {
            Ok(b) => b,
            Err(e) => {
                return Err(e);
            },
        };
        self.opcode = high as u16 * 256 + low as u16;
        assert(self@ =~~= MachineState {
            opcode: (old(self)@.ram[pc_value as int] * 256 + old(self)@.ram[pc_value + 1]) as u16,
            ..old(self)@
        });
        Ok(())
    }

    /// Decode phase: turns the fetched opcode into the current instruction.
    pub fn decode(&mut self) -> (r: Result<(), Chip8Error>)
        requires
            old(self)@.wf(),
        ensures
            final(self)@.wf(),
            outcome(old(self)@, final(self)@, r, decode_step_spec(old(self)@)),
    {
        let instr = match decode_opcode(self.opcode) {
            Ok(instr) => instr,
            Err(e) => {
                return Err(e);
            },
        };
        self.instr = Some(instr);
        assert(self@ =~~= MachineState { instr: Some(instr), ..old(self)@ });
        Ok(())
    }

    /// Execute phase with `random` as the byte that RND draws.
    pub fn execute_with(&mut self, random: u8) -> (r: Result<(), Chip8Error>)
        requires
            old(self)@.wf(),
        ensures
            final(self)@.wf(),
            outcome(old(self)@, final(self)@, r, execute_step_spec(old(self)@, random)),
    {
        match self.instr {
            Some(instr) => self.execute_instruction(instr, random),
            None => self.advance_pc(2),
        }
    }

    /// Execute phase: runs the current instruction, drawing a random byte for RND.
    pub fn execute(&mut self) -> (r: Result<(), Chip8Error>)
        requires
            old(self)@.wf(),
        ensures
            final(self)@.wf(),
            exists|random: u8|
                outcome(old(self)@, final(self)@, r, #[trigger] execute_step_spec(old(self)@, random)),
    {
        let random = random_byte();
        self.execute_with(random)
    }

    /// One scheduler tick with `random` as the byte that RND draws: the
    /// frequency counter advances and the timers count down when it wraps,
    /// then the current phase's action runs. An error of the action leaves
    /// the timers' part in place.
    pub fn simulate_with(&mut self, random: u8) -> (r: Result<(), Chip8Error>)
        requires
            old(self)@.wf(),
        ensures
            final(self)@.wf(),
            outcome(
                timers_tick(old(self)@),
                final(self)@,
                r,
                phase_action(timers_tick(old(self)@), random),
            ),
    {
        let period = self.frequency / TIMER_FREQUENCY;
        self.frequency_counter = (self.frequency_counter + 1) % period;
        if self.frequency_counter == 0 {
            let _ = self.dt.decrease();
            let _ = self.st.decrease();
        }
        assert(self@ =~~= timers_tick(old(self)@));
        match self.state {
            CpuState::IDLE => Ok(()),
            CpuState::FETCH => self.fetch(),
            CpuState::DECODE => self.decode(),
            CpuState::EXEC => self.execute_with(random),
        }
    }

    /// One scheduler tick, drawing a random byte for RND. Pacing to the
    /// configured frequency is the caller's: see `pacing_micros`.
    pub fn simulate(&mut self) -> (r: Result<(), Chip8Error>)
        requires
            old(self)@.wf(),
        ensures
            final(self)@.wf(),
            exists|random: u8|
                outcome(
                    timers_tick(old(self)@),
                    final(self)@,
                    r,
                    #[trigger] phase_action(timers_tick(old(self)@), random),
                ),
    {
        let random = random_byte();
        self.simulate_with(random)
    }

    /// Microseconds that one tick should take at the configured frequency.
    pub fn pacing_micros(&self) -> (r: u64)
        requires
            self@.wf(),
        ensures
            r == 1_000_000int / (self@.frequency as int),
    {
        1_000_000u64 / self.frequency as u64
    }
}

impl CPU {
    /// Whether the machine is powered on.
    pub fn is_on(&self) -> (r: bool)
        ensures
            r == self@.on,
    {
        self.on
    }

    /// Current phase of the cycle.
    pub fn state(&self) -> (r: CpuState)
        ensures
            r == self@.state,
    {
        self.state
    }

    /// Value of register `index`; fails where there is no such register.
    pub fn register(&self, index: VIndex) -> (r: Result<u8, Chip8Error>)
        requires
            self@.wf(),
        ensures
            index < GP_REGISTERS_COUNT ==> r == Ok::<u8, Chip8Error>(self@.v[index as int]),
            index >= GP_REGISTERS_COUNT ==> r == Err::<u8, Chip8Error>(Chip8Error::RegisterOutOfRange),
    {
        self.v.read(index)
    }

    /// Byte at `addr`; fails where it lies outside memory.
    pub fn memory(&self, addr: Addr) -> (r: Result<u8, Chip8Error>)
        requires
            self@.wf(),
        ensures
            addr < MEMORY_SIZE ==> r == Ok::<u8, Chip8Error>(self@.ram[addr as int]),
            addr >= MEMORY_SIZE ==> r == Err::<u8, Chip8Error>(Chip8Error::MemoryOutOfRange),
    {
        self.ram.read(addr)
    }

    /// Address of the current instruction.
    pub fn pc(&self) -> (r: Addr)
        ensures
            r == self@.pc,
    {
        self.pc.get()
    }

    /// Value of the index register I.
    pub fn index_register(&self) -> (r: Addr)
        ensures
            r == self@.index,
    {
        self.index()
    }

    /// Value of the index register I.
    fn index(&self) -> (r: Addr)
        ensures
            r == self@.index,
            r <= INDEX_REGISTER_MAX,
    {
        match self.index_register.get() {
            Ok(i) => i,
            Err(_) => 0,
        }
    }

    /// Value of the delay timer.
    pub fn delay_timer(&self) -> (r: u8)
        ensures
            r == self@.dt,
    {
        match self.dt.get() {
            Ok(value) => value,
            Err(_) => 0,
        }
    }

    /// Value of the sound timer.
    pub fn sound_timer(&self) -> (r: u8)
        ensures
            r == self@.st,
    {
        match self.st.get() {
            Ok(value) => value,
            Err(_) => 0,
        }
    }

    /// Whether the tone is on: the sound timer is above zero.
    pub fn sound(&self) -> (r: bool)
        ensures
            r == (self@.st > 0),
    {
        self.st.sound()
    }

    /// The most recently pushed return address, if any.
    pub fn stack_top(&self) -> (r: Option<Addr>)
        ensures
            self@.stack.len() > 0 ==> r == Some(self@.stack.last()),
            self@.stack.len() == 0 ==> r is None,
    {
        self.stack.peek()
    }

    /// Number of return addresses on the stack.
    pub fn stack_depth(&self) -> (r: usize)
        ensures
            r == self@.stack.len(),
    {
        self.stack.depth()
    }

    /// The last fetched opcode.
    pub fn opcode(&self) -> (r: u16)
        ensures
            r == self@.opcode,
    {
        self.opcode
    }

    /// The last decoded instruction.
    pub fn instruction(&self) -> (r: Option<Instruction>)
        ensures
            r == self@.instr,
    {
        self.instr
    }

    /// The display.
    pub fn frame(&self) -> (r: &FrameBuffer)
        ensures
            r@ == self@.frame,
    {
        &self.frame_buff
    }

    /// The display's packed rows, for a renderer.
    pub fn get_image(&self) -> (r: &[[u8; FRAME_BUFFER_LENGTH]; FRAME_BUFFER_HEIGHT])
        ensures
            forall|y: int, x: int|
                0 <= y < FRAME_BUFFER_HEIGHT && 0 <= x < frame_width() ==> self@.frame[y][x]
                    == crate::components::bit_on(r@[y]@[x / 8], x % 8),
    {
        self.frame_buff.rows()
    }

    /// Whether the display changed since the last call; clears that mark.
    pub fn consume_refresh(&mut self) -> (r: bool)
        requires
            old(self)@.wf(),
        ensures
            final(self)@.wf(),
            r == old(self)@.refresh,
            final(self)@ == (MachineState { refresh: false, ..old(self)@ }),
    {
        let r = self.refresh;
        self.refresh = false;
        assert(self@ =~~= MachineState { refresh: false, ..old(self)@ });
        r
    }

    /// The held keys, bit `k` for key `k`.
    pub fn keyboard(&self) -> (r: u16)
        ensures
            r == self@.keyboard,
    {
        self.keyboard
    }

    /// Records which keys are held, bit `k` for key `k`.
    pub fn set_keyboard(&mut self, mask: u16)
        requires
            old(self)@.wf(),
        ensures
            final(self)@.wf(),
            final(self)@ == (MachineState { keyboard: mask, ..old(self)@ }),
    {
        self.keyboard = mask;
        assert(self@ =~~= MachineState { keyboard: mask, ..old(self)@ });
    }

    /// Configured instructions per second.
    pub fn frequency(&self) -> (r: u32)
        ensures
            r == self@.frequency,
    {
        self.frequency
    }
}

} // verus!
