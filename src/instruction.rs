use vstd::prelude::*;

use crate::{Addr, Chip8Error, VIndex, VValue};

verus! {

/// A decoded CHIP-8 instruction. `x` and `y` operands are register indices,
/// `kk` operands are byte constants and `addr` operands are 12-bit addresses.
#[allow(non_camel_case_types)]
#[derive(Debug, Clone, Copy, PartialEq, Eq, Structural)]
pub enum Instruction {
    /// 0nnn: call a machine-code routine; always fails, as unsupported.
    SYS(Addr),
    /// 00E0: clear the display.
    CLS,
    /// 00EE: return from a subroutine.
    RET,
    /// 1nnn: jump to addr.
    JP(Addr),
    /// 2nnn: call the subroutine at addr.
    CALL(Addr),
    /// 3xkk: skip the next instruction if Vx == kk.
    SEi(VIndex, VValue),
    /// 4xkk: skip the next instruction if Vx != kk.
    SNEi(VIndex, VValue),
    /// 6xkk: Vx := kk.
    LDi(VIndex, VValue),
    /// 7xkk: Vx := Vx + kk, wrapping, flag untouched.
    ADDi(VIndex, VValue),
    /// 5xy0: skip the next instruction if Vx == Vy.
    SE(VIndex, VIndex),
    /// 8xy0: Vx := Vy.
    LD(VIndex, VIndex),
    /// 8xy1: Vx := Vx | Vy.
    OR(VIndex, VIndex),
    /// 8xy2: Vx := Vx & Vy.
    AND(VIndex, VIndex),
    /// 8xy3: Vx := Vx ^ Vy.
    XOR(VIndex, VIndex),
    /// 8xy4: Vx := Vx + Vy, VF := carry (0 or 1). The flag is written after the result.
    ADD(VIndex, VIndex),
    /// 8xy5: Vx := Vx - Vy, wrapping, VF := 1 if Vx >= Vy before, else 0.
    SUB(VIndex, VIndex),
    /// 8xy6: Vx := Vx >> 1, VF := the bit shifted out; `y` is ignored.
    SHR(VIndex),
    /// 8xy7: Vx := Vy - Vx, wrapping, VF := 1 if Vy >= Vx before, else 0.
    SUBN(VIndex, VIndex),
    /// 8xyE: Vx := Vx << 1, VF := the bit shifted out; `y` is ignored.
    SHL(VIndex),
    /// 9xy0: skip the next instruction if Vx != Vy.
    SNE(VIndex, VIndex),
    /// Annn: I := addr.
    LD_I(Addr),
    /// Bnnn: jump to addr + V0.
    JP_V0(Addr),
    /// Cxkk: Vx := random byte & kk.
    RNDi(VIndex, VValue),
    /// Dxyn: XOR-draw the n-row sprite at I onto the display at (Vx, Vy),
    /// wrapping at the edges; VF := whether a lit pixel was turned off.
    DRW(VIndex, VIndex, u8),
    /// Ex9E: skip the next instruction if key Vx is held.
    SKP(VIndex),
    /// ExA1: skip the next instruction if key Vx is not held.
    SKNP(VIndex),
    /// Fx07: Vx := delay timer.
    LD_DT(VIndex),
    /// Fx0A: wait for a key: while none is held the instruction stays
    /// current (the timers keep running); then Vx := the lowest held key.
    LD_K(VIndex),
    /// Fx15: delay timer := Vx.
    SET_DT(VIndex),
    /// Fx18: sound timer := Vx.
    SET_ST(VIndex),
    /// Fx1E: I := I + Vx, modulo 2^16.
    ADD_I(VIndex),
    /// Fx29: I := address of the 5-byte sprite of the hex digit in the low
    /// nibble of Vx; the digit sprites sit from address 0 on.
    LD_F(VIndex),
    /// Fx33: store the decimal digits of Vx at I, I+1, I+2.
    LD_B(VIndex),
    /// Fx55: store V0..=Vx at I onwards; I itself is left unchanged.
    ST_UNTIL(VIndex),
    /// Fx65: load V0..=Vx from I onwards; I itself is left unchanged.
    LD_UNTIL(VIndex),
}

/// First (most significant) nibble of an opcode.
pub open spec fn nibble0(op: u16) -> int {
    op as int / 0x1000
}

/// Second nibble of an opcode, the `x` operand.
pub open spec fn nibble1(op: u16) -> int {
    (op as int / 0x100) % 16
}

/// Third nibble of an opcode, the `y` operand.
pub open spec fn nibble2(op: u16) -> int {
    (op as int / 0x10) % 16
}

/// Last nibble of an opcode.
pub open spec fn nibble3(op: u16) -> int {
    op as int % 16
}

/// The low twelve bits of an opcode, an address.
pub open spec fn low_addr(op: u16) -> Addr {
    (op as int % 0x1000) as Addr
}

/// The low byte of an opcode, a constant.
pub open spec fn low_byte(op: u16) -> VValue {
    (op as int % 0x100) as VValue
}

/// The instruction that the standard CHIP-8 table gives to an opcode, if any.
pub open spec fn decode_spec(op: u16) -> Option<Instruction> {
    let x = nibble1(op) as VIndex;
    let y = nibble2(op) as VIndex;
    let n = nibble3(op);
    let nnn = low_addr(op);
    let kk = low_byte(op);
    if nibble0(op) == 0x0 {
        if op == 0x00E0 {
            Some(Instruction::CLS)
        } else if op == 0x00EE {
            Some(Instruction::RET)
        } else {
            Some(Instruction::SYS(nnn))
        }
    } else if nibble0(op) == 0x1 {
        Some(Instruction::JP(nnn))
    } else if nibble0(op) == 0x2 {
        Some(Instruction::CALL(nnn))
    } else if nibble0(op) == 0x3 {
        Some(Instruction::SEi(x, kk))
    } else if nibble0(op) == 0x4 {
        Some(Instruction::SNEi(x, kk))
    } else if nibble0(op) == 0x5 {
        if n == 0 { Some(Instruction::SE(x, y)) } else { None }
    } else if nibble0(op) == 0x6 {
        Some(Instruction::LDi(x, kk))
    } else if nibble0(op) == 0x7 {
        Some(Instruction::ADDi(x, kk))
    } else if nibble0(op) == 0x8 {
        if n == 0x0 {
            Some(Instruction::LD(x, y))
        } else if n == 0x1 {
            Some(Instruction::OR(x, y))
        } else if n == 0x2 {
            Some(Instruction::AND(x, y))
        } else if n == 0x3 {
            Some(Instruction::XOR(x, y))
        } else if n == 0x4 {
            Some(Instruction::ADD(x, y))
        } else if n == 0x5 {
            Some(Instruction::SUB(x, y))
        } else if n == 0x6 {
            Some(Instruction::SHR(x))
        } else if n == 0x7 {
            Some(Instruction::SUBN(x, y))
        } else if n == 0xE {
            Some(Instruction::SHL(x))
        } else {
            None
        }
    } else if nibble0(op) == 0x9 {
        if n == 0 { Some(Instruction::SNE(x, y)) } else { None }
    } else if nibble0(op) == 0xA {
        Some(Instruction::LD_I(nnn))
    } else if nibble0(op) == 0xB {
        Some(Instruction::JP_V0(nnn))
    } else if nibble0(op) == 0xC {
        Some(Instruction::RNDi(x, kk))
    } else if nibble0(op) == 0xD {
        Some(Instruction::DRW(x, y, n as u8))
    } else if nibble0(op) == 0xE {
        if kk == 0x9E {
            Some(Instruction::SKP(x))
        } else if kk == 0xA1 {
            Some(Instruction::SKNP(x))
        } else {
            None
        }
    } else {
        if kk == 0x07 {
            Some(Instruction::LD_DT(x))
        } else if kk == 0x0A {
            Some(Instruction::LD_K(x))
        } else if kk == 0x15 {
            Some(Instruction::SET_DT(x))
        } else if kk == 0x18 {
            Some(Instruction::SET_ST(x))
        } else if kk == 0x1E {
            Some(Instruction::ADD_I(x))
        } else if kk == 0x29 {
            Some(Instruction::LD_F(x))
        } else if kk == 0x33 {
            Some(Instruction::LD_B(x))
        } else if kk == 0x55 {
            Some(Instruction::ST_UNTIL(x))
        } else if kk == 0x65 {
            Some(Instruction::LD_UNTIL(x))
        } else {
            None
        }
    }
}

proof fn lemma_opcode_fields(op: u16)
    by (bit_vector)
    ensures
        (op & 0xF000) >> 12 == op / 0x1000,
        (op & 0x0F00) >> 8 == (op / 0x100) % 16,
        (op & 0x00F0) >> 4 == (op / 0x10) % 16,
        op & 0x000F == op % 16,
        op & 0x0FFF == op % 0x1000,
        op & 0x00FF == op % 0x100,
{
}

/// Decodes a 16-bit opcode; fails exactly where the instruction table has no entry.
pub fn decode_opcode(opcode: u16) -> (r: Result<Instruction, Chip8Error>)
    ensures
        decode_spec(opcode) is Some ==> r == Ok::<Instruction, Chip8Error>(
            decode_spec(opcode)->0,
        ),
        decode_spec(opcode) is None ==> r == Err::<Instruction, Chip8Error>(
            Chip8Error::UnknownOpcode,
        ),
{
    proof {
        lemma_opcode_fields(opcode);
    }
    let nibbles = (
        ((opcode & 0xF000) >> 12) as u8,
        ((opcode & 0x0F00) >> 8) as u8,
        ((opcode & 0x00F0) >> 4) as u8,
        (opcode & 0x000F) as u8,
    );
    let addr = (opcode & 0x0FFF) as Addr;
    let kk = (opcode & 0x00FF) as VValue;
    let instr = match nibbles {
        (0x0, 0x0, 0xE, 0x0) => Instruction::CLS,
        (0x0, 0x0, 0xE, 0xE) => Instruction::RET,
        (0x0, _, _, _) => Instruction::SYS(addr),
        (0x1, _, _, _) => Instruction::JP(addr),
        (0x2, _, _, _) => Instruction::CALL(addr),
        (0x3, x, _, _) => Instruction::SEi(x as VIndex, kk),
        (0x4, x, _, _) => Instruction::SNEi(x as VIndex, kk),
        (0x5, x, y, 0x0) => Instruction::SE(x as VIndex, y as VIndex),
        (0x6, x, _, _) => Instruction::LDi(x as VIndex, kk),
        (0x7, x, _, _) => Instruction::ADDi(x as VIndex, kk),
        (0x8, x, y, 0x0) => Instruction::LD(x as VIndex, y as VIndex),
        (0x8, x, y, 0x1) => Instruction::OR(x as VIndex, y as VIndex),
        (0x8, x, y, 0x2) => Instruction::AND(x as VIndex, y as VIndex),
        (0x8, x, y, 0x3) => Instruction::XOR(x as VIndex, y as VIndex),
        (0x8, x, y, 0x4) => Instruction::ADD(x as VIndex, y as VIndex),
        (0x8, x, y, 0x5) => Instruction::SUB(x as VIndex, y as VIndex),
        (0x8, x, _, 0x6) => Instruction::SHR(x as VIndex),
        (0x8, x, y, 0x7) => Instruction::SUBN(x as VIndex, y as VIndex),
        (0x8, x, _, 0xE) => Instruction::SHL(x as VIndex),
        (0x9, x, y, 0x0) => Instruction::SNE(x as VIndex, y as VIndex),
        (0xA, _, _, _) => Instruction::LD_I(addr),
        (0xB, _, _, _) => Instruction::JP_V0(addr),
        (0xC, x, _, _) => Instruction::RNDi(x as VIndex, kk),
        (0xD, x, y, n) => Instruction::DRW(x as VIndex, y as VIndex, n),
        (0xE, x, 0x9, 0xE) => Instruction::SKP(x as VIndex),
        (0xE, x, 0xA, 0x1) => Instruction::SKNP(x as VIndex),
        (0xF, x, 0x0, 0x7) => Instruction::LD_DT(x as VIndex),
        (0xF, x, 0x0, 0xA) => Instruction::LD_K(x as VIndex),
        (0xF, x, 0x1, 0x5) => Instruction::SET_DT(x as VIndex),
        (0xF, x, 0x1, 0x8) => Instruction::SET_ST(x as VIndex),
        (0xF, x, 0x1, 0xE) => Instruction::ADD_I(x as VIndex),
        (0xF, x, 0x2, 0x9) => Instruction::LD_F(x as VIndex),
        (0xF, x, 0x3, 0x3) => Instruction::LD_B(x as VIndex),
        (0xF, x, 0x5, 0x5) => Instruction::ST_UNTIL(x as VIndex),
        (0xF, x, 0x6, 0x5) => Instruction::LD_UNTIL(x as VIndex),
        _ => {
            return Err(Chip8Error::UnknownOpcode);
        },
    };
    Ok(instr)
}

} // verus!
