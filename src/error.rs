use vstd::prelude::*;

verus! {

/// Every way in which the machine can fail.
#[derive(Debug, Clone, Copy, PartialEq, Eq, Structural)]
pub enum Chip8Error {
    /// A register index is not below the register count.
    RegisterOutOfRange,
    /// A memory address is not below the memory size.
    MemoryOutOfRange,
    /// A push onto a full stack.
    StackOverflow,
    /// A pop from an empty stack.
    StackUnderflow,
    /// Advancing the program counter would leave memory.
    ProgramCounterOverflow,
    /// A jump target lies outside memory.
    ProgramCounterOutOfMemory,
    /// A value does not fit the 16-bit index register.
    IndexOutOfRange,
    /// An instruction operand is outside what its encoding can hold.
    OperandOutOfRange,
    /// The opcode matches no entry of the instruction table.
    UnknownOpcode,
    /// The instruction is recognised but deliberately not supported.
    UnsupportedInstruction,
    /// A program image does not fit between the load address and the end of memory.
    ImageTooLarge,
    /// A line of a hexadecimal program text is not a 16-bit hexadecimal number.
    MalformedHex,
}

impl Chip8Error {
    /// A human-readable description of the error.
    pub fn message(&self) -> &'static str {
        match self {
            Chip8Error::RegisterOutOfRange => "Register index too high",
            Chip8Error::MemoryOutOfRange => "Memory index too high",
            Chip8Error::StackOverflow => "Stack overflow",
            Chip8Error::StackUnderflow => "Stack is empty, can't pop",
            Chip8Error::ProgramCounterOverflow => "Program Counter Overflow",
            Chip8Error::ProgramCounterOutOfMemory => "Trying to set program counter to code out of the memory",
            Chip8Error::IndexOutOfRange => "Index register value too high",
            Chip8Error::OperandOutOfRange => "Instruction operand out of range",
            Chip8Error::UnknownOpcode => "Can't decode current instruction",
            Chip8Error::UnsupportedInstruction => "SYS instruction no more supported",
            Chip8Error::ImageTooLarge => "Program image does not fit in memory",
            Chip8Error::MalformedHex => "Malformed hexadecimal program text",
        }
    }
}

} // verus!
