use vstd::prelude::*;

use crate::instruction::{decode_spec, low_byte, nibble0, nibble3, Instruction};
use crate::machine::{
    count_down, execute_spec, first_key, key_held, timers_tick, MachineState,
};
use crate::ram::Memory;
use crate::registers::Registers;
use crate::{Addr, GP_REGISTERS_COUNT, KEY_COUNT, MEMORY_SIZE, STACK_SIZE, TIMER_FREQUENCY};

verus! {

/// Writing `v` to a valid register and reading it back gives `v`; the other
/// registers keep their values.
pub proof fn law_register_write_read(regs: Registers, i: usize, v: u8)
    requires
        i < GP_REGISTERS_COUNT,
    ensures
        regs@.update(i as int, v)[i as int] == v,
        forall|j: int|
            0 <= j < GP_REGISTERS_COUNT && j != i ==> #[trigger] regs@.update(i as int, v)[j]
                == regs@[j],
{
    regs.lemma_view_len();
}

/// Writing `v` to a valid address and reading it back gives `v`; the other
/// bytes keep their values.
pub proof fn law_memory_write_read(mem: Memory, a: usize, v: u8)
    requires
        a < MEMORY_SIZE,
    ensures
        mem@.update(a as int, v)[a as int] == v,
        forall|b: int| 0 <= b < MEMORY_SIZE && b != a ==> #[trigger] mem@.update(a as int, v)[b] == mem@[b],
{
    mem.lemma_view_len();
}

/// Pushing `a` onto a stack that is not full and popping gives back `a`
/// and the stack as it was.
pub proof fn law_stack_push_pop(stack: Seq<Addr>, a: Addr)
    requires
        stack.len() < STACK_SIZE,
    ensures
        stack.push(a).len() <= STACK_SIZE,
        stack.push(a).len() > 0,
        stack.push(a).last() == a,
        stack.push(a).drop_last() == stack,
{
    assert(stack.push(a).drop_last() =~= stack);
}

/// Whether `instr` is one of the skip instructions and its condition holds in `s`.
pub open spec fn skip_taken(s: MachineState, instr: Instruction) -> bool {
    match instr {
        Instruction::SEi(x, kk) => s.v[x as int] == kk,
        Instruction::SNEi(x, kk) => s.v[x as int] != kk,
        Instruction::SE(x, y) => s.v[x as int] == s.v[y as int],
        Instruction::SNE(x, y) => s.v[x as int] != s.v[y as int],
        Instruction::SKP(x) => key_held(s.keyboard, s.v[x as int] as int),
        Instruction::SKNP(x) => !key_held(s.keyboard, s.v[x as int] as int),
        _ => false,
    }
}

/// Every instruction that completes, other than the jumps, CALL and RET,
/// moves the program counter on by 2, or by 4 when it is a skip whose
/// condition holds. LD Vx, K with no key held is the exception: it stays
/// on itself, waiting.
pub proof fn law_pc_advance(s: MachineState, instr: Instruction, random: u8)
    requires
        s.wf(),
        !(instr matches Instruction::JP(_)),
        !(instr matches Instruction::CALL(_)),
        !(instr matches Instruction::RET),
        !(instr matches Instruction::JP_V0(_)),
        !(instr matches Instruction::LD_K(_) && first_key(s.keyboard) >= KEY_COUNT),
        execute_spec(s, instr, random) is Ok,
    ensures
        execute_spec(s, instr, random)->Ok_0.pc == s.pc + if skip_taken(s, instr) {
            4int
        } else {
            2int
        },
{
}

/// CALL followed by RET comes back to the instruction after the CALL, with
/// the stack as it was.
pub proof fn law_call_ret(s: MachineState, addr: Addr, random: u8)
    requires
        s.wf(),
        execute_spec(s, Instruction::CALL(addr), random) is Ok,
    ensures
        execute_spec(s, Instruction::CALL(addr), random)->Ok_0.stack.last() == s.pc + 2,
        execute_spec(s, Instruction::CALL(addr), random)->Ok_0.pc == addr,
        execute_spec(execute_spec(s, Instruction::CALL(addr), random)->Ok_0, Instruction::RET, random)
            == Ok::<MachineState, crate::Chip8Error>(
            MachineState { pc: (s.pc + 2) as Addr, ..s },
        ),
{
    let t = execute_spec(s, Instruction::CALL(addr), random)->Ok_0;
    assert(t.stack.drop_last() =~= s.stack);
    assert(execute_spec(t, Instruction::RET, random)->Ok_0 =~~= MachineState { pc: (s.pc + 2) as Addr, ..s });
}

/// The state after `k` scheduler ticks' timer part.
pub open spec fn timers_ticks(s: MachineState, k: nat) -> MachineState
    decreases k,
{
    if k == 0 {
        s
    } else {
        timers_tick(timers_ticks(s, (k - 1) as nat))
    }
}

/// Starting with the frequency counter at zero, the timers keep their
/// values for `frequency / 60 - 1` ticks and count down exactly once on
/// tick `frequency / 60`.
pub proof fn law_timer_period(s: MachineState, k: nat)
    requires
        s.wf(),
        s.frequency_counter == 0,
        1 <= k <= s.frequency / TIMER_FREQUENCY,
    ensures
        timers_ticks(s, k).frequency == s.frequency,
        timers_ticks(s, k).frequency_counter == k % (s.frequency / TIMER_FREQUENCY) as nat,
        k < s.frequency / TIMER_FREQUENCY ==> timers_ticks(s, k).dt == s.dt && timers_ticks(s, k).st
            == s.st,
        k == s.frequency / TIMER_FREQUENCY ==> timers_ticks(s, k).dt == count_down(s.dt)
            && timers_ticks(s, k).st == count_down(s.st),
    decreases k,
{
    let period = (s.frequency / TIMER_FREQUENCY) as int;
    let prev = timers_ticks(s, (k - 1) as nat);
    if k > 1 {
        law_timer_period(s, (k - 1) as nat);
        vstd::arithmetic::div_mod::lemma_small_mod((k - 1) as nat, period as nat);
    }
    assert(prev.frequency == s.frequency && prev.frequency_counter == k - 1 && prev.dt == s.dt
        && prev.st == s.st);
    assert(timers_ticks(s, k) == timers_tick(prev));
    if k < period {
        vstd::arithmetic::div_mod::lemma_small_mod(k, period as nat);
    } else {
        vstd::arithmetic::div_mod::lemma_mod_self_0(period);
    }
}

/// The opcodes that decode to nothing are exactly those of families 5 and 9
/// not ending in 0, of family 8 ending in 8 to D or F, of family E other
/// than x9E and xA1, and of family F other than the nine defined low bytes.
pub proof fn law_decode_failures(op: u16)
    ensures
        decode_spec(op) is None <==> {
            ||| (nibble0(op) == 0x5 || nibble0(op) == 0x9) && nibble3(op) != 0
            ||| nibble0(op) == 0x8 && ((0x8 <= nibble3(op) <= 0xD) || nibble3(op) == 0xF)
            ||| nibble0(op) == 0xE && low_byte(op) != 0x9E && low_byte(op) != 0xA1
            ||| nibble0(op) == 0xF && !(low_byte(op) == 0x07 || low_byte(op) == 0x0A || low_byte(
                op,
            ) == 0x15 || low_byte(op) == 0x18 || low_byte(op) == 0x1E || low_byte(op) == 0x29
                || low_byte(op) == 0x33 || low_byte(op) == 0x55 || low_byte(op) == 0x65)
        },
{
}

} // verus!
