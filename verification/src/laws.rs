//! Laws of the instruction set, proved once and for all over the model in
//! `state`. The interpreter's methods are proved to follow that model, so
//! each law carries over to the executable machine.
use vstd::prelude::*;

use crate::state::{
    n_nibble, op_nibble, spec_decrement_timers, spec_execute, spec_instruction_word,
    spec_load_registers, spec_pc_in_bounds, spec_pc_plus_2, spec_store_registers, spec_tick,
    x_nibble, y_nibble, EmuState, MEMORY_SIZE,
};

verus! {

/// For all register contents a = Vx and b = Vy, `ADD Vx,Vy` leaves
/// Vx = (a + b) mod 256 and VF = 1 exactly when a + b >= 256.
pub proof fn lemma_add_law(s: EmuState, x: u8, y: u8)
    requires
        s.wf(),
        x < 15,
        y < 16,
    ensures
        spec_execute(s, 0x8, x, y, 0x4, 0).regs[x as int] == (s.regs[x as int] + s.regs[y as int])
            % 256,
        spec_execute(s, 0x8, x, y, 0x4, 0).regs[15] == (if s.regs[x as int] + s.regs[y as int]
            >= 256 {
            1u8
        } else {
            0u8
        }),
{
}

/// For all register contents a = Vx and b = Vy, `SUB Vx,Vy` leaves
/// Vx = (a - b) mod 256 and VF = 1 exactly when a >= b (no borrow).
pub proof fn lemma_sub_law(s: EmuState, x: u8, y: u8)
    requires
        s.wf(),
        x < 15,
        y < 16,
    ensures
        spec_execute(s, 0x8, x, y, 0x5, 0).regs[x as int] == (s.regs[x as int] - s.regs[y as int])
            % 256,
        spec_execute(s, 0x8, x, y, 0x5, 0).regs[15] == (if s.regs[x as int] >= s.regs[y as int] {
            1u8
        } else {
            0u8
        }),
{
}

/// `LD Vx,K` over one whole tick: with no key held the fetch's advance and
/// the handler's rewind cancel, so PC lands where it started; with a key
/// held, the earliest-pressed key lands in Vx and PC advances normally.
pub proof fn lemma_wait_key_law(s: EmuState, rnd: u8)
    requires
        s.wf(),
        spec_pc_in_bounds(s),
        op_nibble(spec_instruction_word(s)) == 0xF,
        y_nibble(spec_instruction_word(s)) == 0x0,
        n_nibble(spec_instruction_word(s)) == 0xA,
    ensures
        s.keys.len() == 0 ==> spec_tick(s, rnd).pc == s.pc,
        s.keys.len() > 0 ==> spec_tick(s, rnd).pc == spec_pc_plus_2(s.pc) && spec_tick(
            s,
            rnd,
        ).regs[x_nibble(spec_instruction_word(s)) as int] == s.keys[0],
{
}

/// `LD [I],Vx` followed by `LD Vx,[I]` at the same I reproduces every
/// register exactly, and leaves memory as the store wrote it.
pub proof fn lemma_store_load_roundtrip(s: EmuState, x: u8)
    requires
        s.wf(),
        x < 16,
        s.index + x < MEMORY_SIZE,
    ensures
        spec_load_registers(spec_store_registers(s, x), x).regs == s.regs,
        spec_load_registers(spec_store_registers(s, x), x).memory == spec_store_registers(
            s,
            x,
        ).memory,
{
    assert(spec_load_registers(spec_store_registers(s, x), x).regs =~= s.regs);
}

/// The timers never underflow: a step never moves a timer upward, and a step
/// from zero leaves it at zero, however often it is repeated.
pub proof fn lemma_timer_floor(s: EmuState)
    ensures
        spec_decrement_timers(s).delay_timer <= s.delay_timer,
        spec_decrement_timers(s).sound_timer <= s.sound_timer,
        s.delay_timer == 0 ==> spec_decrement_timers(s).delay_timer == 0,
        s.sound_timer == 0 ==> spec_decrement_timers(s).sound_timer == 0,
{
}

} // verus!
