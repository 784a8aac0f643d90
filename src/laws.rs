use vstd::prelude::*;

use crate::state::{
    fetch, first_pressed, step_spec, tick_spec, Fault, Mode, State, DISPLAY_SIZE, MEMORY_SIZE,
    NUM_KEYS, NUM_REGISTERS, STACK_DEPTH,
};

verus! {

/// `6xnn` loads `nn` into register `x` and moves on to the next instruction.
pub proof fn law_load_immediate(s: State, x: u16, nn: u16, random: u8)
    requires
        s.wf(),
        s.mode == Mode::Running,
        s.pc + 1 < MEMORY_SIZE,
        x < NUM_REGISTERS,
        nn < 0x100,
        fetch(s) == 0x6000 + x * 0x100 + nn,
    ensures
        step_spec(s, random) is Ok,
        step_spec(s, random)->Ok_0.registers[x as int] == nn,
        step_spec(s, random)->Ok_0.pc == s.pc + 2,
{
}

/// `7xnn` adds `nn` to register `x` modulo 256 and never faults.
pub proof fn law_add_immediate_wraps(s: State, x: u16, nn: u16, random: u8)
    requires
        s.wf(),
        s.mode == Mode::Running,
        s.pc + 1 < MEMORY_SIZE,
        x < NUM_REGISTERS,
        nn < 0x100,
        fetch(s) == 0x7000 + x * 0x100 + nn,
    ensures
        step_spec(s, random) is Ok,
        step_spec(s, random)->Ok_0.registers[x as int] == (s.registers[x as int] + nn) % 256,
{
}

/// After `00E0` every display cell reads zero.
pub proof fn law_clear_display(s: State, random: u8)
    requires
        s.wf(),
        s.mode == Mode::Running,
        s.pc + 1 < MEMORY_SIZE,
        fetch(s) == 0x00E0,
    ensures
        step_spec(s, random) is Ok,
        step_spec(s, random)->Ok_0.display.len() == DISPLAY_SIZE,
        forall|i: int|
            0 <= i < DISPLAY_SIZE ==> #[trigger] step_spec(s, random)->Ok_0.display[i] == 0,
{
}

/// A call `2nnn` to a routine that returns at once with `00EE` comes back to
/// the instruction after the call, with the stack as deep as before. A call
/// with a full stack faults instead, so the stack must have room.
pub proof fn law_call_then_return(s: State, nnn: u16, r1: u8, r2: u8)
    requires
        s.wf(),
        s.mode == Mode::Running,
        s.pc + 1 < MEMORY_SIZE,
        s.sp < STACK_DEPTH,
        nnn + 1 < MEMORY_SIZE,
        fetch(s) == 0x2000 + nnn,
        s.memory[nnn as int] == 0x00,
        s.memory[nnn + 1] == 0xEE,
    ensures
        step_spec(s, r1) is Ok,
        step_spec(step_spec(s, r1)->Ok_0, r2) is Ok,
        step_spec(step_spec(s, r1)->Ok_0, r2)->Ok_0.pc == s.pc + 2,
        step_spec(step_spec(s, r1)->Ok_0, r2)->Ok_0.sp == s.sp,
{
    let t = step_spec(s, r1)->Ok_0;
    assert(t.pc == nnn);
    assert(t.stack[s.sp as int] == s.pc);
    assert(fetch(t) == 0x00EE);
}

/// A tick with both timers at zero leaves them at zero.
pub proof fn law_tick_stops_at_zero(s: State)
    requires
        s.delay_timer == 0,
        s.sound_timer == 0,
    ensures
        tick_spec(s).delay_timer == 0,
        tick_spec(s).sound_timer == 0,
{
}

proof fn lemma_none_pressed(keys: Seq<bool>, from: int)
    requires
        0 <= from,
        forall|k: int| 0 <= k < keys.len() ==> !keys[k],
    ensures
        first_pressed(keys, from) is None,
    decreases keys.len() - from,
{
    if from < keys.len() {
        lemma_none_pressed(keys, from + 1);
    }
}

proof fn lemma_only_pressed(keys: Seq<bool>, k: int, from: int)
    requires
        0 <= from <= k < keys.len() <= NUM_KEYS,
        keys[k],
        forall|j: int| 0 <= j < keys.len() && j != k ==> !keys[j],
    ensures
        first_pressed(keys, from) == Some(k as u8),
    decreases k - from,
{
    if from < k {
        lemma_only_pressed(keys, k, from + 1);
    }
}

/// `Fx0A` with no key down puts the machine into waiting without moving the
/// program counter, and further cycles leave a waiting machine as it is for
/// as long as no key is down.
pub proof fn law_key_wait_holds(s: State, x: u16, r1: u8, r2: u8)
    requires
        s.wf(),
        s.mode == Mode::Running,
        s.pc + 1 < MEMORY_SIZE,
        x < NUM_REGISTERS,
        fetch(s) == 0xF00A + x * 0x100,
        forall|k: int| 0 <= k < NUM_KEYS ==> !s.keys[k],
    ensures
        step_spec(s, r1) == Ok::<State, Fault>(
            State { mode: Mode::AwaitingKey(x as u8), ..s },
        ),
        step_spec(step_spec(s, r1)->Ok_0, r2) == step_spec(s, r1),
{
    lemma_none_pressed(s.keys, 0);
}

/// Once a key goes down while the machine waits on register `x`, the next
/// cycle stores that key's index in `x`, moves the program counter past the
/// waiting instruction and resumes execution.
pub proof fn law_key_wait_resumes(s: State, x: u8, k: int, random: u8)
    requires
        s.wf(),
        s.mode == Mode::AwaitingKey(x),
        0 <= k < NUM_KEYS,
        forall|j: int| 0 <= j < NUM_KEYS ==> !s.keys[j],
    ensures
        step_spec(State { keys: s.keys.update(k, true), ..s }, random) is Ok,
        step_spec(State { keys: s.keys.update(k, true), ..s }, random)->Ok_0.pc == s.pc + 2,
        step_spec(State { keys: s.keys.update(k, true), ..s }, random)->Ok_0.registers[x as int]
            == k,
        step_spec(State { keys: s.keys.update(k, true), ..s }, random)->Ok_0.mode
            == Mode::Running,
{
    lemma_only_pressed(s.keys.update(k, true), k, 0);
}

} // verus!
