use vstd::prelude::*;

use vstd::arithmetic::div_mod::{lemma_fundamental_div_mod, lemma_fundamental_div_mod_converse};

use crate::font::font_glyphs;

verus! {

/// Bytes of addressable memory.
pub const MEMORY_SIZE: usize = 4096;

/// Address at which programs are loaded and execution starts.
pub const PROGRAM_START: usize = 512;

/// Longest program that fits between `PROGRAM_START` and the end of memory.
pub const MAX_PROGRAM_LEN: usize = 3584;

/// Display width in cells.
pub const DISPLAY_WIDTH: usize = 64;

/// Display height in cells.
pub const DISPLAY_HEIGHT: usize = 32;

/// Number of display cells, stored row by row.
pub const DISPLAY_SIZE: usize = 2048;

/// Number of general registers V0..VF.
pub const NUM_REGISTERS: usize = 16;

/// Number of return-address slots in the call stack.
pub const STACK_DEPTH: usize = 16;

/// Number of keys on the keypad.
pub const NUM_KEYS: usize = 16;

/// The register that arithmetic and drawing overwrite with a flag.
pub const FLAG: usize = 15;

/// A fatal fault raised by an instruction. The machine is left as it was
/// before the faulting cycle.
#[derive(PartialEq, Eq, Structural, Clone, Copy, Debug)]
pub enum Fault {
    /// A call with all sixteen stack slots in use.
    StackOverflow,
    /// A return with an empty stack.
    StackUnderflow,
    /// An access at an address outside memory.
    MemoryOutOfBounds,
}

/// Why a program cannot be loaded.
#[derive(PartialEq, Eq, Structural, Clone, Copy, Debug)]
pub enum LoadError {
    /// The program does not fit between the program start and the end of memory.
    TooLarge,
}

/// Whether the machine executes instructions or waits for a key press.
#[derive(PartialEq, Eq, Structural, Clone, Copy, Debug)]
pub enum Mode {
    Running,
    /// Waiting for a key press whose index goes to the given register.
    AwaitingKey(u8),
}

/// The whole observable state of the machine.
pub struct State {
    pub memory: Seq<u8>,
    pub display: Seq<u8>,
    pub registers: Seq<u8>,
    pub index: u16,
    pub pc: u16,
    pub delay_timer: u8,
    pub sound_timer: u8,
    pub stack: Seq<u16>,
    pub sp: u8,
    pub keys: Seq<bool>,
    pub mode: Mode,
}

impl State {
    /// Sizes and ranges that every reachable state keeps.
    pub open spec fn wf(self) -> bool {
        &&& self.memory.len() == MEMORY_SIZE
        &&& self.display.len() == DISPLAY_SIZE
        &&& forall|i: int| 0 <= i < DISPLAY_SIZE ==> #[trigger] self.display[i] <= 1
        &&& self.registers.len() == NUM_REGISTERS
        &&& self.stack.len() == STACK_DEPTH
        &&& self.sp <= STACK_DEPTH
        &&& forall|i: int| 0 <= i < STACK_DEPTH ==> #[trigger] self.stack[i] <= MEMORY_SIZE - 2
        &&& self.keys.len() == NUM_KEYS
        &&& self.index < MEMORY_SIZE
        &&& match self.mode {
            Mode::Running => true,
            Mode::AwaitingKey(x) => x < NUM_REGISTERS && self.pc <= MEMORY_SIZE - 2,
        }
    }
}

/// The state right after construction: the font at address 0, everything
/// else zero, the program counter at the program start.
pub open spec fn initial_state() -> State {
    State {
        memory: font_glyphs() + Seq::new((MEMORY_SIZE - font_glyphs().len()) as nat, |i: int| 0u8),
        display: Seq::new(DISPLAY_SIZE as nat, |i: int| 0u8),
        registers: Seq::new(NUM_REGISTERS as nat, |i: int| 0u8),
        index: 0,
        pc: PROGRAM_START as u16,
        delay_timer: 0,
        sound_timer: 0,
        stack: Seq::new(STACK_DEPTH as nat, |i: int| 0u16),
        sp: 0,
        keys: Seq::new(NUM_KEYS as nat, |i: int| false),
        mode: Mode::Running,
    }
}

/// The instruction word at the program counter, high byte first.
pub open spec fn fetch(s: State) -> u16 {
    (s.memory[s.pc as int] as int * 256 + s.memory[s.pc + 1] as int) as u16
}

/// Top nibble: the instruction family.
pub open spec fn op_family(op: u16) -> u16 {
    op / 0x1000
}

/// Bits 8-11.
pub open spec fn op_x(op: u16) -> u16 {
    (op / 0x100) % 0x10
}

/// Bits 4-7.
pub open spec fn op_y(op: u16) -> u16 {
    (op / 0x10) % 0x10
}

/// Bits 0-3.
pub open spec fn op_n(op: u16) -> u16 {
    op % 0x10
}

/// Bits 0-7.
pub open spec fn op_nn(op: u16) -> u16 {
    op % 0x100
}

/// Bits 0-11.
pub open spec fn op_nnn(op: u16) -> u16 {
    op % 0x1000
}

/// `s` with the program counter set to `pc`.
pub open spec fn with_pc(s: State, pc: int) -> State {
    State { pc: pc as u16, ..s }
}

/// Normal advance past one instruction.
pub open spec fn advance(s: State) -> State {
    with_pc(s, s.pc + 2)
}

/// Advance past one instruction, and past the next one too if `cond` holds.
pub open spec fn skip_if(s: State, cond: bool) -> State {
    with_pc(s, if cond { s.pc + 4 } else { s.pc + 2 })
}

/// `s` with register `x` set to `v`.
pub open spec fn with_reg(s: State, x: int, v: u8) -> State {
    State { registers: s.registers.update(x, v), ..s }
}

/// Sets the flag register first and then `Vx`, so that `Vx` wins when `x` is
/// the flag register.
pub open spec fn flag_then_reg(s: State, flag: u8, x: int, v: u8) -> State {
    with_reg(with_reg(s, FLAG as int, flag), x, v)
}

/// Whether key `k` exists and is held down.
pub open spec fn key_down(keys: Seq<bool>, k: u8) -> bool {
    k < NUM_KEYS && keys[k as int]
}

/// The lowest index at or after `from` of a key held down.
pub open spec fn first_pressed(keys: Seq<bool>, from: int) -> Option<u8>
    decreases keys.len() - from,
{
    if from < 0 || from >= keys.len() {
        None
    } else if keys[from] {
        Some(from as u8)
    } else {
        first_pressed(keys, from + 1)
    }
}

/// Whether bit `col` of a sprite row is set, counting from the most significant bit.
pub open spec fn row_bit(row: u8, col: u8) -> bool {
    row & (0x80u8 >> col) != 0
}

/// The sprite column that lands on display cell `i` when drawing at `vx`.
pub open spec fn cell_col(vx: u8, i: int) -> int {
    (i % DISPLAY_WIDTH as int - vx as int) % DISPLAY_WIDTH as int
}

/// The sprite row that lands on display cell `i` when drawing at `vy`.
pub open spec fn cell_row(vy: u8, i: int) -> int {
    (i / DISPLAY_WIDTH as int - vy as int) % DISPLAY_HEIGHT as int
}

/// The display cell on which sprite row `row`, column `col` lands when
/// drawing at (`vx`, `vy`).
pub open spec fn cell_at(vx: u8, vy: u8, row: int, col: int) -> int {
    (vx + col) % DISPLAY_WIDTH as int + ((vy + row) % DISPLAY_HEIGHT as int) * DISPLAY_WIDTH as int
}

/// Wrapped placement is a bijection between sprite positions and cells.
pub(crate) proof fn lemma_cell_at(vx: u8, vy: u8, row: int, col: int)
    requires
        0 <= row < DISPLAY_HEIGHT,
        0 <= col < DISPLAY_WIDTH,
    ensures
        0 <= cell_at(vx, vy, row, col) < DISPLAY_SIZE,
        cell_col(vx, cell_at(vx, vy, row, col)) == col,
        cell_row(vy, cell_at(vx, vy, row, col)) == row,
        forall|i: int|
            0 <= i < DISPLAY_SIZE && cell_col(vx, i) == col && cell_row(vy, i) == row
                ==> i == cell_at(vx, vy, row, col),
{
    let a = (vx + col) % 64;
    let b = (vy + row) % 32;
    let q = (vx + col) / 64;
    let p = (vy + row) / 32;
    lemma_fundamental_div_mod(vx + col, 64);
    lemma_fundamental_div_mod(vy + row, 32);
    let cell = a + b * 64;
    lemma_fundamental_div_mod_converse(cell, 64, b, a);
    lemma_fundamental_div_mod_converse(a - vx, 64, -q, col);
    lemma_fundamental_div_mod_converse(b - vy, 32, -p, row);
    assert forall|i: int|
        0 <= i < DISPLAY_SIZE && cell_col(vx, i) == col && cell_row(vy, i) == row implies i
        == cell by {
        lemma_fundamental_div_mod(i, 64);
        lemma_fundamental_div_mod(i % 64 - vx, 64);
        lemma_fundamental_div_mod(i / 64 - vy, 32);
        lemma_fundamental_div_mod_converse(i, 64, i / 64, i % 64);
        assert(0 <= i / 64 < 32);
    }
}

/// Whether the sprite of `n` rows at `memory[index..]`, drawn at (`vx`, `vy`)
/// with wraparound, has a set bit over display cell `i`.
pub open spec fn sprite_covers(memory: Seq<u8>, index: u16, vx: u8, vy: u8, n: u16, i: int) -> bool {
    let col = cell_col(vx, i);
    let row = cell_row(vy, i);
    &&& row < n
    &&& col < 8
    &&& row_bit(memory[index + row], col as u8)
}

/// The display after XOR-drawing the sprite.
pub open spec fn drawn(s: State, vx: u8, vy: u8, n: u16) -> Seq<u8> {
    Seq::new(
        s.display.len(),
        |i: int|
            if sprite_covers(s.memory, s.index, vx, vy, n, i) {
                (1 - s.display[i]) as u8
            } else {
                s.display[i]
            },
    )
}

/// Whether drawing the sprite turns some set cell off.
pub open spec fn collides(s: State, vx: u8, vy: u8, n: u16) -> bool {
    exists|i: int|
        0 <= i < DISPLAY_SIZE && #[trigger] sprite_covers(s.memory, s.index, vx, vy, n, i)
            && s.display[i] == 1
}

/// `Dxyn`: the flag is cleared, then the sprite is drawn at (`Vx`, `Vy`) and
/// the flag reports a collision.
pub open spec fn draw_spec(s: State, x: int, y: int, n: u16) -> Result<State, Fault> {
    if s.index + n > MEMORY_SIZE {
        Err(Fault::MemoryOutOfBounds)
    } else {
        let s0 = with_reg(s, FLAG as int, 0);
        let vx = s0.registers[x];
        let vy = s0.registers[y];
        let flag: u8 = if collides(s0, vx, vy, n) { 1 } else { 0 };
        Ok(advance(State { display: drawn(s0, vx, vy, n), ..with_reg(s0, FLAG as int, flag) }))
    }
}

/// The eight-bit arithmetic and logic instructions `8xyN`, without the advance.
pub open spec fn alu_spec(s: State, x: int, y: int, n: u16) -> State {
    let vx = s.registers[x];
    let vy = s.registers[y];
    if n == 0 {
        with_reg(s, x, vy)
    } else if n == 1 {
        with_reg(s, x, vx | vy)
    } else if n == 2 {
        with_reg(s, x, vx & vy)
    } else if n == 3 {
        with_reg(s, x, vx ^ vy)
    } else if n == 4 {
        let sum = vx as int + vy as int;
        with_reg(with_reg(s, x, (sum % 256) as u8), FLAG as int, if sum > 255 { 1 } else { 0 })
    } else if n == 5 {
        flag_then_reg(s, if vx > vy { 1 } else { 0 }, x, ((vx as int - vy as int) % 256) as u8)
    } else if n == 6 {
        flag_then_reg(s, vx & 1, x, vx >> 1u8)
    } else if n == 7 {
        flag_then_reg(s, if vy > vx { 1 } else { 0 }, x, ((vy as int - vx as int) % 256) as u8)
    } else if n == 0xE {
        flag_then_reg(s, vx >> 7u8, x, ((vx as int * 2) % 256) as u8)
    } else {
        s
    }
}

/// The key-wait `Fx0A` and its resumption: with a key down, its index goes
/// to `Vx` and execution moves on; with none, the machine waits in place.
pub open spec fn await_key_spec(s: State, x: int) -> State {
    match first_pressed(s.keys, 0) {
        Some(k) => advance(with_reg(State { mode: Mode::Running, ..s }, x, k)),
        None => State { mode: Mode::AwaitingKey(x as u8), ..s },
    }
}

/// The `Fxnn` instructions.
pub open spec fn misc_spec(s: State, x: int, nn: u16) -> Result<State, Fault> {
    let vx = s.registers[x];
    if nn == 0x07 {
        Ok(advance(with_reg(s, x, s.delay_timer)))
    } else if nn == 0x0A {
        Ok(await_key_spec(s, x))
    } else if nn == 0x15 {
        Ok(advance(State { delay_timer: vx, ..s }))
    } else if nn == 0x18 {
        Ok(advance(State { sound_timer: vx, ..s }))
    } else if nn == 0x1E {
        if s.index + vx >= MEMORY_SIZE {
            Err(Fault::MemoryOutOfBounds)
        } else {
            Ok(advance(State { index: (s.index + vx) as u16, ..s }))
        }
    } else if nn == 0x29 {
        Ok(advance(State { index: (vx * 5) as u16, ..s }))
    } else if nn == 0x33 {
        if s.index + 2 >= MEMORY_SIZE {
            Err(Fault::MemoryOutOfBounds)
        } else {
            let m = s.memory.update(s.index as int, vx / 100).update(
                s.index + 1,
                (vx / 10) % 10,
            ).update(s.index + 2, vx % 10);
            Ok(advance(State { memory: m, ..s }))
        }
    } else if nn == 0x55 {
        if s.index + x >= MEMORY_SIZE {
            Err(Fault::MemoryOutOfBounds)
        } else {
            let m = Seq::new(
                s.memory.len(),
                |a: int|
                    if s.index <= a <= s.index + x {
                        s.registers[a - s.index]
                    } else {
                        s.memory[a]
                    },
            );
            Ok(advance(State { memory: m, ..s }))
        }
    } else if nn == 0x65 {
        if s.index + x >= MEMORY_SIZE {
            Err(Fault::MemoryOutOfBounds)
        } else {
            let r = Seq::new(
                s.registers.len(),
                |i: int|
                    if i <= x {
                        s.memory[s.index + i]
                    } else {
                        s.registers[i]
                    },
            );
            Ok(advance(State { registers: r, ..s }))
        }
    } else {
        Ok(advance(s))
    }
}

/// One instruction `op`, fetched at the program counter, on a running machine.
/// `random` is the byte that `Cxnn` masks.
pub open spec fn execute_spec(s: State, op: u16, random: u8) -> Result<State, Fault> {
    let f = op_family(op);
    let x = op_x(op) as int;
    let y = op_y(op) as int;
    let n = op_n(op);
    let nn = op_nn(op);
    let nnn = op_nnn(op);
    if f == 0x0 {
        if op == 0x00E0 {
            Ok(advance(State { display: Seq::new(s.display.len(), |i: int| 0u8), ..s }))
        } else if op == 0x00EE {
            if s.sp == 0 {
                Err(Fault::StackUnderflow)
            } else {
                Ok(
                    State {
                        sp: (s.sp - 1) as u8,
                        pc: (s.stack[s.sp - 1] + 2) as u16,
                        ..s
                    },
                )
            }
        } else {
            Ok(advance(s))
        }
    } else if f == 0x1 {
        Ok(with_pc(s, nnn as int))
    } else if f == 0x2 {
        if s.sp >= STACK_DEPTH {
            Err(Fault::StackOverflow)
        } else {
            Ok(
                State {
                    stack: s.stack.update(s.sp as int, s.pc),
                    sp: (s.sp + 1) as u8,
                    pc: nnn,
                    ..s
                },
            )
        }
    } else if f == 0x3 {
        Ok(skip_if(s, s.registers[x] == nn))
    } else if f == 0x4 {
        Ok(skip_if(s, s.registers[x] != nn))
    } else if f == 0x5 {
        if n == 0 {
            Ok(skip_if(s, s.registers[x] == s.registers[y]))
        } else {
            Ok(advance(s))
        }
    } else if f == 0x6 {
        Ok(advance(with_reg(s, x, nn as u8)))
    } else if f == 0x7 {
        Ok(advance(with_reg(s, x, ((s.registers[x] + nn) % 256) as u8)))
    } else if f == 0x8 {
        Ok(advance(alu_spec(s, x, y, n)))
    } else if f == 0x9 {
        if n == 0 {
            Ok(skip_if(s, s.registers[x] != s.registers[y]))
        } else {
            Ok(advance(s))
        }
    } else if f == 0xA {
        Ok(advance(State { index: nnn, ..s }))
    } else if f == 0xB {
        Ok(with_pc(s, nnn + s.registers[0]))
    } else if f == 0xC {
        Ok(advance(with_reg(s, x, random & (nn as u8))))
    } else if f == 0xD {
        draw_spec(s, x, y, n)
    } else if f == 0xE {
        if nn == 0x9E {
            Ok(skip_if(s, key_down(s.keys, s.registers[x])))
        } else if nn == 0xA1 {
            Ok(skip_if(s, !key_down(s.keys, s.registers[x])))
        } else {
            Ok(advance(s))
        }
    } else {
        misc_spec(s, x, nn)
    }
}

/// One cycle: a waiting machine samples the keypad; a running one fetches the
/// instruction at the program counter and executes it.
pub open spec fn step_spec(s: State, random: u8) -> Result<State, Fault> {
    match s.mode {
        Mode::AwaitingKey(x) => Ok(await_key_spec(s, x as int)),
        Mode::Running => if s.pc + 1 >= MEMORY_SIZE {
            Err(Fault::MemoryOutOfBounds)
        } else {
            execute_spec(s, fetch(s), random)
        },
    }
}

/// `r` and `after` are what a cycle whose intended outcome is `expected`
/// returned and left behind: the new state on success, the untouched state
/// and the fault otherwise.
pub open spec fn follows(before: State, after: State, r: Result<(), Fault>, expected: Result<State, Fault>) -> bool {
    match expected {
        Ok(t) => r == Ok::<(), Fault>(()) && after == t,
        Err(e) => r == Err::<(), Fault>(e) && after == before,
    }
}

/// Memory with `program` copied to the program start.
pub open spec fn loaded(memory: Seq<u8>, program: Seq<u8>) -> Seq<u8> {
    memory.take(PROGRAM_START as int) + program + memory.skip(PROGRAM_START + program.len())
}

/// One timer tick: both timers count down by one and stop at zero.
pub open spec fn tick_spec(s: State) -> State {
    State {
        delay_timer: if s.delay_timer > 0 { (s.delay_timer - 1) as u8 } else { 0 },
        sound_timer: if s.sound_timer > 0 { (s.sound_timer - 1) as u8 } else { 0 },
        ..s
    }
}

} // verus!
