use vstd::prelude::*;

use crate::entropy::random_byte;
use crate::font::{font_table, FONT_LEN};
use crate::state::{
    loaded, tick_spec, LoadError, MAX_PROGRAM_LEN,
    cell_at, cell_col, cell_row, collides, draw_spec, drawn, lemma_cell_at, row_bit,
    sprite_covers, DISPLAY_HEIGHT, DISPLAY_WIDTH,
    advance, alu_spec, await_key_spec, execute_spec, first_pressed, follows, initial_state,
    key_down, misc_spec, skip_if, step_spec, with_reg, Fault, Mode, FLAG, State, DISPLAY_SIZE, MEMORY_SIZE, NUM_KEYS, NUM_REGISTERS, PROGRAM_START,
    STACK_DEPTH,
};

verus! {

/// A CHIP-8 machine.
pub struct Chip8 {
    memory: Vec<u8>,
    display: Vec<u8>,
    registers: Vec<u8>,
    index: u16,
    program_counter: u16,
    delay_timer: u8,
    sound_timer: u8,
    stack: Vec<u16>,
    sp: u8,
    keys: Vec<bool>,
    mode: Mode,
}

impl View for Chip8 {
    type V = State;

    closed spec fn view(&self) -> State {
        State {
            memory: self.memory@,
            display: self.display@,
            registers: self.registers@,
            index: self.index,
            pc: self.program_counter,
            delay_timer: self.delay_timer,
            sound_timer: self.sound_timer,
            stack: self.stack@,
            sp: self.sp,
            keys: self.keys@,
            mode: self.mode,
        }
    }
}

impl Chip8 {
    /// A machine with the font loaded at address 0, all else zero and the
    /// program counter at the program start.
    pub fn new() -> (r: Chip8)
        ensures
            r@ == initial_state(),
            r@.wf(),
    {
        let font = font_table();
        let mut memory: Vec<u8> = vec![0u8; MEMORY_SIZE];
        let mut i: usize = 0;
        while i < FONT_LEN
            invariant
                font@.len() == FONT_LEN,
                memory@.len() == MEMORY_SIZE,
                0 <= i <= FONT_LEN,
                forall|j: int| 0 <= j < i ==> memory@[j] == font@[j],
                forall|j: int| i <= j < MEMORY_SIZE ==> memory@[j] == 0,
            decreases FONT_LEN - i,
        {
            memory[i] = font[i];
            i += 1;
        }
        let r = Chip8 {
            memory,
            display: vec![0u8; DISPLAY_SIZE],
            registers: vec![0u8; NUM_REGISTERS],
            index: 0,
            program_counter: PROGRAM_START as u16,
            delay_timer: 0,
            sound_timer: 0,
            stack: vec![0u16; STACK_DEPTH],
            sp: 0,
            keys: vec![false; NUM_KEYS],
            mode: Mode::Running,
        };
        assert(r@.memory =~= initial_state().memory);
        assert(r@.display =~= initial_state().display);
        assert(r@.registers =~= initial_state().registers);
        assert(r@.stack =~= initial_state().stack);
        assert(r@.keys =~= initial_state().keys);
        r
    }

    fn set_reg(&mut self, x: usize, v: u8)
        requires
            x < NUM_REGISTERS,
            old(self)@.wf(),
        ensures
            final(self)@ == with_reg(old(self)@, x as int, v),
    {
        self.registers.set(x, v);
    }

    fn advance_pc(&mut self)
        requires
            old(self).program_counter <= MEMORY_SIZE - 2,
        ensures
            final(self)@ == advance(old(self)@),
    {
        self.program_counter = self.program_counter + 2;
    }

    fn skip_if(&mut self, cond: bool)
        requires
            old(self).program_counter <= MEMORY_SIZE - 2,
        ensures
            final(self)@ == skip_if(old(self)@, cond),
    {
        if cond {
            self.program_counter = self.program_counter + 4;
        } else {
            self.program_counter = self.program_counter + 2;
        }
    }

    /// The lowest index of a key held down, if any.
    fn pressed_key(&self) -> (r: Option<u8>)
        requires
            self@.wf(),
        ensures
            r == first_pressed(self@.keys, 0),
    {
        let mut i: usize = 0;
        while i < NUM_KEYS
            invariant
                self@.wf(),
                0 <= i <= NUM_KEYS,
                first_pressed(self@.keys, 0) == first_pressed(self@.keys, i as int),
            decreases NUM_KEYS - i,
        {
            if self.keys[i] {
                return Some(i as u8);
            }
            i += 1;
        }
        None
    }

    /// `Fx0A` on a running machine, and each cycle of a waiting one.
    fn await_key(&mut self, x: usize)
        requires
            old(self)@.wf(),
            x < NUM_REGISTERS,
            old(self).program_counter <= MEMORY_SIZE - 2,
        ensures
            final(self)@.wf(),
            final(self)@ == await_key_spec(old(self)@, x as int),
    {
        match self.pressed_key() {
            Some(k) => {
                self.mode = Mode::Running;
                self.set_reg(x, k);
                self.advance_pc();
            },
            None => {
                self.mode = Mode::AwaitingKey(x as u8);
            },
        }
    }

    fn clear_display(&mut self)
        requires
            old(self)@.wf(),
        ensures
            final(self)@ == (State { display: Seq::new(DISPLAY_SIZE as nat, |i: int| 0u8), ..old(self)@ }),
    {
        let mut i: usize = 0;
        while i < DISPLAY_SIZE
            invariant
                0 <= i <= DISPLAY_SIZE,
                self.display@.len() == DISPLAY_SIZE,
                forall|j: int| 0 <= j < i ==> self.display@[j] == 0,
                self@ == (State { display: self.display@, ..old(self)@ }),
            decreases DISPLAY_SIZE - i,
        {
            self.display.set(i, 0);
            i += 1;
        }
        assert(self.display@ =~= Seq::new(DISPLAY_SIZE as nat, |i: int| 0u8));
    }

    /// `8xyN`, without the advance.
    fn alu(&mut self, x: usize, y: usize, n: u16)
        requires
            old(self)@.wf(),
            x < NUM_REGISTERS,
            y < NUM_REGISTERS,
        ensures
            final(self)@ == alu_spec(old(self)@, x as int, y as int, n),
    {
        let vx = self.registers[x];
        let vy = self.registers[y];
        if n == 0 {
            self.set_reg(x, vy);
        } else if n == 1 {
            self.set_reg(x, vx | vy);
        } else if n == 2 {
            self.set_reg(x, vx & vy);
        } else if n == 3 {
            self.set_reg(x, vx ^ vy);
        } else if n == 4 {
            let sum: u16 = vx as u16 + vy as u16;
            self.set_reg(x, (sum % 256) as u8);
            self.set_reg(FLAG, if sum > 255 { 1 } else { 0 });
        } else if n == 5 {
            let d: u8 = if vx >= vy { vx - vy } else { (256 - vy as u16 + vx as u16) as u8 };
            assert(d == ((vx as int - vy as int) % 256) as u8);
            self.set_reg(FLAG, if vx > vy { 1 } else { 0 });
            self.set_reg(x, d);
        } else if n == 6 {
            self.set_reg(FLAG, vx & 1);
            self.set_reg(x, vx >> 1u8);
        } else if n == 7 {
            let d: u8 = if vy >= vx { vy - vx } else { (256 - vx as u16 + vy as u16) as u8 };
            assert(d == ((vy as int - vx as int) % 256) as u8);
            self.set_reg(FLAG, if vy > vx { 1 } else { 0 });
            self.set_reg(x, d);
        } else if n == 0xE {
            self.set_reg(FLAG, vx >> 7u8);
            self.set_reg(x, ((vx as u16 * 2) % 256) as u8);
        }
    }
}

/// Whether cell `i` has been visited by a sprite drawing that has finished
/// the rows before `row` and the columns before `col` of row `row`.
spec fn visited(s: State, vx: u8, vy: u8, n: u16, row: int, col: int, i: int) -> bool {
    &&& sprite_covers(s.memory, s.index, vx, vy, n, i)
    &&& (cell_row(vy, i) < row || (cell_row(vy, i) == row && cell_col(vx, i) < col))
}

impl Chip8 {
    /// `Dxyn`.
    #[verifier::rlimit(50)]
    fn draw(&mut self, x: usize, y: usize, n: u16) -> (r: Result<(), Fault>)
        requires
            old(self)@.wf(),
            x < NUM_REGISTERS,
            y < NUM_REGISTERS,
            n < 16,
            old(self).program_counter <= MEMORY_SIZE - 2,
            old(self).mode == Mode::Running,
        ensures
            final(self)@.wf(),
            follows(old(self)@, final(self)@, r, draw_spec(old(self)@, x as int, y as int, n)),
    {
        if self.index as usize + n as usize > MEMORY_SIZE {
            return Err(Fault::MemoryOutOfBounds);
        }
        self.set_reg(FLAG, 0);
        let vx = self.registers[x];
        let vy = self.registers[y];
        let ghost s0 = self@;
        let mut collision = false;
        let mut row: u16 = 0;
        while row < n
            invariant
                s0.wf(),
                s0.mode == Mode::Running,
                s0.index + n <= MEMORY_SIZE,
                n < 16,
                0 <= row <= n,
                self.display@.len() == DISPLAY_SIZE,
                self@ == (State { display: self.display@, ..s0 }),
                forall|i: int|
                    0 <= i < DISPLAY_SIZE ==> #[trigger] self.display@[i] == if visited(
                        s0,
                        vx,
                        vy,
                        n,
                        row as int,
                        0,
                        i,
                    ) {
                        (1 - s0.display[i]) as u8
                    } else {
                        s0.display[i]
                    },
                collision ==> collides(s0, vx, vy, n),
                !collision ==> forall|i: int|
                    0 <= i < DISPLAY_SIZE && visited(s0, vx, vy, n, row as int, 0, i)
                        ==> s0.display[i] == 0,
            decreases n - row,
        {
            let byte = self.memory[(self.index + row) as usize];
            let mut col: u8 = 0;
            while col < 8
                invariant
                    s0.wf(),
                    s0.index + n <= MEMORY_SIZE,
                    n < 16,
                    0 <= row < n,
                    0 <= col <= 8,
                    byte == s0.memory[s0.index + row],
                    self.display@.len() == DISPLAY_SIZE,
                    self@ == (State { display: self.display@, ..s0 }),
                    forall|i: int|
                        0 <= i < DISPLAY_SIZE ==> #[trigger] self.display@[i] == if visited(
                            s0,
                            vx,
                            vy,
                            n,
                            row as int,
                            col as int,
                            i,
                        ) {
                            (1 - s0.display[i]) as u8
                        } else {
                            s0.display[i]
                        },
                    collision ==> collides(s0, vx, vy, n),
                    !collision ==> forall|i: int|
                        0 <= i < DISPLAY_SIZE && visited(s0, vx, vy, n, row as int, col as int, i)
                            ==> s0.display[i] == 0,
                decreases 8 - col,
            {
                let cx = (vx as usize + col as usize) % DISPLAY_WIDTH;
                let cy = (vy as usize + row as usize) % DISPLAY_HEIGHT;
                let cell = cx + cy * DISPLAY_WIDTH;
                proof {
                    lemma_cell_at(vx, vy, row as int, col as int);
                    assert(cell == cell_at(vx, vy, row as int, col as int));
                }
                let ghost before = self.display@;
                if byte & (0x80u8 >> col) != 0 {
                    let old_cell = self.display[cell];
                    self.display.set(cell, 1 - old_cell);
                    if old_cell == 1 {
                        collision = true;
                        assert(sprite_covers(s0.memory, s0.index, vx, vy, n, cell as int));
                    }
                }
                assert forall|i: int| 0 <= i < DISPLAY_SIZE implies #[trigger] self.display@[i]
                    == if visited(s0, vx, vy, n, row as int, col + 1, i) {
                    (1 - s0.display[i]) as u8
                } else {
                    s0.display[i]
                } by {
                    if i != cell {
                        assert(visited(s0, vx, vy, n, row as int, col + 1, i) == visited(
                            s0,
                            vx,
                            vy,
                            n,
                            row as int,
                            col as int,
                            i,
                        ));
                    }
                }
                col += 1;
            }
            row += 1;
        }
        let flag: u8 = if collision { 1 } else { 0 };
        assert forall|i: int| 0 <= i < DISPLAY_SIZE implies visited(s0, vx, vy, n, n as int, 0, i)
            == sprite_covers(s0.memory, s0.index, vx, vy, n, i) by {}
        self.set_reg(FLAG, flag);
        assert(self.display@ =~= drawn(s0, vx, vy, n));
        assert forall|i: int| 0 <= i < DISPLAY_SIZE implies #[trigger] self.display@[i] <= 1 by {
            assert(s0.display[i] <= 1);
        }
        self.advance_pc();
        Ok(())
    }
}

impl Chip8 {
    /// `Fx55`: V0..=Vx to memory at the index register.
    fn store_registers(&mut self, x: usize)
        requires
            old(self)@.wf(),
            x < NUM_REGISTERS,
            old(self).index as int + x < MEMORY_SIZE,
        ensures
            final(self)@ == (State {
                memory: Seq::new(
                    MEMORY_SIZE as nat,
                    |a: int|
                        if old(self).index <= a <= old(self).index + x {
                            old(self).registers@[a - old(self).index]
                        } else {
                            old(self).memory@[a]
                        },
                ),
                ..old(self)@
            }),
    {
        let base = self.index as usize;
        let mut i: usize = 0;
        while i <= x
            invariant
                0 <= i <= x + 1,
                x < NUM_REGISTERS,
                base == old(self).index,
                base + x < MEMORY_SIZE,
                self.memory@.len() == MEMORY_SIZE,
                self.registers@ == old(self).registers@,
                self.registers@.len() == NUM_REGISTERS,
                self@ == (State { memory: self.memory@, ..old(self)@ }),
                forall|a: int|
                    0 <= a < MEMORY_SIZE ==> #[trigger] self.memory@[a] == if base <= a < base + i {
                        old(self).registers@[a - base]
                    } else {
                        old(self).memory@[a]
                    },
            decreases x + 1 - i,
        {
            let v = self.registers[i];
            self.memory.set(base + i, v);
            i += 1;
        }
        assert(self.memory@ =~= Seq::new(
            MEMORY_SIZE as nat,
            |a: int|
                if old(self).index <= a <= old(self).index + x {
                    old(self).registers@[a - old(self).index]
                } else {
                    old(self).memory@[a]
                },
        ));
    }

    /// `Fx65`: V0..=Vx from memory at the index register.
    fn load_registers(&mut self, x: usize)
        requires
            old(self)@.wf(),
            x < NUM_REGISTERS,
            old(self).index as int + x < MEMORY_SIZE,
        ensures
            final(self)@ == (State {
                registers: Seq::new(
                    NUM_REGISTERS as nat,
                    |i: int|
                        if i <= x {
                            old(self).memory@[old(self).index + i]
                        } else {
                            old(self).registers@[i]
                        },
                ),
                ..old(self)@
            }),
    {
        let base = self.index as usize;
        let mut i: usize = 0;
        while i <= x
            invariant
                0 <= i <= x + 1,
                x < NUM_REGISTERS,
                base == old(self).index,
                base + x < MEMORY_SIZE,
                self.memory@ == old(self).memory@,
                self.memory@.len() == MEMORY_SIZE,
                self.registers@.len() == NUM_REGISTERS,
                self@ == (State { registers: self.registers@, ..old(self)@ }),
                forall|r: int|
                    0 <= r < NUM_REGISTERS ==> #[trigger] self.registers@[r] == if r < i {
                        old(self).memory@[base + r]
                    } else {
                        old(self).registers@[r]
                    },
            decreases x + 1 - i,
        {
            let v = self.memory[base + i];
            self.registers.set(i, v);
            i += 1;
        }
        assert(self.registers@ =~= Seq::new(
            NUM_REGISTERS as nat,
            |i: int|
                if i <= x {
                    old(self).memory@[old(self).index + i]
                } else {
                    old(self).registers@[i]
                },
        ));
    }

    /// `Fxnn`.
    fn misc(&mut self, x: usize, nn: u16) -> (r: Result<(), Fault>)
        requires
            old(self)@.wf(),
            x < NUM_REGISTERS,
            old(self).program_counter <= MEMORY_SIZE - 2,
            old(self).mode == Mode::Running,
        ensures
            final(self)@.wf(),
            follows(old(self)@, final(self)@, r, misc_spec(old(self)@, x as int, nn)),
    {
        let vx = self.registers[x];
        if nn == 0x07 {
            let d = self.delay_timer;
            self.set_reg(x, d);
        } else if nn == 0x0A {
            self.await_key(x);
            return Ok(());
        } else if nn == 0x15 {
            self.delay_timer = vx;
        } else if nn == 0x18 {
            self.sound_timer = vx;
        } else if nn == 0x1E {
            if self.index as usize + vx as usize >= MEMORY_SIZE {
                return Err(Fault::MemoryOutOfBounds);
            }
            self.index = self.index + vx as u16;
        } else if nn == 0x29 {
            self.index = vx as u16 * 5;
        } else if nn == 0x33 {
            if self.index as usize + 2 >= MEMORY_SIZE {
                return Err(Fault::MemoryOutOfBounds);
            }
            let i = self.index as usize;
            self.memory.set(i, vx / 100);
            self.memory.set(i + 1, (vx / 10) % 10);
            self.memory.set(i + 2, vx % 10);
        } else if nn == 0x55 {
            if self.index as usize + x >= MEMORY_SIZE {
                return Err(Fault::MemoryOutOfBounds);
            }
            self.store_registers(x);
        } else if nn == 0x65 {
            if self.index as usize + x >= MEMORY_SIZE {
                return Err(Fault::MemoryOutOfBounds);
            }
            self.load_registers(x);
        }
        self.advance_pc();
        Ok(())
    }

    /// One instruction on a running machine whose program counter leaves room
    /// for a whole instruction word.
    fn execute(&mut self, op: u16, random: u8) -> (r: Result<(), Fault>)
        requires
            old(self)@.wf(),
            old(self).mode == Mode::Running,
            old(self).program_counter <= MEMORY_SIZE - 2,
        ensures
            final(self)@.wf(),
            follows(old(self)@, final(self)@, r, execute_spec(old(self)@, op, random)),
    {
        let family = op / 0x1000;
        let x = ((op / 0x100) % 0x10) as usize;
        let y = ((op / 0x10) % 0x10) as usize;
        let n = op % 0x10;
        let nn = op % 0x100;
        let nnn = op % 0x1000;
        if family == 0x0 {
            if op == 0x00E0 {
                self.clear_display();
            } else if op == 0x00EE {
                if self.sp == 0 {
                    return Err(Fault::StackUnderflow);
                }
                self.sp = self.sp - 1;
                self.program_counter = self.stack[self.sp as usize] + 2;
                return Ok(());
            }
            self.advance_pc();
        } else if family == 0x1 {
            self.program_counter = nnn;
        } else if family == 0x2 {
            if self.sp as usize >= STACK_DEPTH {
                return Err(Fault::StackOverflow);
            }
            self.stack.set(self.sp as usize, self.program_counter);
            self.sp = self.sp + 1;
            self.program_counter = nnn;
        } else if family == 0x3 {
            let cond = self.registers[x] as u16 == nn;
            self.skip_if(cond);
        } else if family == 0x4 {
            let cond = self.registers[x] as u16 != nn;
            self.skip_if(cond);
        } else if family == 0x5 && n == 0 {
            let cond = self.registers[x] == self.registers[y];
            self.skip_if(cond);
        } else if family == 0x6 {
            self.set_reg(x, nn as u8);
            self.advance_pc();
        } else if family == 0x7 {
            let v = ((self.registers[x] as u16 + nn) % 256) as u8;
            self.set_reg(x, v);
            self.advance_pc();
        } else if family == 0x8 {
            self.alu(x, y, n);
            self.advance_pc();
        } else if family == 0x9 && n == 0 {
            let cond = self.registers[x] != self.registers[y];
            self.skip_if(cond);
        } else if family == 0xA {
            self.index = nnn;
            self.advance_pc();
        } else if family == 0xB {
            self.program_counter = nnn + self.registers[0] as u16;
        } else if family == 0xC {
            self.set_reg(x, random & (nn as u8));
            self.advance_pc();
        } else if family == 0xD {
            return self.draw(x, y, n);
        } else if family == 0xE && (nn == 0x9E || nn == 0xA1) {
            let k = self.registers[x];
            let down = (k as usize) < NUM_KEYS && self.keys[k as usize];
            assert(down == key_down(self@.keys, k));
            self.skip_if(if nn == 0x9E { down } else { !down });
        } else if family == 0xF {
            return self.misc(x, nn);
        } else {
            self.advance_pc();
        }
        Ok(())
    }

    /// Runs one cycle with `random` as the byte that `Cxnn` masks: a waiting
    /// machine samples the keypad, a running one executes the instruction at
    /// the program counter. On a fault the machine is left unchanged.
    pub fn step(&mut self, random: u8) -> (r: Result<(), Fault>)
        requires
            old(self)@.wf(),
        ensures
            final(self)@.wf(),
            follows(old(self)@, final(self)@, r, step_spec(old(self)@, random)),
    {
        match self.mode {
            Mode::AwaitingKey(x) => {
                self.await_key(x as usize);
                Ok(())
            },
            Mode::Running => {
                let pc = self.program_counter as usize;
                if pc + 1 >= MEMORY_SIZE {
                    return Err(Fault::MemoryOutOfBounds);
                }
                let op: u16 = self.memory[pc] as u16 * 256 + self.memory[pc + 1] as u16;
                self.execute(op, random)
            },
        }
    }

    /// Runs one cycle, drawing the byte that `Cxnn` masks from the thread's
    /// random generator. Whatever byte came, the outcome is that of `step`
    /// with it.
    pub fn run(&mut self) -> (r: Result<(), Fault>)
        requires
            old(self)@.wf(),
        ensures
            final(self)@.wf(),
            exists|random: u8| follows(old(self)@, final(self)@, r, step_spec(old(self)@, random)),
    {
        let random = random_byte();
        self.step(random)
    }
}

impl Chip8 {
    /// Copies `program` into memory at the program start. A program longer
    /// than the space up to the end of memory is refused and nothing changes.
    pub fn load_program(&mut self, program: &[u8]) -> (r: Result<(), LoadError>)
        requires
            old(self)@.wf(),
        ensures
            final(self)@.wf(),
            program@.len() > MAX_PROGRAM_LEN ==> r == Err::<(), LoadError>(LoadError::TooLarge)
                && final(self)@ == old(self)@,
            program@.len() <= MAX_PROGRAM_LEN ==> r == Ok::<(), LoadError>(()) && final(self)@
                == (State { memory: loaded(old(self)@.memory, program@), ..old(self)@ }),
    {
        if program.len() > MAX_PROGRAM_LEN {
            return Err(LoadError::TooLarge);
        }
        let mut i: usize = 0;
        while i < program.len()
            invariant
                program@.len() <= MAX_PROGRAM_LEN,
                0 <= i <= program@.len(),
                self.memory@.len() == MEMORY_SIZE,
                self@ == (State { memory: self.memory@, ..old(self)@ }),
                forall|a: int|
                    0 <= a < MEMORY_SIZE ==> #[trigger] self.memory@[a] == if PROGRAM_START <= a
                        < PROGRAM_START + i {
                        program@[a - PROGRAM_START]
                    } else {
                        old(self)@.memory[a]
                    },
            decreases program@.len() - i,
        {
            self.memory.set(PROGRAM_START + i, program[i]);
            i += 1;
        }
        assert(self.memory@ =~= loaded(old(self)@.memory, program@));
        Ok(())
    }

    /// One 60 Hz timer tick: both timers count down by one, stopping at zero.
    pub fn tick(&mut self)
        requires
            old(self)@.wf(),
        ensures
            final(self)@.wf(),
            final(self)@ == tick_spec(old(self)@),
    {
        if self.delay_timer > 0 {
            self.delay_timer = self.delay_timer - 1;
        }
        if self.sound_timer > 0 {
            self.sound_timer = self.sound_timer - 1;
        }
    }

    /// Whether the tone should sound: the sound timer is not zero.
    pub fn sound_timer_active(&self) -> (r: bool)
        ensures
            r == (self@.sound_timer != 0),
    {
        self.sound_timer != 0
    }

    /// Records whether key `index` is held down.
    pub fn set_key(&mut self, index: usize, pressed: bool)
        requires
            old(self)@.wf(),
            index < NUM_KEYS,
        ensures
            final(self)@.wf(),
            final(self)@ == (State { keys: old(self)@.keys.update(index as int, pressed), ..old(self)@ }),
    {
        self.keys.set(index, pressed);
    }

    /// The display cells, row by row, each 0 or 1.
    pub fn pixels(&self) -> (r: &[u8])
        ensures
            r@ == self@.display,
    {
        self.display.as_slice()
    }

    /// The value of register `x`.
    pub fn register(&self, x: usize) -> (r: u8)
        requires
            self@.wf(),
            x < NUM_REGISTERS,
        ensures
            r == self@.registers[x as int],
    {
        self.registers[x]
    }

    /// The byte at address `addr`.
    pub fn memory_at(&self, addr: usize) -> (r: u8)
        requires
            self@.wf(),
            addr < MEMORY_SIZE,
        ensures
            r == self@.memory[addr as int],
    {
        self.memory[addr]
    }

    /// The program counter.
    pub fn program_counter(&self) -> (r: u16)
        ensures
            r == self@.pc,
    {
        self.program_counter
    }

    /// The index register.
    pub fn index(&self) -> (r: u16)
        ensures
            r == self@.index,
    {
        self.index
    }

    /// The number of return addresses on the call stack.
    pub fn stack_pointer(&self) -> (r: u8)
        ensures
            r == self@.sp,
    {
        self.sp
    }

    /// The delay timer.
    pub fn delay_timer(&self) -> (r: u8)
        ensures
            r == self@.delay_timer,
    {
        self.delay_timer
    }

    /// The sound timer.
    pub fn sound_timer(&self) -> (r: u8)
        ensures
            r == self@.sound_timer,
    {
        self.sound_timer
    }

    /// Whether the machine runs or waits for a key.
    pub fn mode(&self) -> (r: Mode)
        ensures
            r == self@.mode,
    {
        self.mode
    }
}

} // verus!
