use vstd::prelude::*;
use crate::display::{Display, screen_wf, sprite_screen, sprite_erases, draw_row, row_erases, PIXELS};
use crate::keypad::{KeyPad, HostKey, KEY_COUNT, held};

verus! {

/// Relies on rand::random (the thread-local generator's `gen`) for the byte
/// that a random-number instruction masks. Any value may come back, so
/// nothing is promised of it. It panics only when the operating system's
/// entropy source cannot seed the generator.
pub assume_specification<T>[ rand::random::<T> ]() -> (r: T)
    where
        rand::distributions::Standard: rand::distributions::Distribution<T>,
;

/// Bytes of addressable memory.
pub const MEMORY_SIZE: usize = 4096;

/// Address at which programs are loaded and execution starts.
pub const PROGRAM_START: usize = 0x200;

/// Largest program that fits between `PROGRAM_START` and the end of memory.
pub const PROGRAM_CAPACITY: usize = 3584;

/// Bytes taken by the built-in font at the bottom of memory.
pub const FONT_SIZE: usize = 80;

/// Number of general-purpose registers.
pub const REGISTER_COUNT: usize = 16;

/// The register that receives carry, borrow, shifted-out and collision flags.
pub const FLAG_REGISTER: usize = 15;

/// The built-in glyphs of the hexadecimal digits 0 to F, five rows each.
pub open spec fn font() -> Seq<u8> {
    seq![
        0xF0u8, 0x90, 0x90, 0x90, 0xF0, 0x20, 0x60, 0x20, 0x20, 0x70,
        0xF0, 0x10, 0xF0, 0x80, 0xF0, 0xF0, 0x10, 0xF0, 0x10, 0xF0,
        0x90, 0x90, 0xF0, 0x10, 0x10, 0xF0, 0x80, 0xF0, 0x10, 0xF0,
        0xF0, 0x80, 0xF0, 0x90, 0xF0, 0xF0, 0x10, 0x20, 0x40, 0x40,
        0xF0, 0x90, 0xF0, 0x90, 0xF0, 0xF0, 0x90, 0xF0, 0x10, 0xF0,
        0xF0, 0x90, 0xF0, 0x90, 0x90, 0xE0, 0x90, 0xE0, 0x90, 0xE0,
        0xF0, 0x80, 0x80, 0x80, 0xF0, 0xE0, 0x90, 0x90, 0x90, 0xE0,
        0xF0, 0x80, 0xF0, 0x80, 0xF0, 0xF0, 0x80, 0xF0, 0x80, 0x80,
    ]
}

/// Why a step could not be executed. Both are fatal to the running program.
#[derive(Clone, Copy, Debug, PartialEq, Eq, Structural)]
pub enum StepError {
    /// The opcode fetched at `pc` matches no instruction.
    UnknownOpcode { opcode: u16, pc: u16 },
    /// A return at `pc` found the call stack empty.
    StackUnderflow { pc: u16 },
}

/// Why a program could not be loaded; nothing was written.
#[derive(Clone, Copy, Debug, PartialEq, Eq, Structural)]
pub enum LoadError {
    /// The program has `len` bytes, more than fit above `PROGRAM_START`.
    ProgramTooLarge { len: usize },
}

/// The mathematical state of a machine.
pub struct Machine {
    pub registers: Seq<u8>,
    pub index: u16,
    pub pc: u16,
    pub stack: Seq<u16>,
    pub memory: Seq<u8>,
    pub screen: Seq<u8>,
    pub keys: Seq<bool>,
    pub delay_timer: u8,
    pub sound_timer: u8,
    pub redraw: bool,
}

/// Sizes that every reachable state has.
pub open spec fn machine_wf(s: Machine) -> bool {
    &&& s.registers.len() == REGISTER_COUNT
    &&& s.memory.len() == MEMORY_SIZE
    &&& screen_wf(s.screen)
    &&& s.keys.len() == KEY_COUNT
}

/// The state of a fresh machine: all zero but the font and the program counter.
pub open spec fn initial() -> Machine {
    Machine {
        registers: Seq::new(REGISTER_COUNT as nat, |r: int| 0u8),
        index: 0,
        pc: PROGRAM_START as u16,
        stack: Seq::empty(),
        memory: Seq::new(MEMORY_SIZE as nat, |a: int| if a < FONT_SIZE { font()[a] } else { 0u8 }),
        screen: Seq::new(PIXELS as nat, |p: int| 0u8),
        keys: Seq::new(KEY_COUNT as nat, |c: int| false),
        delay_timer: 0,
        sound_timer: 0,
        redraw: false,
    }
}

/// The state after writing `program` into memory from `PROGRAM_START` on.
pub open spec fn loaded(s: Machine, program: Seq<u8>) -> Machine {
    Machine {
        memory: Seq::new(
            s.memory.len(),
            |a: int|
                if PROGRAM_START <= a < PROGRAM_START + program.len() {
                    program[a - PROGRAM_START]
                } else {
                    s.memory[a]
                },
        ),
        ..s
    }
}

/// The memory cell that address `a` reaches: addresses wrap at 4 KiB.
pub open spec fn mem_addr(a: int) -> int {
    a % 4096
}

/// `a` truncated to 16 bits.
pub open spec fn wrap16(a: int) -> u16 {
    (a % 65536) as u16
}

/// The big-endian opcode at the program counter.
pub open spec fn fetch(s: Machine) -> u16 {
    (s.memory[mem_addr(s.pc as int)] as int * 256 + s.memory[mem_addr(s.pc + 1)] as int) as u16
}

/// Register operand in bits 8 to 11.
pub open spec fn op_x(op: u16) -> int {
    (op as int / 256) % 16
}

/// Register operand in bits 4 to 7.
pub open spec fn op_y(op: u16) -> int {
    (op as int / 16) % 16
}

/// Immediate nibble in bits 0 to 3.
pub open spec fn op_n(op: u16) -> int {
    op as int % 16
}

/// Immediate byte in bits 0 to 7.
pub open spec fn op_nn(op: u16) -> u8 {
    (op as int % 256) as u8
}

/// Immediate address in bits 0 to 11.
pub open spec fn op_nnn(op: u16) -> u16 {
    (op as int % 4096) as u16
}

/// The state with the program counter moved on by `by` bytes.
pub open spec fn advance(s: Machine, by: int) -> Machine {
    Machine { pc: wrap16(s.pc + by), ..s }
}

/// Moves past the next instruction when `cond` holds, else past this one.
pub open spec fn skip_if(s: Machine, cond: bool) -> Machine {
    advance(s, if cond { 4 } else { 2 })
}

/// The state with register `x` set to `v`.
pub open spec fn set_reg(s: Machine, x: int, v: u8) -> Machine {
    Machine { registers: s.registers.update(x, v), ..s }
}

/// Result of register-to-register instruction `n` on `vx` and `vy`, and the
/// flag that it writes, if it writes one. Shifts act on `vx` and flag the bit
/// shifted out of it.
pub open spec fn alu(vx: u8, vy: u8, n: int) -> Option<(u8, Option<u8>)> {
    if n == 0x0 {
        Some((vy, None))
    } else if n == 0x1 {
        Some((vx | vy, None))
    } else if n == 0x2 {
        Some((vx & vy, None))
    } else if n == 0x3 {
        Some((vx ^ vy, None))
    } else if n == 0x4 {
        Some((((vx + vy) % 256) as u8, Some(if vx + vy >= 256 { 1u8 } else { 0u8 })))
    } else if n == 0x5 {
        Some((((vx - vy) % 256) as u8, Some(if vx >= vy { 1u8 } else { 0u8 })))
    } else if n == 0x6 {
        Some(((vx / 2) as u8, Some((vx % 2) as u8)))
    } else if n == 0x7 {
        Some((((vy - vx) % 256) as u8, Some(if vy >= vx { 1u8 } else { 0u8 })))
    } else if n == 0xE {
        Some((((vx * 2) % 256) as u8, Some((vx / 128) as u8)))
    } else {
        None
    }
}

/// The `n` sprite rows that start at the index register.
pub open spec fn sprite_rows(s: Machine, n: int) -> Seq<u8> {
    Seq::new(n as nat, |k: int| s.memory[mem_addr(s.index + k)])
}

/// The state after drawing an `n`-row sprite at `(x, y)`: the flag register
/// tells whether a set pixel was cleared, and a redraw is pending.
pub open spec fn draw_sprite_state(s: Machine, x: u8, y: u8, n: int) -> Machine {
    let rows = sprite_rows(s, n);
    Machine {
        screen: sprite_screen(s.screen, rows, x as int, y as int),
        registers: s.registers.update(
            FLAG_REGISTER as int,
            if sprite_erases(s.screen, rows, x as int, y as int) { 1u8 } else { 0u8 },
        ),
        redraw: true,
        ..s
    }
}

/// Memory after `v` is written as three decimal digits from `index` on.
pub open spec fn decimal_digits(mem: Seq<u8>, index: int, v: u8) -> Seq<u8> {
    mem.update(mem_addr(index), (v / 100) as u8).update(
        mem_addr(index + 1),
        ((v % 100) / 10) as u8,
    ).update(mem_addr(index + 2), (v % 10) as u8)
}

/// Memory after registers 0 to `x` are stored from `index` on.
pub open spec fn stored_registers(mem: Seq<u8>, regs: Seq<u8>, index: int, x: int) -> Seq<u8> {
    Seq::new(
        mem.len(),
        |a: int|
            if mem_addr(a - index) <= x {
                regs[mem_addr(a - index)]
            } else {
                mem[a]
            },
    )
}

/// Registers after 0 to `x` are loaded from memory from `index` on.
pub open spec fn loaded_registers(regs: Seq<u8>, mem: Seq<u8>, index: int, x: int) -> Seq<u8> {
    Seq::new(regs.len(), |r: int| if r <= x { mem[mem_addr(index + r)] } else { regs[r] })
}

/// Whether the key whose code is `code` is pressed.
pub open spec fn key_down(s: Machine, code: u8) -> bool {
    code < KEY_COUNT && s.keys[code as int]
}

/// What opcode `op` does to state `s`, before the timers move; `random` is
/// the byte that a random-number instruction receives.
pub open spec fn execute(s: Machine, op: u16, random: u8) -> Result<Machine, StepError> {
    let x = op_x(op);
    let y = op_y(op);
    let nn = op_nn(op);
    let nnn = op_nnn(op);
    let vx = s.registers[x];
    let vy = s.registers[y];
    let unknown = Err(StepError::UnknownOpcode { opcode: op, pc: s.pc });
    let family = op as int / 4096;
    if family == 0x0 {
        if nn == 0xE0 {
            Ok(advance(Machine { screen: Seq::new(PIXELS as nat, |p: int| 0u8), ..s }, 2))
        } else if nn == 0xEE {
            if s.stack.len() == 0 {
                Err(StepError::StackUnderflow { pc: s.pc })
            } else {
                Ok(Machine { pc: s.stack.last(), stack: s.stack.drop_last(), ..s })
            }
        } else {
            unknown
        }
    } else if family == 0x1 {
        Ok(Machine { pc: nnn, ..s })
    } else if family == 0x2 {
        Ok(Machine { pc: nnn, stack: s.stack.push(wrap16(s.pc + 2)), ..s })
    } else if family == 0x3 {
        Ok(skip_if(s, vx == nn))
    } else if family == 0x4 {
        Ok(skip_if(s, vx != nn))
    } else if family == 0x5 {
        Ok(skip_if(s, vx == vy))
    } else if family == 0x6 {
        Ok(advance(set_reg(s, x, nn), 2))
    } else if family == 0x7 {
        Ok(advance(set_reg(s, x, ((vx + nn) % 256) as u8), 2))
    } else if family == 0x8 {
        match alu(vx, vy, op_n(op)) {
            Some((v, None)) => Ok(advance(set_reg(s, x, v), 2)),
            Some((v, Some(f))) => Ok(advance(set_reg(set_reg(s, x, v), FLAG_REGISTER as int, f), 2)),
            None => unknown,
        }
    } else if family == 0x9 {
        Ok(skip_if(s, vx != vy))
    } else if family == 0xA {
        Ok(advance(Machine { index: nnn, ..s }, 2))
    } else if family == 0xC {
        Ok(advance(set_reg(s, x, random & nn), 2))
    } else if family == 0xD {
        Ok(advance(draw_sprite_state(s, vx, vy, op_n(op)), 2))
    } else if family == 0xE {
        if nn == 0x9E {
            Ok(skip_if(s, key_down(s, vx)))
        } else if nn == 0xA1 {
            Ok(skip_if(s, !key_down(s, vx)))
        } else {
            unknown
        }
    } else if family == 0xF {
        if nn == 0x07 {
            Ok(advance(set_reg(s, x, s.delay_timer), 2))
        } else if nn == 0x15 {
            Ok(advance(Machine { delay_timer: vx, ..s }, 2))
        } else if nn == 0x18 {
            Ok(advance(Machine { sound_timer: vx, ..s }, 2))
        } else if nn == 0x29 {
            Ok(advance(Machine { index: ((vx % 16) * 5) as u16, ..s }, 2))
        } else if nn == 0x33 {
            Ok(advance(Machine { memory: decimal_digits(s.memory, s.index as int, vx), ..s }, 2))
        } else if nn == 0x55 {
            Ok(
                advance(
                    Machine { memory: stored_registers(s.memory, s.registers, s.index as int, x), ..s },
                    2,
                ),
            )
        } else if nn == 0x65 {
            Ok(
                advance(
                    Machine {
                        registers: loaded_registers(s.registers, s.memory, s.index as int, x),
                        index: wrap16(s.index + x + 1),
                        ..s
                    },
                    2,
                ),
            )
        } else if nn == 0x1E {
            Ok(advance(Machine { index: wrap16(s.index + vx), ..s }, 2))
        } else {
            unknown
        }
    } else {
        unknown
    }
}

/// A timer after one step: down by two, stopping at zero.
pub open spec fn timer_after(t: u8) -> u8 {
    if t >= 2 {
        (t - 2) as u8
    } else {
        0
    }
}

/// The state with both timers moved on by one step.
pub open spec fn tick_timers(s: Machine) -> Machine {
    Machine { delay_timer: timer_after(s.delay_timer), sound_timer: timer_after(s.sound_timer), ..s }
}

/// The outcome of one fetch-execute cycle followed by one timer step.
pub open spec fn step_result(s: Machine, random: u8) -> Result<Machine, StepError> {
    match execute(s, fetch(s), random) {
        Ok(t) => Ok(tick_timers(t)),
        Err(e) => Err(e),
    }
}

/// Whether result `r` and state `after` agree with `expected`: on an error
/// the state is left as it was.
pub open spec fn follows(
    r: Result<(), StepError>,
    before: Machine,
    after: Machine,
    expected: Result<Machine, StepError>,
) -> bool {
    match expected {
        Ok(t) => r is Ok && after == t,
        Err(e) => r == Err::<(), StepError>(e) && after == before,
    }
}

/// A CHIP-8 interpreter: registers, memory, call stack, timers, the
/// framebuffer and the keypad.
pub struct Chip8 {
    vx: Vec<u8>,
    pc: u16,
    i: u16,
    sound_timer: u8,
    delay_timer: u8,
    stack: Vec<u16>,
    screen: Display,
    keypad: KeyPad,
    memory: Vec<u8>,
    draw: bool,
}

impl View for Chip8 {
    type V = Machine;

    closed spec fn view(&self) -> Machine {
        Machine {
            registers: self.vx@,
            index: self.i,
            pc: self.pc,
            stack: self.stack@,
            memory: self.memory@,
            screen: self.screen@,
            keys: self.keypad@,
            delay_timer: self.delay_timer,
            sound_timer: self.sound_timer,
            redraw: self.draw,
        }
    }
}


impl Chip8 {
    /// Whether the sizes of registers, memory, screen and keypad are right.
    pub open spec fn wf(&self) -> bool {
        machine_wf(self@)
    }

    /// A machine with the font in low memory, everything else zeroed, and
    /// the program counter at `PROGRAM_START`.
    pub fn new() -> (r: Chip8)
        ensures
            r.wf(),
            r@ == initial(),
    {
        let mut memory = vec![0u8; MEMORY_SIZE];
        let sprites: Vec<u8> = vec![
            0xF0, 0x90, 0x90, 0x90, 0xF0, 0x20, 0x60, 0x20, 0x20, 0x70,
            0xF0, 0x10, 0xF0, 0x80, 0xF0, 0xF0, 0x10, 0xF0, 0x10, 0xF0,
            0x90, 0x90, 0xF0, 0x10, 0x10, 0xF0, 0x80, 0xF0, 0x10, 0xF0,
            0xF0, 0x80, 0xF0, 0x90, 0xF0, 0xF0, 0x10, 0x20, 0x40, 0x40,
            0xF0, 0x90, 0xF0, 0x90, 0xF0, 0xF0, 0x90, 0xF0, 0x10, 0xF0,
            0xF0, 0x90, 0xF0, 0x90, 0x90, 0xE0, 0x90, 0xE0, 0x90, 0xE0,
            0xF0, 0x80, 0x80, 0x80, 0xF0, 0xE0, 0x90, 0x90, 0x90, 0xE0,
            0xF0, 0x80, 0xF0, 0x80, 0xF0, 0xF0, 0x80, 0xF0, 0x80, 0x80,
        ];
        assert(sprites@ =~= font());
        let mut i: usize = 0;
        while i < FONT_SIZE
            invariant
                0 <= i <= FONT_SIZE,
                sprites@ == font(),
                memory@.len() == MEMORY_SIZE,
                forall|a: int| 0 <= a < i ==> memory@[a] == font()[a],
                forall|a: int| i <= a < MEMORY_SIZE ==> memory@[a] == 0,
            decreases FONT_SIZE - i,
        {
            memory.set(i, sprites[i]);
            i = i + 1;
        }
        let r = Chip8 {
            vx: vec![0u8; REGISTER_COUNT],
            pc: PROGRAM_START as u16,
            i: 0,
            stack: Vec::new(),
            screen: Display::new(),
            delay_timer: 0,
            sound_timer: 0,
            memory,
            keypad: KeyPad::new(),
            draw: false,
        };
        assert(r@.registers =~= initial().registers);
        assert(r@.memory =~= initial().memory);
        assert(r@.stack =~= initial().stack);
        r
    }

    /// Copies `program` into memory from `PROGRAM_START` on, or refuses it,
    /// writing nothing, when it does not fit below the end of memory.
    pub fn load_program(&mut self, program: Vec<u8>) -> (r: Result<(), LoadError>)
        requires
            old(self).wf(),
        ensures
            final(self).wf(),
            program@.len() <= PROGRAM_CAPACITY ==> r is Ok && final(self)@ == loaded(old(self)@, program@),
            program@.len() > PROGRAM_CAPACITY ==> r == Err::<(), LoadError>(
                LoadError::ProgramTooLarge { len: program@.len() as usize },
            ) && final(self)@ == old(self)@,
    {
        if program.len() > PROGRAM_CAPACITY {
            return Err(LoadError::ProgramTooLarge { len: program.len() });
        }
        let ghost start = self@;
        let mut k: usize = 0;
        assert(start.memory =~= Seq::new(
            MEMORY_SIZE as nat,
            |a: int|
                if PROGRAM_START <= a < PROGRAM_START + 0 {
                    program@[a - PROGRAM_START]
                } else {
                    start.memory[a]
                },
        ));
        while k < program.len()
            invariant
                0 <= k <= program@.len() <= PROGRAM_CAPACITY,
                machine_wf(start),
                self@ == (Machine {
                    memory: Seq::new(
                        MEMORY_SIZE as nat,
                        |a: int|
                            if PROGRAM_START <= a < PROGRAM_START + k {
                                program@[a - PROGRAM_START]
                            } else {
                                start.memory[a]
                            },
                    ),
                    ..start
                }),
            decreases program.len() - k,
        {
            self.memory.set(PROGRAM_START + k, program[k]);
            k = k + 1;
            assert(self.memory@ =~= Seq::new(
                MEMORY_SIZE as nat,
                |a: int|
                    if PROGRAM_START <= a < PROGRAM_START + k {
                        program@[a - PROGRAM_START]
                    } else {
                        start.memory[a]
                    },
            ));
        }
        assert(self@.memory =~= loaded(start, program@).memory);
        Ok(())
    }

    /// Sets register `x` to `v`.
    fn set_register(&mut self, x: usize, v: u8)
        requires
            old(self).wf(),
            x < REGISTER_COUNT,
        ensures
            final(self).wf(),
            final(self)@ == set_reg(old(self)@, x as int, v),
    {
        self.vx.set(x, v);
    }

    /// Moves the program counter on by `by` bytes, wrapping at 16 bits.
    fn advance_pc(&mut self, by: u16)
        requires
            old(self).wf(),
        ensures
            final(self).wf(),
            final(self)@ == advance(old(self)@, by as int),
    {
        self.pc = ((self.pc as u32 + by as u32) % 65536) as u16;
    }

    /// Draws the `height` rows of the sprite at the index register, row `k`
    /// at `(x, y + k)`, sets the flag register to whether any set pixel was
    /// cleared, and marks a redraw as pending.
    pub fn draw_sprite(&mut self, x: u8, y: u8, height: u8)
        requires
            old(self).wf(),
        ensures
            final(self).wf(),
            final(self)@ == draw_sprite_state(old(self)@, x, y, height as int),
    {
        let ghost start = self@;
        self.draw = true;
        let mut erased = false;
        let mut k: u8 = 0;
        assert(sprite_rows(start, 0) =~= Seq::<u8>::empty());
        while k < height
            invariant
                0 <= k <= height,
                machine_wf(start),
                self.wf(),
                self@ == (Machine {
                    screen: sprite_screen(start.screen, sprite_rows(start, k as int), x as int, y as int),
                    redraw: true,
                    ..start
                }),
                erased == sprite_erases(start.screen, sprite_rows(start, k as int), x as int, y as int),
            decreases height - k,
        {
            let byte = self.memory[(self.i as usize + k as usize) % MEMORY_SIZE];
            let row_y = ((y as usize + k as usize) % 256) as u8;
            let ghost before = self.screen@;
            let e = self.screen.draw(byte, x, row_y);
            proof {
                let rows = sprite_rows(start, k + 1);
                assert(rows.drop_last() =~= sprite_rows(start, k as int));
                assert(rows.last() == byte);
                vstd::arithmetic::div_mod::lemma_mod_mod(y + k, 32, 8);
                lemma_row_depends_on_y_mod(before, byte, x as int, row_y as int, y + k);
            }
            erased = erased || e;
            k = k + 1;
        }
        let flag: u8 = if erased {
            1
        } else {
            0
        };
        self.vx.set(FLAG_REGISTER, flag);
    }

    /// The big-endian opcode at the program counter.
    fn fetch(&self) -> (r: u16)
        requires
            self.wf(),
        ensures
            r == fetch(self@),
    {
        let pc = self.pc as usize;
        let hi = self.memory[pc % MEMORY_SIZE] as u16;
        let lo = self.memory[(pc + 1) % MEMORY_SIZE] as u16;
        hi * 256 + lo
    }

    /// Executes an opcode of family 0x0: clear the screen, or return.
    fn exec_system(&mut self, op: u16, random: u8) -> (r: Result<(), StepError>)
        requires
            old(self).wf(),
            op / 4096 == 0x0,
        ensures
            final(self).wf(),
            follows(r, old(self)@, final(self)@, execute(old(self)@, op, random)),
    {
        let nn = op % 256;
        if nn == 0xE0 {
            self.screen.clear();
            self.advance_pc(2);
            Ok(())
        } else if nn == 0xEE {
            if self.stack.len() == 0 {
                Err(StepError::StackUnderflow { pc: self.pc })
            } else {
                let ghost before = self.stack@;
                let addr = self.stack.pop().unwrap();
                self.pc = addr;
                assert(self.stack@ =~= before.drop_last());
                Ok(())
            }
        } else {
            Err(StepError::UnknownOpcode { opcode: op, pc: self.pc })
        }
    }

    /// Executes an opcode of family 0x8: register-to-register arithmetic.
    fn exec_alu(&mut self, op: u16, random: u8) -> (r: Result<(), StepError>)
        requires
            old(self).wf(),
            op / 4096 == 0x8,
        ensures
            final(self).wf(),
            follows(r, old(self)@, final(self)@, execute(old(self)@, op, random)),
    {
        let x = ((op / 256) % 16) as usize;
        let y = ((op / 16) % 16) as usize;
        let n = op % 16;
        let vx = self.vx[x];
        let vy = self.vx[y];
        if n == 0x0 {
            self.set_register(x, vy);
        } else if n == 0x1 {
            self.set_register(x, vx | vy);
        } else if n == 0x2 {
            self.set_register(x, vx & vy);
        } else if n == 0x3 {
            self.set_register(x, vx ^ vy);
        } else if n == 0x4 {
            let sum = vx as u16 + vy as u16;
            self.set_register(x, (sum % 256) as u8);
            self.set_register(FLAG_REGISTER, if sum >= 256 { 1 } else { 0 });
        } else if n == 0x5 {
            let diff: u8 = if vx >= vy { vx - vy } else { (256 - vy as u16 + vx as u16) as u8 };
            self.set_register(x, diff);
            self.set_register(FLAG_REGISTER, if vx >= vy { 1 } else { 0 });
        } else if n == 0x6 {
            self.set_register(x, vx / 2);
            self.set_register(FLAG_REGISTER, vx % 2);
        } else if n == 0x7 {
            let diff: u8 = if vy >= vx { vy - vx } else { (256 - vx as u16 + vy as u16) as u8 };
            self.set_register(x, diff);
            self.set_register(FLAG_REGISTER, if vy >= vx { 1 } else { 0 });
        } else if n == 0xE {
            self.set_register(x, ((vx as u16 * 2) % 256) as u8);
            self.set_register(FLAG_REGISTER, vx / 128);
        } else {
            return Err(StepError::UnknownOpcode { opcode: op, pc: self.pc });
        }
        self.advance_pc(2);
        Ok(())
    }

    /// Executes an opcode of family 0xF: timers, font glyphs, decimal digits,
    /// and moves between registers and memory.
    fn exec_misc(&mut self, op: u16, random: u8) -> (r: Result<(), StepError>)
        requires
            old(self).wf(),
            op / 4096 == 0xF,
        ensures
            final(self).wf(),
            follows(r, old(self)@, final(self)@, execute(old(self)@, op, random)),
    {
        let x = ((op / 256) % 16) as usize;
        let nn = op % 256;
        let vx = self.vx[x];
        let ghost start = self@;
        if nn == 0x07 {
            self.set_register(x, self.delay_timer);
        } else if nn == 0x15 {
            self.delay_timer = vx;
        } else if nn == 0x18 {
            self.sound_timer = vx;
        } else if nn == 0x29 {
            self.i = (vx % 16) as u16 * 5;
        } else if nn == 0x33 {
            let base = self.i as usize;
            self.memory.set(base % MEMORY_SIZE, vx / 100);
            self.memory.set((base + 1) % MEMORY_SIZE, vx % 100 / 10);
            self.memory.set((base + 2) % MEMORY_SIZE, vx % 10);
        } else if nn == 0x55 {
            let base = self.i as usize;
            let mut r: usize = 0;
            assert(self.memory@ =~= Seq::new(
                MEMORY_SIZE as nat,
                |a: int|
                    if mem_addr(a - base) < 0 {
                        start.registers[mem_addr(a - base)]
                    } else {
                        start.memory[a]
                    },
            ));
            while r <= x
                invariant
                    0 <= r <= x + 1,
                    x < REGISTER_COUNT,
                    base == start.index,
                    machine_wf(start),
                    self@ == (Machine {
                        memory: Seq::new(
                            MEMORY_SIZE as nat,
                            |a: int|
                                if mem_addr(a - base) < r {
                                    start.registers[mem_addr(a - base)]
                                } else {
                                    start.memory[a]
                                },
                        ),
                        ..start
                    }),
                decreases x + 1 - r,
            {
                let ghost target = (base + r) % 4096;
                proof {
                    assert forall|a: int| 0 <= a < 4096 implies (#[trigger] mem_addr(a - base) == r <==> a == target) by {
                        lemma_offset_of_address(a, base as int, r as int);
                    }
                }
                self.memory.set((base + r) % MEMORY_SIZE, self.vx[r]);
                r = r + 1;
                assert(self.memory@ =~= Seq::new(
                    MEMORY_SIZE as nat,
                    |a: int|
                        if mem_addr(a - base) < r {
                            start.registers[mem_addr(a - base)]
                        } else {
                            start.memory[a]
                        },
                ));
            }
            assert(self@.memory =~= stored_registers(start.memory, start.registers, base as int, x as int));
        } else if nn == 0x65 {
            let base = self.i as usize;
            let mut r: usize = 0;
            assert(self.vx@ =~= Seq::new(
                REGISTER_COUNT as nat,
                |q: int| if q < 0 { start.memory[mem_addr(base + q)] } else { start.registers[q] },
            ));
            while r <= x
                invariant
                    0 <= r <= x + 1,
                    x < REGISTER_COUNT,
                    base == start.index,
                    machine_wf(start),
                    self@ == (Machine {
                        registers: Seq::new(
                            REGISTER_COUNT as nat,
                            |q: int| if q < r { start.memory[mem_addr(base + q)] } else { start.registers[q] },
                        ),
                        ..start
                    }),
                decreases x + 1 - r,
            {
                let v = self.memory[(base + r) % MEMORY_SIZE];
                self.vx.set(r, v);
                r = r + 1;
                assert(self.vx@ =~= Seq::new(
                    REGISTER_COUNT as nat,
                    |q: int| if q < r { start.memory[mem_addr(base + q)] } else { start.registers[q] },
                ));
            }
            assert(self@.registers =~= loaded_registers(start.registers, start.memory, base as int, x as int));
            self.i = ((self.i as u32 + x as u32 + 1) % 65536) as u16;
        } else if nn == 0x1E {
            self.i = ((self.i as u32 + vx as u32) % 65536) as u16;
        } else {
            return Err(StepError::UnknownOpcode { opcode: op, pc: self.pc });
        }
        self.advance_pc(2);
        Ok(())
    }

    /// Executes one opcode, before the timers move; `random` is the byte that
    /// a random-number instruction masks.
    fn execute(&mut self, op: u16, random: u8) -> (r: Result<(), StepError>)
        requires
            old(self).wf(),
        ensures
            final(self).wf(),
            follows(r, old(self)@, final(self)@, execute(old(self)@, op, random)),
    {
        let family = op / 4096;
        let x = ((op / 256) % 16) as usize;
        let y = ((op / 16) % 16) as usize;
        let nn = (op % 256) as u8;
        let nnn = op % 4096;
        let vx = self.vx[x];
        let vy = self.vx[y];
        if family == 0x0 {
            return self.exec_system(op, random);
        } else if family == 0x1 {
            self.pc = nnn;
        } else if family == 0x2 {
            self.stack.push(((self.pc as u32 + 2) % 65536) as u16);
            self.pc = nnn;
        } else if family == 0x3 {
            self.advance_pc(if vx == nn { 4 } else { 2 });
        } else if family == 0x4 {
            self.advance_pc(if vx != nn { 4 } else { 2 });
        } else if family == 0x5 {
            self.advance_pc(if vx == vy { 4 } else { 2 });
        } else if family == 0x6 {
            self.set_register(x, nn);
            self.advance_pc(2);
        } else if family == 0x7 {
            self.set_register(x, ((vx as u16 + nn as u16) % 256) as u8);
            self.advance_pc(2);
        } else if family == 0x8 {
            return self.exec_alu(op, random);
        } else if family == 0x9 {
            self.advance_pc(if vx != vy { 4 } else { 2 });
        } else if family == 0xA {
            self.i = nnn;
            self.advance_pc(2);
        } else if family == 0xC {
            self.set_register(x, random & nn);
            self.advance_pc(2);
        } else if family == 0xD {
            self.draw_sprite(vx, vy, (op % 16) as u8);
            self.advance_pc(2);
        } else if family == 0xE {
            let pressed = self.keypad.is_key_pressed(vx);
            if nn == 0x9E {
                self.advance_pc(if pressed { 4 } else { 2 });
            } else if nn == 0xA1 {
                self.advance_pc(if pressed { 2 } else { 4 });
            } else {
                return Err(StepError::UnknownOpcode { opcode: op, pc: self.pc });
            }
        } else if family == 0xF {
            return self.exec_misc(op, random);
        } else {
            return Err(StepError::UnknownOpcode { opcode: op, pc: self.pc });
        }
        Ok(())
    }

    /// Moves both timers down by two, stopping at zero.
    fn tick_timers(&mut self)
        requires
            old(self).wf(),
        ensures
            final(self).wf(),
            final(self)@ == tick_timers(old(self)@),
    {
        self.delay_timer = if self.delay_timer >= 2 { self.delay_timer - 2 } else { 0 };
        self.sound_timer = if self.sound_timer >= 2 { self.sound_timer - 2 } else { 0 };
    }

    /// One fetch-decode-execute cycle followed by one timer step, with
    /// `random` as the byte that a random-number instruction masks. On an
    /// error nothing changes.
    pub fn step_with_random(&mut self, random: u8) -> (r: Result<(), StepError>)
        requires
            old(self).wf(),
        ensures
            final(self).wf(),
            follows(r, old(self)@, final(self)@, step_result(old(self)@, random)),
    {
        let op = self.fetch();
        let r = self.execute(op, random);
        if r.is_ok() {
            self.tick_timers();
        }
        r
    }

    /// One fetch-decode-execute cycle followed by one timer step; a
    /// random-number instruction draws its byte from the thread's generator.
    pub fn step(&mut self) -> (r: Result<(), StepError>)
        requires
            old(self).wf(),
        ensures
            final(self).wf(),
            exists|random: u8| follows(r, old(self)@, final(self)@, step_result(old(self)@, random)),
    {
        let random: u8 = if self.fetch() / 4096 == 0xC {
            rand::random::<u8>()
        } else {
            0
        };
        self.step_with_random(random)
    }

    /// The pixels, row-major, each 0 or 1.
    pub fn get_display_buffer(&self) -> (r: &[u8])
        requires
            self.wf(),
        ensures
            r@ == self@.screen,
    {
        self.screen.get_display_buffer()
    }

    /// Replaces the keypad latches from the host keys held down.
    pub fn update_keys(&mut self, keys: Vec<HostKey>)
        requires
            old(self).wf(),
        ensures
            final(self).wf(),
            final(self)@ == (Machine {
                keys: Seq::new(KEY_COUNT as nat, |c: int| held(keys@, c)),
                ..old(self)@
            }),
    {
        self.keypad.update_keys(keys);
    }

    /// The value of register `x`.
    pub fn register(&self, x: usize) -> (r: u8)
        requires
            self.wf(),
            x < REGISTER_COUNT,
        ensures
            r == self@.registers[x as int],
    {
        self.vx[x]
    }

    /// The byte at address `addr`, wrapping at 4 KiB.
    pub fn memory_at(&self, addr: u16) -> (r: u8)
        requires
            self.wf(),
        ensures
            r == self@.memory[mem_addr(addr as int)],
    {
        self.memory[addr as usize % MEMORY_SIZE]
    }

    /// The program counter.
    pub fn pc(&self) -> (r: u16)
        ensures
            r == self@.pc,
    {
        self.pc
    }

    /// The index register.
    pub fn index(&self) -> (r: u16)
        ensures
            r == self@.index,
    {
        self.i
    }

    /// Number of return addresses on the call stack.
    pub fn stack_depth(&self) -> (r: usize)
        ensures
            r == self@.stack.len(),
    {
        self.stack.len()
    }

    /// The delay timer.
    pub fn delay_timer(&self) -> (r: u8)
        ensures
            r == self@.delay_timer,
    {
        self.delay_timer
    }

    /// The sound timer; the tone plays while it is not zero.
    pub fn sound_timer(&self) -> (r: u8)
        ensures
            r == self@.sound_timer,
    {
        self.sound_timer
    }

    /// Whether a sprite was drawn since the last `clear_redraw`.
    pub fn redraw_pending(&self) -> (r: bool)
        ensures
            r == self@.redraw,
    {
        self.draw
    }

    /// Marks the framebuffer as presented.
    pub fn clear_redraw(&mut self)
        requires
            old(self).wf(),
        ensures
            final(self).wf(),
            final(self)@ == (Machine { redraw: false, ..old(self)@ }),
    {
        self.draw = false;
    }
}

/// The only address in memory at offset `r` from `base` is `(base + r) % 4096`.
proof fn lemma_offset_of_address(a: int, base: int, r: int)
    requires
        0 <= a < 4096,
        0 <= base,
        0 <= r < 4096,
    ensures
        mem_addr(a - base) == r <==> a == (base + r) % 4096,
{
}

/// Drawing a row depends on its row coordinate only modulo the screen height.
proof fn lemma_row_depends_on_y_mod(screen: Seq<u8>, byte: u8, x: int, y1: int, y2: int)
    requires
        y1 % 32 == y2 % 32,
    ensures
        draw_row(screen, byte, x, y1) == draw_row(screen, byte, x, y2),
        row_erases(screen, byte, x, y1) == row_erases(screen, byte, x, y2),
{
    assert(draw_row(screen, byte, x, y1) =~= draw_row(screen, byte, x, y2));
}

} // verus!
