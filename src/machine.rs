use vstd::arithmetic::div_mod::{lemma_fundamental_div_mod, lemma_fundamental_div_mod_converse};
use vstd::prelude::*;

use crate::op::{decode_spec, Op};

verus! {

/// Size of the memory in bytes.
pub const MEMORY_SIZE: usize = 4096;

/// Address at which a program is loaded, and where execution starts.
pub const PROGRAM_START: usize = 512;

/// Largest program that fits in memory above the load address.
pub const MAX_PROGRAM_SIZE: usize = 3584;

/// Width of the framebuffer in cells.
pub const SCREEN_WIDTH: usize = 64;

/// Height of the framebuffer in cells.
pub const SCREEN_HEIGHT: usize = 32;

/// Number of framebuffer cells.
pub const SCREEN_CELLS: usize = 2048;

/// Number of general-purpose registers, of stack slots and of keys.
pub const REGISTER_COUNT: usize = 16;

/// The register that carry, borrow, shifted-out bits and collisions are reported in.
pub const FLAG_REGISTER: usize = 15;

/// Why a step could not be carried out. A failed step leaves the machine unchanged.
#[derive(Debug, Clone, Copy, PartialEq, Eq, Structural)]
pub enum StepError {
    /// The word at the program counter encodes no instruction.
    InvalidInstruction,
    /// A call was made with every stack slot in use. The stack pointer names the
    /// top slot and is raised before the return address is written, so slot 0
    /// never holds one: fifteen calls can be pending at once.
    StackOverflow,
    /// A return was made with an empty stack.
    StackUnderflow,
    /// A key instruction named a key above 15.
    KeyOutOfRange { key: u8 },
    /// An instruction fetch or a memory access would go past the end of memory.
    MemoryOutOfRange,
    /// Adding to the index register would exceed 16 bits.
    IndexOverflow,
}

/// Why a program could not be loaded.
#[derive(Debug, Clone, Copy, PartialEq, Eq, Structural)]
pub enum LoadError {
    /// The program is longer than the memory above the load address.
    ProgramTooLarge,
}

/// The complete state of one machine, as plain mathematical values.
pub struct MachineState {
    pub memory: Seq<u8>,
    pub program_size: nat,
    pub pc: int,
    pub stack: Seq<u16>,
    pub sp: int,
    pub registers: Seq<u8>,
    pub index: int,
    pub delay_timer: u8,
    pub sound_timer: u8,
    pub keys: Seq<bool>,
    pub pixels: Seq<bool>,
}

impl MachineState {
    /// Every component has its fixed size and every counter fits its register.
    pub open spec fn wf(self) -> bool {
        &&& self.memory.len() == MEMORY_SIZE
        &&& self.program_size <= MAX_PROGRAM_SIZE
        &&& 0 <= self.pc < 0x10000
        &&& self.stack.len() == REGISTER_COUNT
        &&& 0 <= self.sp < REGISTER_COUNT
        &&& self.registers.len() == REGISTER_COUNT
        &&& 0 <= self.index < 0x10000
        &&& self.keys.len() == REGISTER_COUNT
        &&& self.pixels.len() == SCREEN_CELLS
    }

    pub open spec fn reg(self, i: u8) -> u8 {
        self.registers[i as int]
    }

    pub open spec fn set_reg(self, i: u8, v: u8) -> MachineState {
        MachineState { registers: self.registers.update(i as int, v), ..self }
    }

    pub open spec fn set_flag(self, set: bool) -> MachineState {
        self.set_reg(FLAG_REGISTER as u8, if set { 1 } else { 0 })
    }

    pub open spec fn with_pc(self, pc: int) -> MachineState {
        MachineState { pc, ..self }
    }

    pub open spec fn with_index(self, index: int) -> MachineState {
        MachineState { index, ..self }
    }

    /// Skips the next instruction when `cond` holds.
    pub open spec fn skip_if(self, cond: bool) -> MachineState {
        if cond {
            self.with_pc(self.pc + 2)
        } else {
            self
        }
    }
}

/// Memory at power-on: the font glyphs at their base address, zero elsewhere.
pub open spec fn initial_memory() -> Seq<u8> {
    Seq::new(
        MEMORY_SIZE as nat,
        |a: int|
            if crate::font::FONT_START <= a < crate::font::FONT_START + 80 {
                crate::font::FONT@[a - crate::font::FONT_START]
            } else {
                0u8
            },
    )
}

/// A machine at power-on, with no program loaded.
pub open spec fn initial_state() -> MachineState {
    MachineState {
        memory: initial_memory(),
        program_size: 0,
        pc: PROGRAM_START as int,
        stack: Seq::new(REGISTER_COUNT as nat, |i: int| 0u16),
        sp: 0,
        registers: Seq::new(REGISTER_COUNT as nat, |i: int| 0u8),
        index: 0,
        delay_timer: 0,
        sound_timer: 0,
        keys: Seq::new(REGISTER_COUNT as nat, |i: int| false),
        pixels: Seq::new(SCREEN_CELLS as nat, |i: int| false),
    }
}

/// The state after copying `program` to the load address.
pub open spec fn load_spec(s: MachineState, program: Seq<u8>) -> Result<MachineState, LoadError> {
    if program.len() > MAX_PROGRAM_SIZE {
        Err(LoadError::ProgramTooLarge)
    } else {
        Ok(
            MachineState {
                memory: Seq::new(
                    MEMORY_SIZE as nat,
                    |a: int|
                        if PROGRAM_START <= a < PROGRAM_START + program.len() {
                            program[a - PROGRAM_START]
                        } else {
                            s.memory[a]
                        },
                ),
                program_size: program.len(),
                ..s
            },
        )
    }
}

/// A further step may run: the counter is inside memory and not past the loaded program.
pub open spec fn can_continue_spec(s: MachineState) -> bool {
    s.pc < MEMORY_SIZE && s.pc <= PROGRAM_START + s.program_size
}

/// The big-endian word at address `a`.
pub open spec fn word_at(memory: Seq<u8>, a: int) -> u16 {
    (memory[a] as int * 256 + memory[a + 1] as int) as u16
}

/// Bit `k` of `b`, counting from the least significant.
pub open spec fn bit_set(b: u8, k: u8) -> bool {
    (b >> k) & 1u8 == 1u8
}

/// Distance of cell `c` from the cell at row `vy`, column `vx`, along the
/// row-major framebuffer, wrapped modulo the number of cells.
pub open spec fn sprite_offset(vx: u8, vy: u8, c: int) -> int {
    (c - (vy as int * SCREEN_WIDTH + vx as int)) % (SCREEN_CELLS as int)
}

/// Cell `c` receives a set bit of `sprite` drawn at (`vx`, `vy`): sprite row `r`
/// lands `r` screen rows down and sprite bit `7 - j` lands `j` cells to the right,
/// both measured along the flattened, wrapped framebuffer.
pub open spec fn sprite_covers(sprite: Seq<u8>, vx: u8, vy: u8, c: int) -> bool {
    let d = sprite_offset(vx, vy, c);
    &&& d / (SCREEN_WIDTH as int) < sprite.len()
    &&& d % (SCREEN_WIDTH as int) < 8
    &&& bit_set(sprite[d / (SCREEN_WIDTH as int)], (7 - d % (SCREEN_WIDTH as int)) as u8)
}

/// The framebuffer after drawing: each covered cell flips.
pub open spec fn draw_pixels(pixels: Seq<bool>, sprite: Seq<u8>, vx: u8, vy: u8) -> Seq<bool> {
    Seq::new(pixels.len(), |c: int| pixels[c] != sprite_covers(sprite, vx, vy, c))
}

/// Drawing turns off at least one lit cell.
pub open spec fn draw_collides(pixels: Seq<bool>, sprite: Seq<u8>, vx: u8, vy: u8) -> bool {
    exists|c: int| 0 <= c < pixels.len() && pixels[c] && #[trigger] sprite_covers(sprite, vx, vy, c)
}

/// The cell that sprite position `k` (row times the width, plus column) lands on
/// lies at offset `k`, and it is the only cell there.
pub proof fn lemma_sprite_cell_offset(vx: u8, vy: u8, k: int)
    requires
        0 <= k < SCREEN_CELLS,
    ensures
        sprite_offset(vx, vy, (vy as int * SCREEN_WIDTH + vx as int + k) % (SCREEN_CELLS as int))
            == k,
        forall|c: int|
            0 <= c < SCREEN_CELLS && sprite_offset(vx, vy, c) == k ==> c == (vy as int
                * SCREEN_WIDTH + vx as int + k) % (SCREEN_CELLS as int),
{
    let base = vy as int * SCREEN_WIDTH + vx as int;
    let c = (base + k) % 2048;
    lemma_fundamental_div_mod(base + k, 2048);
    let q = (base + k) / 2048;
    lemma_fundamental_div_mod_converse(c - base, 2048, -q, k);
    assert forall|c2: int| 0 <= c2 < SCREEN_CELLS && sprite_offset(vx, vy, c2) == k implies c2
        == c by {
        lemma_fundamental_div_mod(c2 - base, 2048);
        let q2 = (c2 - base) / 2048;
        lemma_fundamental_div_mod_converse(base + k, 2048, -q2, c2);
    }
}

/// Key `k` is pressed and no lower-numbered key is.
pub open spec fn is_lowest_pressed(keys: Seq<bool>, k: int) -> bool {
    &&& 0 <= k < keys.len()
    &&& keys[k]
    &&& forall|j: int| 0 <= j < k ==> !keys[j]
}

pub open spec fn any_pressed(keys: Seq<bool>) -> bool {
    exists|k: int| 0 <= k < keys.len() && keys[k]
}

/// The lowest-numbered pressed key.
pub open spec fn lowest_pressed(keys: Seq<bool>) -> int {
    choose|k: int| is_lowest_pressed(keys, k)
}

/// Sprite drawing: `nibble` bytes from the index register, at the position held in
/// registers `x` and `y`; the flag register reports a collision.
pub open spec fn draw_spec(s: MachineState, x: u8, y: u8, nibble: u8) -> Result<
    MachineState,
    StepError,
> {
    if s.index + nibble > MEMORY_SIZE {
        Err(StepError::MemoryOutOfRange)
    } else {
        let sprite = s.memory.subrange(s.index, s.index + nibble);
        let (vx, vy) = (s.reg(x), s.reg(y));
        Ok(
            MachineState {
                pixels: draw_pixels(s.pixels, sprite, vx, vy),
                ..s
            }.set_flag(draw_collides(s.pixels, sprite, vx, vy)),
        )
    }
}

/// Registers 0 to `x` stored at the index register, which then moves past them.
pub open spec fn store_registers_spec(s: MachineState, x: u8) -> Result<MachineState, StepError> {
    if s.index + x >= MEMORY_SIZE {
        Err(StepError::MemoryOutOfRange)
    } else {
        Ok(
            MachineState {
                memory: Seq::new(
                    MEMORY_SIZE as nat,
                    |a: int|
                        if s.index <= a <= s.index + x {
                            s.registers[a - s.index]
                        } else {
                            s.memory[a]
                        },
                ),
                index: s.index + x + 1,
                ..s
            },
        )
    }
}

/// Registers 0 to `x` loaded from the index register, which then moves past them.
pub open spec fn load_registers_spec(s: MachineState, x: u8) -> Result<MachineState, StepError> {
    if s.index + x >= MEMORY_SIZE {
        Err(StepError::MemoryOutOfRange)
    } else {
        Ok(
            MachineState {
                registers: Seq::new(
                    REGISTER_COUNT as nat,
                    |i: int|
                        if i <= x {
                            s.memory[s.index + i]
                        } else {
                            s.registers[i]
                        },
                ),
                index: s.index + x + 1,
                ..s
            },
        )
    }
}

/// The hundreds, tens and ones digits of register `x` written at the index register.
pub open spec fn store_bcd_spec(s: MachineState, x: u8) -> Result<MachineState, StepError> {
    if s.index + 2 >= MEMORY_SIZE {
        Err(StepError::MemoryOutOfRange)
    } else {
        let v = s.reg(x);
        Ok(
            MachineState {
                memory: s.memory.update(s.index, v / 100).update(s.index + 1, (v / 10) % 10).update(
                    s.index + 2,
                    v % 10,
                ),
                ..s
            },
        )
    }
}

/// The effect of `op` on a state whose counter already points past it;
/// `random` is the byte that the random instruction draws.
pub open spec fn execute_spec(s: MachineState, op: Op, random: u8) -> Result<MachineState, StepError> {
    match op {
        Op::CLS => Ok(MachineState { pixels: Seq::new(SCREEN_CELLS as nat, |c: int| false), ..s }),
        Op::RET => {
            if s.sp == 0 {
                Err(StepError::StackUnderflow)
            } else {
                Ok(MachineState { pc: s.stack[s.sp] as int, sp: s.sp - 1, ..s })
            }
        },
        Op::SYS { .. } => Ok(s),
        Op::JP { addr } => Ok(s.with_pc(addr as int)),
        Op::CALL { addr } => {
            if s.sp + 1 >= REGISTER_COUNT {
                Err(StepError::StackOverflow)
            } else {
                Ok(
                    MachineState {
                        sp: s.sp + 1,
                        stack: s.stack.update(s.sp + 1, s.pc as u16),
                        pc: addr as int,
                        ..s
                    },
                )
            }
        },
        Op::SE { x, byte } => Ok(s.skip_if(s.reg(x) == byte)),
        Op::SNE { x, byte } => Ok(s.skip_if(s.reg(x) != byte)),
        Op::SE_VX_VY { x, y } => Ok(s.skip_if(s.reg(x) == s.reg(y))),
        Op::LD { x, byte } => Ok(s.set_reg(x, byte)),
        Op::ADD { x, byte } => Ok(s.set_reg(x, ((s.reg(x) + byte) % 256) as u8)),
        Op::LD_VX_VY { x, y } => Ok(s.set_reg(x, s.reg(y))),
        Op::OR_VX_VY { x, y } => Ok(s.set_reg(x, s.reg(x) | s.reg(y))),
        Op::AND_VX_VY { x, y } => Ok(s.set_reg(x, s.reg(x) & s.reg(y))),
        Op::XOR_VX_VY { x, y } => Ok(s.set_reg(x, s.reg(x) ^ s.reg(y))),
        Op::ADD_VX_VY { x, y } => {
            let sum = s.reg(x) + s.reg(y);
            Ok(s.set_flag(sum > 255).set_reg(x, (sum % 256) as u8))
        },
        Op::SUB_VX_VY { x, y } => {
            let (a, b) = (s.reg(x), s.reg(y));
            Ok(s.set_reg(x, ((a - b) % 256) as u8).set_flag(a >= b))
        },
        Op::SHR_VX_VY { x, .. } => {
            let v = s.reg(x);
            Ok(s.set_reg(x, v >> 1u8).set_reg(FLAG_REGISTER as u8, v & 1u8))
        },
        Op::SUBN_VX_VY { x, y } => {
            let (a, b) = (s.reg(x), s.reg(y));
            Ok(s.set_reg(x, ((b - a) % 256) as u8).set_flag(b >= a))
        },
        Op::SHL_VX_VY { x, .. } => {
            let v = s.reg(x);
            Ok(s.set_reg(x, v << 1u8).set_reg(FLAG_REGISTER as u8, v >> 7u8))
        },
        Op::SNE_VX_VY { x, y } => Ok(s.skip_if(s.reg(x) != s.reg(y))),
        Op::LD_I { addr } => Ok(s.with_index(addr as int)),
        Op::JP_V0 { addr } => Ok(s.with_pc(addr + s.reg(0))),
        Op::RND { x, byte } => Ok(s.set_reg(x, random & byte)),
        Op::DRW { x, y, nibble } => draw_spec(s, x, y, nibble),
        Op::SKP { x } => {
            let k = s.reg(x);
            if k >= REGISTER_COUNT {
                Err(StepError::KeyOutOfRange { key: k })
            } else {
                Ok(s.skip_if(s.keys[k as int]))
            }
        },
        Op::SKNP { x } => {
            let k = s.reg(x);
            if k >= REGISTER_COUNT {
                Err(StepError::KeyOutOfRange { key: k })
            } else {
                Ok(s.skip_if(!s.keys[k as int]))
            }
        },
        Op::LD_VX_DT { x } => Ok(s.set_reg(x, s.delay_timer)),
        Op::LD_VX_K { x } => {
            if any_pressed(s.keys) {
                Ok(s.set_reg(x, lowest_pressed(s.keys) as u8))
            } else {
                Ok(s.with_pc(s.pc - 2))
            }
        },
        Op::LD_DT_VX { x } => Ok(MachineState { delay_timer: s.reg(x), ..s }),
        Op::LD_ST_VX { x } => Ok(MachineState { sound_timer: s.reg(x), ..s }),
        Op::ADD_I_VX { x } => {
            if s.index + s.reg(x) >= 0x10000 {
                Err(StepError::IndexOverflow)
            } else {
                Ok(s.with_index(s.index + s.reg(x)))
            }
        },
        Op::LD_F_VX { x } => Ok(s.with_index(crate::font::FONT_START + 5 * s.reg(x))),
        Op::LD_B_VX { x } => store_bcd_spec(s, x),
        Op::LD_I_VX { x } => store_registers_spec(s, x),
        Op::LD_VX_I { x } => load_registers_spec(s, x),
        Op::INVALID => Err(StepError::InvalidInstruction),
    }
}

/// Each timer that is above zero goes down by one.
pub open spec fn tick_timers(s: MachineState) -> MachineState {
    MachineState {
        delay_timer: if s.delay_timer > 0 { (s.delay_timer - 1) as u8 } else { 0 },
        sound_timer: if s.sound_timer > 0 { (s.sound_timer - 1) as u8 } else { 0 },
        ..s
    }
}

/// One step: fetch the word at the counter, advance the counter by two, execute,
/// then tick the timers. Past the runnable region a step changes nothing.
pub open spec fn step_spec(s: MachineState, random: u8) -> Result<MachineState, StepError> {
    if !can_continue_spec(s) {
        Ok(s)
    } else if s.pc + 1 >= MEMORY_SIZE {
        Err(StepError::MemoryOutOfRange)
    } else {
        match execute_spec(s.with_pc(s.pc + 2), decode_spec(word_at(s.memory, s.pc)), random) {
            Ok(t) => Ok(tick_timers(t)),
            Err(e) => Err(e),
        }
    }
}

/// The call returned `r` and left `new` behind, as `expected` prescribes from `old`:
/// on success the prescribed state, on failure its error and the state unchanged.
pub open spec fn outcome_matches(
    old: MachineState,
    new: MachineState,
    r: Result<(), StepError>,
    expected: Result<MachineState, StepError>,
) -> bool {
    match expected {
        Ok(t) => r is Ok && new == t,
        Err(e) => r == Err::<(), StepError>(e) && new == old,
    }
}

} // verus!
