use rand::Rng;
use vstd::arithmetic::div_mod::{lemma_fundamental_div_mod, lemma_fundamental_div_mod_converse};
use vstd::prelude::*;

use crate::font::{FONT, FONT_START, GLYPH_SIZE};
use crate::machine::{
    any_pressed, can_continue_spec, draw_pixels, draw_spec, execute_spec, initial_memory,
    initial_state, is_lowest_pressed, lemma_sprite_cell_offset, load_registers_spec, load_spec,
    lowest_pressed, outcome_matches, sprite_covers, sprite_offset, step_spec, store_bcd_spec,
    store_registers_spec, word_at, LoadError, MachineState, StepError, FLAG_REGISTER,
    MAX_PROGRAM_SIZE, MEMORY_SIZE, PROGRAM_START, REGISTER_COUNT, SCREEN_CELLS, SCREEN_WIDTH,
};
use crate::op::{
    decode_spec, family_of, lemma_decode_wf, n_of, nn_of, nnn_of, op_wf, x_of, y_of, Op,
};

verus! {

/// The framebuffer: 64 × 32 cells, row-major, `true` where a cell is lit.
pub type Pixels = [bool; SCREEN_CELLS];

/// One machine: memory, registers, call stack, timers, keys and framebuffer.
pub struct Interpreter {
    memory_map: [u8; MEMORY_SIZE],
    program_size: usize,
    program_counter: u16,
    stack_pointer: u8,
    stack: [u16; REGISTER_COUNT],
    registers: [u8; REGISTER_COUNT],
    index_register: u16,
    delay_timer: u8,
    sound_timer: u8,
    keys: [bool; REGISTER_COUNT],
    pixels: Pixels,
}

impl View for Interpreter {
    type V = MachineState;

    closed spec fn view(&self) -> MachineState {
        MachineState {
            memory: self.memory_map@,
            program_size: self.program_size as nat,
            pc: self.program_counter as int,
            stack: self.stack@,
            sp: self.stack_pointer as int,
            registers: self.registers@,
            index: self.index_register as int,
            delay_timer: self.delay_timer,
            sound_timer: self.sound_timer,
            keys: self.keys@,
            pixels: self.pixels@,
        }
    }
}

/// The bit-field reads of `decode` agree with the arithmetic ones of the spec.
proof fn lemma_word_fields(w: u16)
    ensures
        ((0xF000u16 & w) >> 12u16) as u8 == family_of(w),
        ((0x0F00u16 & w) >> 8u16) as u8 == x_of(w),
        ((0x00F0u16 & w) >> 4u16) as u8 == y_of(w),
        (0x000Fu16 & w) as u8 == n_of(w),
        (0x00FFu16 & w) as u8 == nn_of(w),
        0x0FFFu16 & w == nnn_of(w),
{
    assert(((0xF000u16 & w) >> 12u16) as u8 == (w / 4096) as u8) by (bit_vector);
    assert(((0x0F00u16 & w) >> 8u16) as u8 == ((w / 256) % 16) as u8) by (bit_vector);
    assert(((0x00F0u16 & w) >> 4u16) as u8 == ((w / 16) % 16) as u8) by (bit_vector);
    assert((0x000Fu16 & w) as u8 == (w % 16) as u8) by (bit_vector);
    assert((0x00FFu16 & w) as u8 == (w % 256) as u8) by (bit_vector);
    assert(0x0FFFu16 & w == (w % 4096) as u16) by (bit_vector);
}

/// Relies on `rand::thread_rng` and `Rng::gen::<u8>`: a byte drawn from the
/// thread-local generator. Any byte may come back, so nothing is stated of it.
/// The generator panics only when the system entropy source cannot seed it,
/// which no argument here can rule out.
#[verifier::external_body]
fn random_byte() -> (r: u8) {
    rand::thread_rng().gen::<u8>()
}

/// The instructions that load a register or compute into one.
spec fn is_register_op(op: Op) -> bool {
    ||| op is LD
    ||| op is ADD
    ||| op is LD_VX_VY
    ||| op is OR_VX_VY
    ||| op is AND_VX_VY
    ||| op is XOR_VX_VY
    ||| op is ADD_VX_VY
    ||| op is SUB_VX_VY
    ||| op is SHR_VX_VY
    ||| op is SUBN_VX_VY
    ||| op is SHL_VX_VY
}

/// While drawing, sprite rows before `row`, and the first `col` bits of `row`,
/// have been applied to cell `c`.
spec fn drawn_before(vx: u8, vy: u8, c: int, row: int, col: int) -> bool {
    let d = sprite_offset(vx, vy, c);
    d / 64 < row || (d / 64 == row && d % 64 < col)
}

impl Interpreter {
    #[verifier::type_invariant]
    spec fn inv(&self) -> bool {
        &&& self.stack_pointer < REGISTER_COUNT
        &&& self.program_size <= MAX_PROGRAM_SIZE
    }

    /// A machine at power-on: memory zeroed but for the font glyphs, counter at the
    /// load address, everything else zero, no key pressed, every cell unlit.
    pub fn new() -> (r: Self)
        ensures
            r@ == initial_state(),
    {
        let mut memory_map = [0u8; MEMORY_SIZE];
        let mut idx: usize = 0;
        while idx < FONT.len()
            invariant
                idx <= 80,
                forall|a: int|
                    0 <= a < MEMORY_SIZE ==> memory_map@[a] == if FONT_START <= a < FONT_START
                        + idx {
                        FONT@[a - FONT_START]
                    } else {
                        0u8
                    },
            decreases 80 - idx,
        {
            memory_map[FONT_START + idx] = FONT[idx];
            idx = idx + 1;
        }
        let r = Interpreter {
            memory_map,
            program_size: 0,
            program_counter: PROGRAM_START as u16,
            stack_pointer: 0,
            stack: [0u16; REGISTER_COUNT],
            registers: [0u8; REGISTER_COUNT],
            index_register: 0,
            delay_timer: 0,
            sound_timer: 0,
            keys: [false; REGISTER_COUNT],
            pixels: [false; SCREEN_CELLS],
        };
        assert(r@.memory =~= initial_memory());
        assert(r@.stack =~= initial_state().stack);
        assert(r@.registers =~= initial_state().registers);
        assert(r@.keys =~= initial_state().keys);
        assert(r@.pixels =~= initial_state().pixels);
        r
    }

    /// Copies `program` into memory at the load address and records its length.
    /// Fails, changing nothing, when it is longer than the memory above that address.
    pub fn load_program(&mut self, program: &[u8]) -> (r: Result<(), LoadError>)
        ensures
            match load_spec(old(self)@, program@) {
                Ok(t) => r is Ok && final(self)@ == t,
                Err(e) => r == Err::<(), LoadError>(e) && final(self)@ == old(self)@,
            },
    {
        proof {
            use_type_invariant(&*self);
        }
        if program.len() > MAX_PROGRAM_SIZE {
            return Err(LoadError::ProgramTooLarge);
        }
        let ghost old_memory = self.memory_map@;
        let mut idx: usize = 0;
        while idx < program.len()
            invariant
                program@.len() <= MAX_PROGRAM_SIZE,
                idx <= program@.len(),
                forall|a: int|
                    0 <= a < MEMORY_SIZE ==> self.memory_map@[a] == if PROGRAM_START <= a
                        < PROGRAM_START + idx {
                        program@[a - PROGRAM_START]
                    } else {
                        old_memory[a]
                    },
                self.program_size == old(self).program_size,
                self.program_size <= MAX_PROGRAM_SIZE,
                self.stack_pointer < REGISTER_COUNT,
                self.program_counter == old(self).program_counter,
                self.stack_pointer == old(self).stack_pointer,
                self.stack == old(self).stack,
                self.registers == old(self).registers,
                self.index_register == old(self).index_register,
                self.delay_timer == old(self).delay_timer,
                self.sound_timer == old(self).sound_timer,
                self.keys == old(self).keys,
                self.pixels == old(self).pixels,
                old_memory == old(self).memory_map@,
            decreases program@.len() - idx,
        {
            self.memory_map[PROGRAM_START + idx] = program[idx];
            idx = idx + 1;
        }
        self.program_size = program.len();
        proof {
            let t = load_spec(old(self)@, program@)->Ok_0;
            assert(self@.memory =~= t.memory);
        }
        Ok(())
    }

    /// Records whether key `key_idx` is held down.
    pub fn set_key(&mut self, key_idx: usize, is_down: bool)
        requires
            key_idx < REGISTER_COUNT,
        ensures
            final(self)@ == (MachineState { keys: old(self)@.keys.update(key_idx as int, is_down), ..old(self)@ }),
    {
        proof {
            use_type_invariant(&*self);
        }
        self.keys[key_idx] = is_down;
    }

    /// A copy of the framebuffer.
    pub fn pixels(&self) -> (r: Pixels)
        ensures
            r@ == self@.pixels,
    {
        self.pixels
    }

    /// Whether a step would run: the counter is inside memory and at most at the
    /// end of the loaded program.
    pub fn can_continue(&self) -> (r: bool)
        ensures
            r == can_continue_spec(self@),
    {
        proof {
            use_type_invariant(self);
        }
        let is_within_memory = (self.program_counter as usize) < MEMORY_SIZE;
        let is_in_program = self.program_counter as usize <= PROGRAM_START + self.program_size;
        is_within_memory && is_in_program
    }

    /// The big-endian word at `pc`.
    fn fetch_instruction_at(&self, pc: usize) -> (r: u16)
        requires
            pc + 1 < MEMORY_SIZE,
        ensures
            r == word_at(self@.memory, pc as int),
    {
        let first = self.memory_map[pc];
        let second = self.memory_map[pc + 1];
        let instruction = ((first as u16) << 8u16) | second as u16;
        assert(((first as u16) << 8u16) | second as u16 == (first as int * 256 + second as int) as u16)
            by (bit_vector);
        instruction
    }

    /// Reads the word at the counter and moves the counter past it.
    fn fetch(&mut self) -> (r: u16)
        requires
            old(self)@.pc + 1 < MEMORY_SIZE,
        ensures
            r == word_at(old(self)@.memory, old(self)@.pc),
            final(self)@ == old(self)@.with_pc(old(self)@.pc + 2),
    {
        proof {
            use_type_invariant(&*self);
        }
        let instruction = self.fetch_instruction_at(self.program_counter as usize);
        self.program_counter = self.program_counter + 2;
        instruction
    }

    /// Draws `nibble` sprite bytes from the index register at the position held in
    /// registers `x` and `y`, and reports in the flag register whether a lit cell
    /// was turned off.
    fn draw(&mut self, x: u8, y: u8, nibble: u8) -> (r: Result<(), StepError>)
        requires
            x < 16,
            y < 16,
            nibble < 16,
        ensures
            outcome_matches(old(self)@, final(self)@, r, draw_spec(old(self)@, x, y, nibble)),
    {
        proof {
            use_type_invariant(&*self);
        }
        let index = self.index_register as usize;
        if index + nibble as usize > MEMORY_SIZE {
            return Err(StepError::MemoryOutOfRange);
        }
        let vx = self.registers[x as usize];
        let vy = self.registers[y as usize];
        let ghost sprite = self.memory_map@.subrange(index as int, index + nibble);
        let ghost old_pixels = self.pixels@;
        let base: usize = vy as usize * SCREEN_WIDTH + vx as usize;
        let mut pixels = self.pixels;
        let mut collision = false;
        let mut row: usize = 0;
        while row < nibble as usize
            invariant
                row <= nibble < 16,
                index + nibble <= MEMORY_SIZE,
                sprite == self.memory_map@.subrange(index as int, index + nibble),
                base == vy * 64 + vx,
                old_pixels.len() == SCREEN_CELLS,
                forall|c: int|
                    0 <= c < SCREEN_CELLS ==> #[trigger] pixels@[c] == (old_pixels[c] != (
                    sprite_covers(sprite, vx, vy, c) && drawn_before(vx, vy, c, row as int, 0))),
                collision == exists|c: int|
                    0 <= c < SCREEN_CELLS && old_pixels[c] && #[trigger] sprite_covers(
                        sprite,
                        vx,
                        vy,
                        c,
                    ) && drawn_before(vx, vy, c, row as int, 0),
            decreases nibble - row,
        {
            let b = self.memory_map[index + row];
            let mut col: usize = 0;
            while col < 8
                invariant
                    row < nibble < 16,
                    col <= 8,
                    index + nibble <= MEMORY_SIZE,
                    sprite == self.memory_map@.subrange(index as int, index + nibble),
                    b == sprite[row as int],
                    base == vy * 64 + vx,
                    old_pixels.len() == SCREEN_CELLS,
                    forall|c: int|
                        0 <= c < SCREEN_CELLS ==> #[trigger] pixels@[c] == (old_pixels[c] != (
                        sprite_covers(sprite, vx, vy, c) && drawn_before(
                            vx,
                            vy,
                            c,
                            row as int,
                            col as int,
                        ))),
                    collision == exists|c: int|
                        0 <= c < SCREEN_CELLS && old_pixels[c] && #[trigger] sprite_covers(
                            sprite,
                            vx,
                            vy,
                            c,
                        ) && drawn_before(vx, vy, c, row as int, col as int),
                decreases 8 - col,
            {
                let pos = (base + row * SCREEN_WIDTH + col) % SCREEN_CELLS;
                let old_value = pixels[pos];
                let new_value = (b >> (7 - col as u8)) & 1u8 == 1u8;
                let ghost k = row * 64 + col;
                proof {
                    lemma_sprite_cell_offset(vx, vy, k);
                    lemma_fundamental_div_mod_converse(k, 64, row as int, col as int);
                    assert(sprite_covers(sprite, vx, vy, pos as int) == new_value);
                    assert forall|c: int|
                        0 <= c < SCREEN_CELLS && c != pos implies drawn_before(
                        vx,
                        vy,
                        c,
                        row as int,
                        col + 1,
                    ) == drawn_before(vx, vy, c, row as int, col as int) by {
                        let d = sprite_offset(vx, vy, c);
                        if d / 64 == row && d % 64 == col {
                            lemma_fundamental_div_mod(d, 64);
                        }
                    }
                }
                let ghost old_collision = collision;
                if old_value && new_value {
                    collision = true;
                }
                pixels[pos] = old_value != new_value;
                proof {
                    if collision && !old_collision {
                        assert(old_pixels[pos as int] && sprite_covers(sprite, vx, vy, pos as int)
                            && drawn_before(vx, vy, pos as int, row as int, col + 1));
                    }
                    if !collision {
                        assert forall|c: int|
                            0 <= c < SCREEN_CELLS && old_pixels[c] && #[trigger] sprite_covers(
                                sprite,
                                vx,
                                vy,
                                c,
                            ) implies !drawn_before(vx, vy, c, row as int, col + 1) by {
                            if c != pos {
                                assert(!drawn_before(vx, vy, c, row as int, col as int));
                            }
                        }
                    }
                }
                col = col + 1;
            }
            proof {
                assert forall|c: int| 0 <= c < SCREEN_CELLS && #[trigger] sprite_covers(sprite, vx, vy, c)
                    implies drawn_before(vx, vy, c, row as int, 8) == drawn_before(
                    vx,
                    vy,
                    c,
                    row + 1,
                    0,
                ) by {}
            }
            row = row + 1;
        }
        self.pixels = pixels;
        self.registers[FLAG_REGISTER] = if collision {
            1
        } else {
            0
        };
        proof {
            assert(self@.pixels =~= draw_pixels(old_pixels, sprite, vx, vy));
        }
        Ok(())
    }

    /// Copies the lowest-numbered pressed key into register `x`; with no key
    /// pressed, moves the counter back onto this instruction so that it runs again.
    fn wait_for_key(&mut self, x: u8)
        requires
            x < 16,
            old(self)@.pc >= 2,
        ensures
            final(self)@ == if any_pressed(old(self)@.keys) {
                old(self)@.set_reg(x, lowest_pressed(old(self)@.keys) as u8)
            } else {
                old(self)@.with_pc(old(self)@.pc - 2)
            },
    {
        proof {
            use_type_invariant(&*self);
        }
        let mut k: usize = 0;
        while k < REGISTER_COUNT && !self.keys[k]
            invariant
                k <= REGISTER_COUNT,
                forall|j: int| 0 <= j < k ==> !self.keys@[j],
            decreases REGISTER_COUNT - k,
        {
            k = k + 1;
        }
        if k < REGISTER_COUNT {
            proof {
                assert(is_lowest_pressed(self.keys@, k as int));
                assert(is_lowest_pressed(self.keys@, lowest_pressed(self.keys@)));
            }
            self.registers[x as usize] = k as u8;
        } else {
            self.program_counter = self.program_counter - 2;
        }
    }

    /// Writes the hundreds, tens and ones digits of register `x` at the index register.
    fn store_bcd(&mut self, x: u8) -> (r: Result<(), StepError>)
        requires
            x < 16,
        ensures
            outcome_matches(old(self)@, final(self)@, r, store_bcd_spec(old(self)@, x)),
    {
        proof {
            use_type_invariant(&*self);
        }
        let index = self.index_register as usize;
        if index + 2 >= MEMORY_SIZE {
            return Err(StepError::MemoryOutOfRange);
        }
        let vx = self.registers[x as usize];
        self.memory_map[index] = (vx / 100) % 10;
        self.memory_map[index + 1] = (vx / 10) % 10;
        self.memory_map[index + 2] = vx % 10;
        Ok(())
    }

    /// Copies registers 0 to `x` into memory at the index register, then moves the
    /// index register past them.
    fn store_registers(&mut self, x: u8) -> (r: Result<(), StepError>)
        requires
            x < 16,
        ensures
            outcome_matches(old(self)@, final(self)@, r, store_registers_spec(old(self)@, x)),
    {
        proof {
            use_type_invariant(&*self);
        }
        let index = self.index_register as usize;
        if index + x as usize >= MEMORY_SIZE {
            return Err(StepError::MemoryOutOfRange);
        }
        let ghost old_memory = self.memory_map@;
        let mut memory = self.memory_map;
        let mut idx: usize = 0;
        while idx <= x as usize
            invariant
                x < 16,
                idx <= x + 1,
                index + x < MEMORY_SIZE,
                forall|a: int|
                    0 <= a < MEMORY_SIZE ==> #[trigger] memory@[a] == if index <= a < index + idx {
                        self.registers@[a - index]
                    } else {
                        old_memory[a]
                    },
            decreases x + 1 - idx,
        {
            memory[index + idx] = self.registers[idx];
            idx = idx + 1;
        }
        self.memory_map = memory;
        self.index_register = (index + x as usize + 1) as u16;
        proof {
            let t = store_registers_spec(old(self)@, x)->Ok_0;
            assert(self@.memory =~= t.memory);
        }
        Ok(())
    }

    /// Copies memory at the index register into registers 0 to `x`, then moves the
    /// index register past them.
    fn load_registers(&mut self, x: u8) -> (r: Result<(), StepError>)
        requires
            x < 16,
        ensures
            outcome_matches(old(self)@, final(self)@, r, load_registers_spec(old(self)@, x)),
    {
        proof {
            use_type_invariant(&*self);
        }
        let index = self.index_register as usize;
        if index + x as usize >= MEMORY_SIZE {
            return Err(StepError::MemoryOutOfRange);
        }
        let ghost old_registers = self.registers@;
        let mut registers = self.registers;
        let mut idx: usize = 0;
        while idx <= x as usize
            invariant
                x < 16,
                idx <= x + 1,
                index + x < MEMORY_SIZE,
                forall|i: int|
                    0 <= i < REGISTER_COUNT ==> #[trigger] registers@[i] == if i < idx {
                        self.memory_map@[index + i]
                    } else {
                        old_registers[i]
                    },
            decreases x + 1 - idx,
        {
            registers[idx] = self.memory_map[index + idx];
            idx = idx + 1;
        }
        self.registers = registers;
        self.index_register = (index + x as usize + 1) as u16;
        proof {
            let t = load_registers_spec(old(self)@, x)->Ok_0;
            assert(self@.registers =~= t.registers);
        }
        Ok(())
    }

    /// Applies one of the register-loading and arithmetic instructions, which
    /// cannot fail and touch only the registers.
    fn execute_register_op(&mut self, op: Op)
        requires
            op_wf(op),
            is_register_op(op),
        ensures
            execute_spec(old(self)@, op, 0) is Ok,
            final(self)@ == execute_spec(old(self)@, op, 0)->Ok_0,
    {
        proof {
            use_type_invariant(&*self);
        }
        match op {
            Op::LD { x, byte } => {
                self.registers[x as usize] = byte;
            },
            Op::ADD { x, byte } => {
                // The flag register is left alone here, unlike the register-register add.
                let total = (self.registers[x as usize] as u16 + byte as u16) % 256;
                self.registers[x as usize] = total as u8;
            },
            Op::LD_VX_VY { x, y } => {
                self.registers[x as usize] = self.registers[y as usize];
            },
            Op::OR_VX_VY { x, y } => {
                self.registers[x as usize] = self.registers[x as usize] | self.registers[y as usize];
            },
            Op::AND_VX_VY { x, y } => {
                self.registers[x as usize] = self.registers[x as usize] & self.registers[y as usize];
            },
            Op::XOR_VX_VY { x, y } => {
                self.registers[x as usize] = self.registers[x as usize] ^ self.registers[y as usize];
            },
            Op::ADD_VX_VY { x, y } => {
                let sum = self.registers[x as usize] as u16 + self.registers[y as usize] as u16;
                self.registers[FLAG_REGISTER] = if sum > 255 {
                    1
                } else {
                    0
                };
                self.registers[x as usize] = (sum % 256) as u8;
            },
            Op::SUB_VX_VY { x, y } => {
                let vx = self.registers[x as usize];
                let vy = self.registers[y as usize];
                self.registers[x as usize] = ((vx as u16 + 256 - vy as u16) % 256) as u8;
                self.registers[FLAG_REGISTER] = if vx >= vy {
                    1
                } else {
                    0
                };
            },
            Op::SHR_VX_VY { x, .. } => {
                let vx = self.registers[x as usize];
                self.registers[x as usize] = vx >> 1u8;
                self.registers[FLAG_REGISTER] = vx & 1u8;
            },
            Op::SUBN_VX_VY { x, y } => {
                let vx = self.registers[x as usize];
                let vy = self.registers[y as usize];
                self.registers[x as usize] = ((vy as u16 + 256 - vx as u16) % 256) as u8;
                self.registers[FLAG_REGISTER] = if vy >= vx {
                    1
                } else {
                    0
                };
            },
            Op::SHL_VX_VY { x, .. } => {
                let vx = self.registers[x as usize];
                self.registers[x as usize] = vx << 1u8;
                self.registers[FLAG_REGISTER] = vx >> 7u8;
            },
            _ => {},
        }
    }

    /// Applies `op` to a machine whose counter already points past it; `random`
    /// is the byte that the random instruction masks.
    fn execute(&mut self, op: Op, random: u8) -> (r: Result<(), StepError>)
        requires
            op_wf(op),
            2 <= old(self)@.pc <= MEMORY_SIZE + 1,
        ensures
            outcome_matches(old(self)@, final(self)@, r, execute_spec(old(self)@, op, random)),
    {
        proof {
            use_type_invariant(&*self);
        }
        match op {
            Op::CLS => {
                self.pixels = [false; SCREEN_CELLS];
                proof {
                    let t = execute_spec(old(self)@, op, random)->Ok_0;
                    assert(self@.pixels =~= t.pixels);
                }
            },
            Op::RET => {
                if self.stack_pointer == 0 {
                    return Err(StepError::StackUnderflow);
                }
                self.program_counter = self.stack[self.stack_pointer as usize];
                self.stack_pointer = self.stack_pointer - 1;
            },
            Op::SYS { .. } => {},
            Op::JP { addr } => {
                self.program_counter = addr;
            },
            Op::CALL { addr } => {
                if self.stack_pointer as usize + 1 >= REGISTER_COUNT {
                    return Err(StepError::StackOverflow);
                }
                self.stack_pointer = self.stack_pointer + 1;
                self.stack[self.stack_pointer as usize] = self.program_counter;
                self.program_counter = addr;
            },
            Op::SE { x, byte } => {
                if self.registers[x as usize] == byte {
                    self.program_counter = self.program_counter + 2;
                }
            },
            Op::SNE { x, byte } => {
                if self.registers[x as usize] != byte {
                    self.program_counter = self.program_counter + 2;
                }
            },
            Op::SE_VX_VY { x, y } => {
                if self.registers[x as usize] == self.registers[y as usize] {
                    self.program_counter = self.program_counter + 2;
                }
            },
            Op::LD { .. }
            | Op::ADD { .. }
            | Op::LD_VX_VY { .. }
            | Op::OR_VX_VY { .. }
            | Op::AND_VX_VY { .. }
            | Op::XOR_VX_VY { .. }
            | Op::ADD_VX_VY { .. }
            | Op::SUB_VX_VY { .. }
            | Op::SHR_VX_VY { .. }
            | Op::SUBN_VX_VY { .. }
            | Op::SHL_VX_VY { .. } => {
                self.execute_register_op(op);
            },
            Op::SNE_VX_VY { x, y } => {
                if self.registers[x as usize] != self.registers[y as usize] {
                    self.program_counter = self.program_counter + 2;
                }
            },
            Op::LD_I { addr } => {
                self.index_register = addr;
            },
            Op::JP_V0 { addr } => {
                self.program_counter = addr + self.registers[0] as u16;
            },
            Op::RND { x, byte } => {
                self.registers[x as usize] = random & byte;
            },
            Op::DRW { x, y, nibble } => {
                return self.draw(x, y, nibble);
            },
            Op::SKP { x } => {
                let key = self.registers[x as usize];
                if key as usize >= REGISTER_COUNT {
                    return Err(StepError::KeyOutOfRange { key });
                }
                if self.keys[key as usize] {
                    self.program_counter = self.program_counter + 2;
                }
            },
            Op::SKNP { x } => {
                let key = self.registers[x as usize];
                if key as usize >= REGISTER_COUNT {
                    return Err(StepError::KeyOutOfRange { key });
                }
                if !self.keys[key as usize] {
                    self.program_counter = self.program_counter + 2;
                }
            },
            Op::LD_VX_DT { x } => {
                self.registers[x as usize] = self.delay_timer;
            },
            Op::LD_VX_K { x } => {
                self.wait_for_key(x);
            },
            Op::LD_DT_VX { x } => {
                self.delay_timer = self.registers[x as usize];
            },
            Op::LD_ST_VX { x } => {
                self.sound_timer = self.registers[x as usize];
            },
            Op::ADD_I_VX { x } => {
                let sum = self.index_register as u32 + self.registers[x as usize] as u32;
                if sum >= 0x10000 {
                    return Err(StepError::IndexOverflow);
                }
                self.index_register = sum as u16;
            },
            Op::LD_F_VX { x } => {
                self.index_register = FONT_START as u16 + GLYPH_SIZE as u16
                    * self.registers[x as usize] as u16;
            },
            Op::LD_B_VX { x } => {
                return self.store_bcd(x);
            },
            Op::LD_I_VX { x } => {
                return self.store_registers(x);
            },
            Op::LD_VX_I { x } => {
                return self.load_registers(x);
            },
            Op::INVALID => {
                return Err(StepError::InvalidInstruction);
            },
        }
        Ok(())
    }

    /// Runs one instruction with `random` as the byte that a random instruction
    /// draws: fetch, decode, execute, then tick each timer that is above zero.
    /// Past the runnable region it does nothing. On failure the machine is left
    /// as it was before the step.
    pub fn step_with_random(&mut self, random: u8) -> (r: Result<(), StepError>)
        ensures
            outcome_matches(old(self)@, final(self)@, r, step_spec(old(self)@, random)),
    {
        proof {
            use_type_invariant(&*self);
        }
        if !self.can_continue() {
            return Ok(());
        }
        if self.program_counter as usize + 1 >= MEMORY_SIZE {
            return Err(StepError::MemoryOutOfRange);
        }
        let pc = self.program_counter;
        let instruction = self.fetch();
        let op = self.decode(instruction);
        proof {
            lemma_decode_wf(instruction);
        }
        match self.execute(op, random) {
            Ok(()) => {},
            Err(e) => {
                self.program_counter = pc;
                return Err(e);
            },
        }
        if self.delay_timer > 0 {
            self.delay_timer = self.delay_timer - 1;
        }
        if self.sound_timer > 0 {
            self.sound_timer = self.sound_timer - 1;
        }
        Ok(())
    }

    /// Runs one instruction, drawing a fresh random byte for it; otherwise as
    /// `step_with_random`.
    pub fn step(&mut self) -> (r: Result<(), StepError>)
        ensures
            exists|random: u8|
                outcome_matches(old(self)@, final(self)@, r, #[trigger] step_spec(old(self)@, random)),
    {
        let random = random_byte();
        self.step_with_random(random)
    }

    /// The instruction that `instruction` encodes. Total: every word decodes,
    /// to `Op::INVALID` where it matches no entry of the table.
    pub fn decode(&self, instruction: u16) -> (op: Op)
        ensures
            op == decode_spec(instruction),
    {
        let first_nibble = ((0xF000u16 & instruction) >> 12u16) as u8;
        let second_nibble = ((0x0F00u16 & instruction) >> 8u16) as u8;
        let third_nibble = ((0x00F0u16 & instruction) >> 4u16) as u8;
        let fourth_nibble = (0x000Fu16 & instruction) as u8;
        let twelve_bits = 0x0FFFu16 & instruction;
        let second_byte = (0x00FFu16 & instruction) as u8;
        proof {
            lemma_word_fields(instruction);
        }
        let x = second_nibble;
        let y = third_nibble;
        match first_nibble {
            0 => match instruction {
                0x00E0 => Op::CLS,
                0x00EE => Op::RET,
                _ => Op::SYS { addr: twelve_bits },
            },
            1 => Op::JP { addr: twelve_bits },
            2 => Op::CALL { addr: twelve_bits },
            3 => Op::SE { x, byte: second_byte },
            4 => Op::SNE { x, byte: second_byte },
            5 => {
                if fourth_nibble != 0 {
                    Op::INVALID
                } else {
                    Op::SE_VX_VY { x, y }
                }
            },
            6 => Op::LD { x, byte: second_byte },
            7 => Op::ADD { x, byte: second_byte },
            8 => match fourth_nibble {
                0 => Op::LD_VX_VY { x, y },
                1 => Op::OR_VX_VY { x, y },
                2 => Op::AND_VX_VY { x, y },
                3 => Op::XOR_VX_VY { x, y },
                4 => Op::ADD_VX_VY { x, y },
                5 => Op::SUB_VX_VY { x, y },
                6 => Op::SHR_VX_VY { x, y },
                7 => Op::SUBN_VX_VY { x, y },
                0xE => Op::SHL_VX_VY { x, y },
                _ => Op::INVALID,
            },
            9 => {
                if fourth_nibble != 0 {
                    Op::INVALID
                } else {
                    Op::SNE_VX_VY { x, y }
                }
            },
            0xA => Op::LD_I { addr: twelve_bits },
            0xB => Op::JP_V0 { addr: twelve_bits },
            0xC => Op::RND { x, byte: second_byte },
            0xD => Op::DRW { x, y, nibble: fourth_nibble },
            0xE => match second_byte {
                0x9E => Op::SKP { x },
                0xA1 => Op::SKNP { x },
                _ => Op::INVALID,
            },
            _ => match second_byte {
                0x07 => Op::LD_VX_DT { x },
                0x0A => Op::LD_VX_K { x },
                0x15 => Op::LD_DT_VX { x },
                0x18 => Op::LD_ST_VX { x },
                0x1E => Op::ADD_I_VX { x },
                0x29 => Op::LD_F_VX { x },
                0x33 => Op::LD_B_VX { x },
                0x55 => Op::LD_I_VX { x },
                0x65 => Op::LD_VX_I { x },
                _ => Op::INVALID,
            },
        }
    }
    /// The loaded program as a listing: for each even offset from the load address
    /// below the end of the program, the address, the word there and its instruction.
    pub fn program_listing(&self) -> (r: Vec<(usize, u16, Op)>)
        ensures
            r@.len() == (self@.program_size + 1) / 2,
            forall|k: int|
                0 <= k < r@.len() ==> #[trigger] r@[k] == (
                    (PROGRAM_START + 2 * k) as usize,
                    word_at(self@.memory, PROGRAM_START + 2 * k),
                    decode_spec(word_at(self@.memory, PROGRAM_START + 2 * k)),
                ),
    {
        proof {
            use_type_invariant(self);
        }
        let mut listing: Vec<(usize, u16, Op)> = Vec::new();
        let mut addr: usize = PROGRAM_START;
        while addr < PROGRAM_START + self.program_size
            invariant
                self.program_size <= MAX_PROGRAM_SIZE,
                PROGRAM_START <= addr <= PROGRAM_START + self.program_size + 1,
                addr == PROGRAM_START + 2 * listing@.len(),
                forall|k: int|
                    0 <= k < listing@.len() ==> #[trigger] listing@[k] == (
                        (PROGRAM_START + 2 * k) as usize,
                        word_at(self@.memory, PROGRAM_START + 2 * k),
                        decode_spec(word_at(self@.memory, PROGRAM_START + 2 * k)),
                    ),
            decreases PROGRAM_START + self.program_size + 1 - addr,
        {
            let instruction = self.fetch_instruction_at(addr);
            listing.push((addr, instruction, self.decode(instruction)));
            addr = addr + 2;
        }
        listing
    }

    /// Register `i`.
    pub fn register(&self, i: usize) -> (r: u8)
        requires
            i < REGISTER_COUNT,
        ensures
            r == self@.registers[i as int],
    {
        self.registers[i]
    }

    /// The byte at address `addr`.
    pub fn memory_at(&self, addr: usize) -> (r: u8)
        requires
            addr < MEMORY_SIZE,
        ensures
            r == self@.memory[addr as int],
    {
        self.memory_map[addr]
    }

    pub fn program_counter(&self) -> (r: u16)
        ensures
            r == self@.pc,
    {
        self.program_counter
    }

    pub fn index_register(&self) -> (r: u16)
        ensures
            r == self@.index,
    {
        self.index_register
    }

    /// Number of return addresses on the call stack.
    pub fn stack_pointer(&self) -> (r: u8)
        ensures
            r == self@.sp,
    {
        self.stack_pointer
    }

    pub fn delay_timer(&self) -> (r: u8)
        ensures
            r == self@.delay_timer,
    {
        self.delay_timer
    }

    pub fn sound_timer(&self) -> (r: u8)
        ensures
            r == self@.sound_timer,
    {
        self.sound_timer
    }
}

} // verus!
