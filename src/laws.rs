use vstd::prelude::*;

use crate::machine::{
    any_pressed, can_continue_spec, draw_collides, draw_pixels, execute_spec, is_lowest_pressed,
    lowest_pressed, sprite_covers, step_spec, tick_timers, word_at, MachineState, StepError,
    FLAG_REGISTER, MEMORY_SIZE, SCREEN_CELLS,
};
use crate::op::{decode_spec, family_of, n_of, nn_of, Op};

verus! {

/// Steps the machine once per byte of `randoms`, each step drawing that byte,
/// and stops at the first failure.
pub open spec fn run_spec(s: MachineState, randoms: Seq<u8>) -> Result<MachineState, StepError>
    decreases randoms.len(),
{
    if randoms.len() == 0 {
        Ok(s)
    } else {
        match step_spec(s, randoms[0]) {
            Ok(t) => run_spec(t, randoms.drop_first()),
            Err(e) => Err(e),
        }
    }
}

/// The words that encode no instruction: families 5 and 9 with a nonzero low
/// nibble, family 8 outside its nine low nibbles, and families E and F outside
/// their low-byte tables.
pub open spec fn is_invalid_word(w: u16) -> bool {
    let f = family_of(w);
    let n = n_of(w);
    let nn = nn_of(w);
    ||| (f == 5 || f == 9) && n != 0
    ||| f == 8 && 8 <= n && n != 0xE
    ||| f == 0xE && nn != 0x9E && nn != 0xA1
    ||| f == 0xF && nn != 0x07 && nn != 0x0A && nn != 0x15 && nn != 0x18 && nn != 0x1E && nn
        != 0x29 && nn != 0x33 && nn != 0x55 && nn != 0x65
}

/// Decoding maps every word to exactly one instruction; it yields the invalid
/// marker precisely on the words outside the instruction table, and every word of
/// family 0 other than clear-screen and return is the inert machine-code call.
pub proof fn lemma_decode_invalid_exactly(w: u16)
    ensures
        decode_spec(w) is INVALID <==> is_invalid_word(w),
        family_of(w) == 0 && w != 0x00E0 && w != 0x00EE ==> decode_spec(w) is SYS,
{
}

/// Adding register `y` into register `x`: `x` becomes the sum modulo 256, the flag
/// register becomes 1 exactly when the sum exceeds 255, and no other register changes.
pub proof fn lemma_add_registers(s: MachineState, x: u8, y: u8, random: u8)
    requires
        s.wf(),
        x < 15,
        y < 16,
    ensures
        execute_spec(s, Op::ADD_VX_VY { x, y }, random) is Ok,
        ({
            let t = execute_spec(s, Op::ADD_VX_VY { x, y }, random)->Ok_0;
            let (a, b) = (s.reg(x), s.reg(y));
            &&& t.reg(x) == (a + b) % 256
            &&& t.reg(FLAG_REGISTER as u8) == if a + b > 255 { 1u8 } else { 0u8 }
            &&& forall|i: u8| i < 16 && i != x && i != FLAG_REGISTER ==> t.reg(i) == s.reg(i)
        }),
{
}

/// Subtracting register `y` from register `x`: `x` becomes the difference modulo
/// 256 and the flag register becomes 1 exactly when no borrow occurs (`x >= y`).
pub proof fn lemma_sub_registers(s: MachineState, x: u8, y: u8, random: u8)
    requires
        s.wf(),
        x < 15,
        y < 16,
    ensures
        execute_spec(s, Op::SUB_VX_VY { x, y }, random) is Ok,
        ({
            let t = execute_spec(s, Op::SUB_VX_VY { x, y }, random)->Ok_0;
            let (a, b) = (s.reg(x), s.reg(y));
            &&& t.reg(x) == (a - b) % 256
            &&& t.reg(FLAG_REGISTER as u8) == if a >= b { 1u8 } else { 0u8 }
            &&& forall|i: u8| i < 16 && i != x && i != FLAG_REGISTER ==> t.reg(i) == s.reg(i)
        }),
{
}

/// Shifting right leaves in the flag register the bit shifted out, the low bit of
/// the old value, whatever register is shifted; the register keeps half its value.
pub proof fn lemma_shift_right(s: MachineState, x: u8, y: u8, random: u8)
    requires
        s.wf(),
        x < 16,
        y < 16,
    ensures
        execute_spec(s, Op::SHR_VX_VY { x, y }, random) is Ok,
        ({
            let t = execute_spec(s, Op::SHR_VX_VY { x, y }, random)->Ok_0;
            let v = s.reg(x);
            &&& t.reg(FLAG_REGISTER as u8) == v % 2
            &&& x != FLAG_REGISTER ==> t.reg(x) == v / 2
        }),
{
    let v = s.reg(x);
    assert(v & 1u8 == v % 2) by (bit_vector);
    assert(v >> 1u8 == v / 2) by (bit_vector);
}

/// Shifting left leaves in the flag register the bit shifted out, the high bit of
/// the old value, whatever register is shifted; the register doubles modulo 256.
pub proof fn lemma_shift_left(s: MachineState, x: u8, y: u8, random: u8)
    requires
        s.wf(),
        x < 16,
        y < 16,
    ensures
        execute_spec(s, Op::SHL_VX_VY { x, y }, random) is Ok,
        ({
            let t = execute_spec(s, Op::SHL_VX_VY { x, y }, random)->Ok_0;
            let v = s.reg(x);
            &&& t.reg(FLAG_REGISTER as u8) == v / 128
            &&& x != FLAG_REGISTER ==> t.reg(x) == (v * 2) % 256
        }),
{
    let v = s.reg(x);
    assert(v >> 7u8 == v / 128) by (bit_vector);
    assert(v << 1u8 == (v * 2) % 256) by (bit_vector);
}

/// Drawing the same sprite at the same place twice restores every cell, and the
/// second drawing reports a collision exactly when it meets a cell that the first
/// one left lit; in particular it does whenever the first one collided with nothing
/// and set at least one cell.
pub proof fn lemma_draw_twice(pixels: Seq<bool>, sprite: Seq<u8>, vx: u8, vy: u8)
    ensures
        draw_pixels(draw_pixels(pixels, sprite, vx, vy), sprite, vx, vy) == pixels,
        draw_collides(draw_pixels(pixels, sprite, vx, vy), sprite, vx, vy) <==> exists|c: int|
            0 <= c < pixels.len() && #[trigger] sprite_covers(sprite, vx, vy, c) && draw_pixels(
                pixels,
                sprite,
                vx,
                vy,
            )[c],
        !draw_collides(pixels, sprite, vx, vy) && (exists|c: int|
            0 <= c < pixels.len() && #[trigger] sprite_covers(sprite, vx, vy, c)) ==> draw_collides(
            draw_pixels(pixels, sprite, vx, vy),
            sprite,
            vx,
            vy,
        ),
{
    let once = draw_pixels(pixels, sprite, vx, vy);
    assert(draw_pixels(once, sprite, vx, vy) =~= pixels);
    if !draw_collides(pixels, sprite, vx, vy) && (exists|c: int|
        0 <= c < pixels.len() && #[trigger] sprite_covers(sprite, vx, vy, c)) {
        let c = choose|c: int| 0 <= c < pixels.len() && #[trigger] sprite_covers(sprite, vx, vy, c);
        assert(!pixels[c]);
        assert(once[c]);
    }
}

/// The same law one level up: two sprite instructions in a row, at a position whose
/// registers are not the flag register, leave the framebuffer as it was.
pub proof fn lemma_draw_instruction_twice(
    s: MachineState,
    x: u8,
    y: u8,
    nibble: u8,
    r1: u8,
    r2: u8,
)
    requires
        s.wf(),
        x < 15,
        y < 15,
        nibble < 16,
        s.index + nibble <= MEMORY_SIZE,
    ensures
        execute_spec(s, Op::DRW { x, y, nibble }, r1) is Ok,
        execute_spec(execute_spec(s, Op::DRW { x, y, nibble }, r1)->Ok_0, Op::DRW { x, y, nibble }, r2) is Ok,
        execute_spec(execute_spec(s, Op::DRW { x, y, nibble }, r1)->Ok_0, Op::DRW { x, y, nibble }, r2)->Ok_0.pixels
            == s.pixels,
{
    let sprite = s.memory.subrange(s.index, s.index + nibble);
    lemma_draw_twice(s.pixels, sprite, s.reg(x), s.reg(y));
}

/// Some key is pressed, so a lowest-numbered pressed key exists.
proof fn lemma_lowest_pressed_exists(keys: Seq<bool>, k: int)
    requires
        0 <= k < keys.len(),
        keys[k],
    ensures
        is_lowest_pressed(keys, lowest_pressed(keys)),
    decreases k,
{
    if forall|j: int| 0 <= j < k ==> !keys[j] {
        assert(is_lowest_pressed(keys, k));
    } else {
        let j = choose|j: int| 0 <= j < k && keys[j];
        lemma_lowest_pressed_exists(keys, j);
    }
}

/// Waiting for a key with none pressed: any number of steps leave the counter on
/// the waiting instruction and write no register or memory; each step only ticks
/// the timers.
pub proof fn lemma_key_wait_without_key(s: MachineState, x: u8, randoms: Seq<u8>)
    requires
        s.wf(),
        can_continue_spec(s),
        s.pc + 1 < MEMORY_SIZE,
        decode_spec(word_at(s.memory, s.pc)) == (Op::LD_VX_K { x }),
        !any_pressed(s.keys),
    ensures
        run_spec(s, randoms) is Ok,
        run_spec(s, randoms)->Ok_0.pc == s.pc,
        run_spec(s, randoms)->Ok_0.registers == s.registers,
        run_spec(s, randoms)->Ok_0.memory == s.memory,
        run_spec(s, randoms)->Ok_0.index == s.index,
        run_spec(s, randoms)->Ok_0.delay_timer == if s.delay_timer >= randoms.len() {
            s.delay_timer - randoms.len()
        } else {
            0
        },
    decreases randoms.len(),
{
    if randoms.len() > 0 {
        let t = step_spec(s, randoms[0])->Ok_0;
        assert(t == tick_timers(s));
        lemma_key_wait_without_key(t, x, randoms.drop_first());
    }
}

/// Waiting for a key with a key pressed: one step writes the lowest-numbered pressed
/// key into the register and moves past the instruction.
pub proof fn lemma_key_wait_with_key(s: MachineState, x: u8, random: u8)
    requires
        s.wf(),
        can_continue_spec(s),
        s.pc + 1 < MEMORY_SIZE,
        decode_spec(word_at(s.memory, s.pc)) == (Op::LD_VX_K { x }),
        any_pressed(s.keys),
    ensures
        step_spec(s, random) is Ok,
        is_lowest_pressed(s.keys, step_spec(s, random)->Ok_0.reg(x) as int),
        step_spec(s, random)->Ok_0.pc == s.pc + 2,
        forall|i: u8| i < 16 && i != x ==> step_spec(s, random)->Ok_0.reg(i) == s.reg(i),
{
    let k = choose|k: int| 0 <= k < s.keys.len() && s.keys[k];
    lemma_lowest_pressed_exists(s.keys, k);
}

/// Every step of the run executes an instruction, and none of them stores a timer.
pub open spec fn timers_left_to_tick(s: MachineState, randoms: Seq<u8>) -> bool
    decreases randoms.len(),
{
    if randoms.len() == 0 {
        true
    } else {
        let op = decode_spec(word_at(s.memory, s.pc));
        &&& can_continue_spec(s)
        &&& !(op is LD_DT_VX)
        &&& !(op is LD_ST_VX)
        &&& match step_spec(s, randoms[0]) {
            Ok(t) => timers_left_to_tick(t, randoms.drop_first()),
            Err(_) => true,
        }
    }
}

/// Each step lowers both timers by exactly one until they reach zero, where they
/// stay, as long as no instruction stores a timer.
pub proof fn lemma_timer_floor(s: MachineState, randoms: Seq<u8>)
    requires
        timers_left_to_tick(s, randoms),
        run_spec(s, randoms) is Ok,
    ensures
        run_spec(s, randoms)->Ok_0.delay_timer == if s.delay_timer >= randoms.len() {
            s.delay_timer - randoms.len()
        } else {
            0
        },
        run_spec(s, randoms)->Ok_0.sound_timer == if s.sound_timer >= randoms.len() {
            s.sound_timer - randoms.len()
        } else {
            0
        },
    decreases randoms.len(),
{
    if randoms.len() > 0 {
        let t = step_spec(s, randoms[0])->Ok_0;
        let op = decode_spec(word_at(s.memory, s.pc));
        let u = execute_spec(s.with_pc(s.pc + 2), op, randoms[0])->Ok_0;
        assert(u.delay_timer == s.delay_timer && u.sound_timer == s.sound_timer);
        lemma_timer_floor(t, randoms.drop_first());
    }
}

/// The word 0x00E0 is clear-screen, and clearing leaves every cell unlit whatever
/// the framebuffer held.
pub proof fn lemma_clear_screen(s: MachineState, random: u8)
    ensures
        decode_spec(0x00E0) == Op::CLS,
        execute_spec(s, Op::CLS, random) is Ok,
        execute_spec(s, Op::CLS, random)->Ok_0.pixels.len() == SCREEN_CELLS,
        forall|c: int|
            0 <= c < SCREEN_CELLS ==> !(#[trigger] execute_spec(s, Op::CLS, random)->Ok_0.pixels[c]),
{
}

/// The word 0x1228 is a jump to 0x228, and a step on it sets the counter to exactly
/// 0x228 whatever it was.
pub proof fn lemma_jump(s: MachineState, random: u8)
    requires
        can_continue_spec(s),
        s.pc + 1 < MEMORY_SIZE,
        word_at(s.memory, s.pc) == 0x1228,
    ensures
        decode_spec(0x1228) == (Op::JP { addr: 0x228 }),
        step_spec(s, random) is Ok,
        step_spec(s, random)->Ok_0.pc == 0x228,
{
}

/// A return with an empty stack fails the step, and the machine stays as it was.
pub proof fn lemma_return_on_empty_stack(s: MachineState, random: u8)
    requires
        can_continue_spec(s),
        s.pc + 1 < MEMORY_SIZE,
        word_at(s.memory, s.pc) == 0x00EE,
        s.sp == 0,
    ensures
        step_spec(s, random) == Err::<MachineState, StepError>(StepError::StackUnderflow),
{
}

} // verus!
