//! What holds of the machine whatever program it runs.

use vstd::prelude::*;
use crate::display::{
    lemma_drawn_monochrome,
    lemma_drawn_twice,
    lemma_drawn_twice_collides,
    lemma_drawn_wraps,
    sprite_bit,
    sprite_lights,
    sprite_target,
};
use crate::instruction::{decoded, lemma_decoded_valid, Instruction};
use crate::machine::{initialised, ticked_times, Chip8Error, Machine, RunState};
use crate::semantics::{
    bit,
    can_fetch,
    draws_random,
    execute,
    opcode_at,
    operand_in_memory,
    pressed_key,
    pressed_key_from,
    run,
    sprite_at,
    step,
    step_outcome,
};

verus! {

/// After a machine that was just switched on is initialised, the font
/// stands at `0x50`, the program at `0x200`, and every other byte of memory
/// is zero.
pub proof fn theorem_initialised_memory(rom: Seq<u8>, fontset: Seq<u8>, a: int)
    requires
        fontset.len() <= 0x200 - 0x50,
        0x200 + rom.len() <= 4096,
        0 <= a < 4096,
    ensures
        ({
            let memory = initialised(Machine::power_on(), rom, fontset).memory;
            &&& memory.len() == 4096
            &&& 0x50 <= a < 0x50 + fontset.len() ==> memory[a] == fontset[a - 0x50]
            &&& 0x200 <= a < 0x200 + rom.len() ==> memory[a] == rom[a - 0x200]
            &&& !(0x50 <= a < 0x50 + fontset.len()) && !(0x200 <= a < 0x200 + rom.len())
                ==> memory[a] == 0
        }),
        initialised(Machine::power_on(), rom, fontset).valid(),
{
}

/// Initialising twice with the same program and font is the same as
/// initialising once.
pub proof fn theorem_initialised_idempotent(m: Machine, rom: Seq<u8>, fontset: Seq<u8>)
    ensures
        initialised(initialised(m, rom, fontset), rom, fontset) == initialised(m, rom, fontset),
{
    let once = initialised(m, rom, fontset);
    let twice = initialised(once, rom, fontset);
    assert(twice.memory =~= once.memory);
}

/// Executing an instruction keeps a valid state valid.
pub proof fn theorem_execute_valid(m: Machine, ins: Instruction, rnd: u8)
    requires
        m.valid(),
        can_fetch(m),
        ins.valid(),
    ensures
        execute(m, ins, rnd).valid(),
{
    match ins {
        Instruction::Draw { x, y, n } => {
            lemma_drawn_monochrome(
                m.display,
                sprite_at(m, n as int),
                m.v[x as int] as int,
                m.v[y as int] as int,
            );
        },
        Instruction::Return => {
            if m.stack.len() > 0 {
                let after = execute(m, ins, rnd);
                assert forall|k: int| 0 <= k < after.stack.len() implies #[trigger] after.stack[k]
                    + 1 < 4096 by {
                    assert(after.stack[k] == m.stack[k]);
                }
            }
        },
        _ => {},
    }
}

/// A cycle keeps a valid state valid.
pub proof fn theorem_step_valid(m: Machine, rnd: u8)
    requires
        m.valid(),
    ensures
        step(m, rnd).valid(),
{
    if can_fetch(m) {
        lemma_decoded_valid(opcode_at(m));
        theorem_execute_valid(m, decoded(opcode_at(m)), rnd);
    }
}

/// Only the random-and instruction looks at the random byte.
pub proof fn theorem_step_deterministic(m: Machine, r1: u8, r2: u8)
    requires
        !draws_random(m),
    ensures
        step(m, r1) == step(m, r2),
{
}

/// A cycle that reports a stack underflow, an address out of bounds or a
/// wait for input has changed nothing; one that reports an unknown opcode
/// has moved the program counter past it and changed nothing else.
pub proof fn theorem_halt_keeps_state(m: Machine, rnd: u8)
    requires
        m.valid(),
    ensures
        step_outcome(m) == Err::<RunState, Chip8Error>(Chip8Error::StackUnderflow) ==> step(m, rnd)
            == m,
        step_outcome(m) == Err::<RunState, Chip8Error>(Chip8Error::AddressOutOfBounds) ==> step(
            m,
            rnd,
        ) == m,
        step_outcome(m) == Ok::<RunState, Chip8Error>(RunState::AwaitingInput) ==> step(m, rnd)
            == m,
        step_outcome(m) matches Err(Chip8Error::UnknownOpcode { opcode }) ==> opcode == opcode_at(
            m,
        ) && step(m, rnd) == (Machine { pc: (m.pc + 2) as u16, ..m }),
{
}

/// The engine never writes the keypad, never lowers the draw flag, and
/// writes the framebuffer only in the clear and draw instructions.
pub proof fn theorem_step_frame(m: Machine, rnd: u8)
    ensures
        step(m, rnd).keypad == m.keypad,
        m.draw_flag ==> step(m, rnd).draw_flag,
        !(can_fetch(m) && (decoded(opcode_at(m)) is ClearScreen || decoded(opcode_at(m)) is Draw))
            ==> step(m, rnd).display == m.display && step(m, rnd).draw_flag == m.draw_flag,
        step(m, rnd).display != m.display ==> step(m, rnd).draw_flag,
{
}

/// Add-immediate wraps modulo 256 and leaves every other register, the
/// flag register included, as it was.
pub proof fn theorem_add_immediate(m: Machine, rnd: u8, x: u8, nn: u8)
    requires
        m.valid(),
        can_fetch(m),
        decoded(opcode_at(m)) == (Instruction::AddImmediate { x, nn }),
    ensures
        step(m, rnd).v[x as int] == (m.v[x as int] + nn) % 256,
        forall|k: int| 0 <= k < 16 && k != x ==> step(m, rnd).v[k] == m.v[k],
        step(m, rnd).pc == m.pc + 2,
{
    lemma_decoded_valid(opcode_at(m));
}

/// Add-with-carry: the destination gets the sum modulo 256, and the flag
/// register is 1 exactly if the sum exceeds 255. Where the destination is
/// the flag register itself, the sum is what it holds.
pub proof fn theorem_add(m: Machine, rnd: u8, x: u8, y: u8)
    requires
        m.valid(),
        can_fetch(m),
        decoded(opcode_at(m)) == (Instruction::Add { x, y }),
    ensures
        step(m, rnd).v[x as int] == (m.v[x as int] + m.v[y as int]) % 256,
        x != 15 ==> step(m, rnd).v[15] == bit(m.v[x as int] + m.v[y as int] > 255),
        forall|k: int| 0 <= k < 15 && k != x ==> step(m, rnd).v[k] == m.v[k],
        step(m, rnd).pc == m.pc + 2,
{
    lemma_decoded_valid(opcode_at(m));
}

/// Subtract-with-borrow: the destination gets `V[x] - V[y]` modulo 256, and
/// the flag register is 1 exactly if nothing was borrowed, that is, if
/// `V[x] >= V[y]`. Where the destination is the flag register itself, the
/// difference is what it holds.
pub proof fn theorem_subtract(m: Machine, rnd: u8, x: u8, y: u8)
    requires
        m.valid(),
        can_fetch(m),
        decoded(opcode_at(m)) == (Instruction::Subtract { x, y }),
    ensures
        step(m, rnd).v[x as int] == (m.v[x as int] - m.v[y as int]) % 256,
        x != 15 ==> step(m, rnd).v[15] == bit(m.v[x as int] >= m.v[y as int]),
        forall|k: int| 0 <= k < 15 && k != x ==> step(m, rnd).v[k] == m.v[k],
        step(m, rnd).pc == m.pc + 2,
{
    lemma_decoded_valid(opcode_at(m));
}

/// Reverse subtract-with-borrow: the destination gets `V[y] - V[x]` modulo
/// 256, and the flag register is 1 exactly if `V[y] >= V[x]`. Where the
/// destination is the flag register itself, the difference is what it holds.
pub proof fn theorem_subtract_from(m: Machine, rnd: u8, x: u8, y: u8)
    requires
        m.valid(),
        can_fetch(m),
        decoded(opcode_at(m)) == (Instruction::SubtractFrom { x, y }),
    ensures
        step(m, rnd).v[x as int] == (m.v[y as int] - m.v[x as int]) % 256,
        x != 15 ==> step(m, rnd).v[15] == bit(m.v[y as int] >= m.v[x as int]),
        forall|k: int| 0 <= k < 15 && k != x ==> step(m, rnd).v[k] == m.v[k],
        step(m, rnd).pc == m.pc + 2,
{
    lemma_decoded_valid(opcode_at(m));
}

/// Shift right: the flag register gets the bit that is shifted out, the
/// lowest one, and the operand is halved, with a zero coming in at the top.
/// Where the operand is the flag register itself, the flag is written first
/// and then shifted, which leaves zero.
pub proof fn theorem_shift_right(m: Machine, rnd: u8, x: u8)
    requires
        m.valid(),
        can_fetch(m),
        decoded(opcode_at(m)) == (Instruction::ShiftRight { x }),
    ensures
        x != 15 ==> step(m, rnd).v[15] == m.v[x as int] % 2,
        x != 15 ==> step(m, rnd).v[x as int] == m.v[x as int] / 2,
        x == 15 ==> step(m, rnd).v[15] == 0,
        forall|k: int| 0 <= k < 15 && k != x ==> step(m, rnd).v[k] == m.v[k],
        step(m, rnd).pc == m.pc + 2,
{
    lemma_decoded_valid(opcode_at(m));
}

/// Shift left: the flag register gets the bit that is shifted out, the
/// highest one, and the operand is doubled modulo 256. Where the operand is
/// the flag register itself, the flag is written first and then shifted.
pub proof fn theorem_shift_left(m: Machine, rnd: u8, x: u8)
    requires
        m.valid(),
        can_fetch(m),
        decoded(opcode_at(m)) == (Instruction::ShiftLeft { x }),
    ensures
        x != 15 ==> step(m, rnd).v[15] == m.v[x as int] / 128,
        x != 15 ==> step(m, rnd).v[x as int] == (m.v[x as int] * 2) % 256,
        x == 15 ==> step(m, rnd).v[15] == 2 * (m.v[15] / 128),
        forall|k: int| 0 <= k < 15 && k != x ==> step(m, rnd).v[k] == m.v[k],
        step(m, rnd).pc == m.pc + 2,
{
    lemma_decoded_valid(opcode_at(m));
}

/// Whether `ins` is one of the six skip instructions.
pub open spec fn is_skip(ins: Instruction) -> bool {
    ins is SkipIfEqual || ins is SkipIfNotEqual || ins is SkipIfRegistersEqual
        || ins is SkipIfRegistersNotEqual || ins is SkipIfKey || ins is SkipIfNotKey
}

/// Whether the condition of the skip instruction `ins` holds in `m`.
pub open spec fn skip_taken(m: Machine, ins: Instruction) -> bool {
    match ins {
        Instruction::SkipIfEqual { x, nn } => m.v[x as int] == nn,
        Instruction::SkipIfNotEqual { x, nn } => m.v[x as int] != nn,
        Instruction::SkipIfRegistersEqual { x, y } => m.v[x as int] == m.v[y as int],
        Instruction::SkipIfRegistersNotEqual { x, y } => m.v[x as int] != m.v[y as int],
        Instruction::SkipIfKey { x } => m.v[x as int] < 16 && m.keypad[m.v[x as int] as int] == 1,
        Instruction::SkipIfNotKey { x } => m.v[x as int] >= 16 || m.keypad[m.v[x as int] as int]
            == 0,
        _ => false,
    }
}

/// A skip instruction moves the program counter by exactly 4 if its
/// condition holds and by exactly 2 if not, and changes nothing else.
pub proof fn theorem_skip(m: Machine, rnd: u8)
    requires
        m.valid(),
        can_fetch(m),
        is_skip(decoded(opcode_at(m))),
    ensures
        skip_taken(m, decoded(opcode_at(m))) ==> step(m, rnd).pc == m.pc + 4,
        !skip_taken(m, decoded(opcode_at(m))) ==> step(m, rnd).pc == m.pc + 2,
        step(m, rnd) == (Machine { pc: step(m, rnd).pc, ..m }),
        step_outcome(m) == Ok::<RunState, Chip8Error>(RunState::Executing),
{
    lemma_decoded_valid(opcode_at(m));
}

/// A call followed at once by a return comes back to the instruction after
/// the call, with the call stack as it was before.
pub proof fn theorem_call_then_return(m: Machine, r1: u8, r2: u8)
    requires
        m.valid(),
        can_fetch(m),
        decoded(opcode_at(m)) is Call,
        can_fetch(step(m, r1)),
        decoded(opcode_at(step(m, r1))) is Return,
    ensures
        step(step(m, r1), r2).pc == m.pc + 2,
        step(step(m, r1), r2) == (Machine { pc: (m.pc + 2) as u16, ..m }),
{
    let called = step(m, r1);
    assert(called.stack.drop_last() =~= m.stack);
}

/// After `k + 1` cycles the state is that after `k` cycles, stepped once.
proof fn lemma_run_next(m: Machine, rnds: Seq<u8>, k: int)
    requires
        0 <= k < rnds.len(),
    ensures
        run(m, rnds.take(k + 1)) == step(run(m, rnds.take(k)), rnds[k]),
{
    assert(rnds.take(k + 1).drop_last() =~= rnds.take(k));
}

/// Calls nested `n` deep and then `n` returns unwind the chain of call
/// sites exactly: if the first `n` cycles each execute a call and the next
/// `n` each a return, then after the `j`-th return the machine stands on the
/// instruction after the `j`-th call counted from the last one, with the
/// call stack as it was before that call. With `j == n` that is the
/// instruction after the first call and the call stack from the outset.
pub proof fn theorem_nested_calls_return(m: Machine, rnds: Seq<u8>, n: int, j: int)
    requires
        m.valid(),
        rnds.len() == 2 * n,
        1 <= j <= n,
        forall|k: int|
            0 <= k < n ==> can_fetch(#[trigger] run(m, rnds.take(k))) && decoded(
                opcode_at(run(m, rnds.take(k))),
            ) is Call,
        forall|k: int|
            n <= k < 2 * n ==> can_fetch(#[trigger] run(m, rnds.take(k))) && decoded(
                opcode_at(run(m, rnds.take(k))),
            ) is Return,
    ensures
        run(m, rnds.take(n + j)).pc == run(m, rnds.take(n - j)).pc + 2,
        run(m, rnds.take(n + j)).stack == run(m, rnds.take(n - j)).stack,
    decreases j,
{
    let site = run(m, rnds.take(n - j));
    let inside = run(m, rnds.take(n - j + 1));
    let before = run(m, rnds.take(n + j - 1));
    let after = run(m, rnds.take(n + j));
    lemma_run_next(m, rnds, n - j);
    lemma_run_next(m, rnds, n + j - 1);
    assert(can_fetch(site) && decoded(opcode_at(site)) is Call);
    assert(can_fetch(before) && decoded(opcode_at(before)) is Return);
    assert(inside.stack == site.stack.push(site.pc));
    if j > 1 {
        theorem_nested_calls_return(m, rnds, n, j - 1);
    }
    assert(before.stack == inside.stack);
    assert(inside.stack.drop_last() =~= site.stack);
}

/// From `n`, a timer reaches zero after exactly `n` ticks, not before, and
/// stays there.
pub proof fn theorem_timers_count_down(m: Machine, n: nat)
    ensures
        ticked_times(m, n).delay_timer == if n <= m.delay_timer {
            m.delay_timer - n
        } else {
            0
        },
        ticked_times(m, n).sound_timer == if n <= m.sound_timer {
            m.sound_timer - n
        } else {
            0
        },
        ticked_times(m, n) == (Machine {
            delay_timer: ticked_times(m, n).delay_timer,
            sound_timer: ticked_times(m, n).sound_timer,
            ..m
        }),
    decreases n,
{
    if n > 0 {
        theorem_timers_count_down(m, (n - 1) as nat);
    }
}

/// `pressed_key_from` finds the first pressed key at or above `from`.
proof fn lemma_pressed_key_from(keypad: Seq<u8>, from: int)
    requires
        0 <= from <= 16,
    ensures
        from <= pressed_key_from(keypad, from) <= 16,
        pressed_key_from(keypad, from) < 16 ==> keypad[pressed_key_from(keypad, from)] == 1,
        forall|k: int| from <= k < pressed_key_from(keypad, from) ==> keypad[k] != 1,
    decreases 16 - from,
{
    if from < 16 && keypad[from] != 1 {
        lemma_pressed_key_from(keypad, from + 1);
    }
}

/// The key that a wait-for-key instruction picks is the pressed key with the
/// lowest index; there is none exactly if no key is pressed.
pub proof fn theorem_pressed_key(keypad: Seq<u8>)
    ensures
        0 <= pressed_key(keypad) <= 16,
        pressed_key(keypad) < 16 ==> keypad[pressed_key(keypad)] == 1,
        forall|k: int| 0 <= k < pressed_key(keypad) ==> keypad[k] != 1,
        pressed_key(keypad) == 16 <==> forall|k: int| 0 <= k < 16 ==> keypad[k] != 1,
{
    lemma_pressed_key_from(keypad, 0);
}

/// While no key is pressed, a machine that stands on a wait-for-key
/// instruction stays exactly as it is, however many cycles are run.
pub proof fn theorem_wait_key_blocks(m: Machine, rnds: Seq<u8>)
    requires
        m.valid(),
        can_fetch(m),
        decoded(opcode_at(m)) is WaitKey,
        forall|k: int| 0 <= k < 16 ==> m.keypad[k] != 1,
    ensures
        run(m, rnds) == m,
        rnds.len() > 0 ==> step_outcome(run(m, rnds.drop_last())) == Ok::<RunState, Chip8Error>(
            RunState::AwaitingInput,
        ),
    decreases rnds.len(),
{
    theorem_pressed_key(m.keypad);
    if rnds.len() > 0 {
        theorem_wait_key_blocks(m, rnds.drop_last());
    }
}

/// Once a key is pressed, the next cycle of a machine that stands on a
/// wait-for-key instruction stores the index of the lowest pressed key in
/// the destination register and moves on.
pub proof fn theorem_wait_key_resumes(m: Machine, rnd: u8, x: u8, key: int)
    requires
        m.valid(),
        can_fetch(m),
        decoded(opcode_at(m)) == (Instruction::WaitKey { x }),
        0 <= key < 16,
        m.keypad[key] == 1,
        forall|k: int| 0 <= k < key ==> m.keypad[k] != 1,
    ensures
        step(m, rnd).pc == m.pc + 2,
        step(m, rnd).v[x as int] == key,
        step(m, rnd) == (Machine {
            pc: (m.pc + 2) as u16,
            v: m.v.update(x as int, key as u8),
            ..m
        }),
        step_outcome(m) == Ok::<RunState, Chip8Error>(RunState::Executing),
{
    theorem_pressed_key(m.keypad);
    lemma_decoded_valid(opcode_at(m));
}

/// A sprite drawn twice at the same coordinates, with nothing drawn in
/// between, leaves the framebuffer as it was before the first draw. The
/// second draw reports a collision exactly if the sprite has a set pixel on a
/// place that was lit after the first draw, which are the places that the
/// first draw lit.
pub proof fn theorem_draw_twice(m: Machine, r1: u8, r2: u8, x: u8, y: u8, n: u8)
    requires
        m.valid(),
        can_fetch(m),
        decoded(opcode_at(m)) == (Instruction::Draw { x, y, n }),
        operand_in_memory(m, n as int),
        can_fetch(step(m, r1)),
        decoded(opcode_at(step(m, r1))) == (Instruction::Draw { x, y, n }),
        step(m, r1).v[x as int] == m.v[x as int],
        step(m, r1).v[y as int] == m.v[y as int],
    ensures
        step(step(m, r1), r2).display == m.display,
        step(step(m, r1), r2).v[15] == bit(
            exists|k: int|
                0 <= k < 2048 && #[trigger] sprite_lights(
                    sprite_at(m, n as int),
                    m.v[x as int] as int,
                    m.v[y as int] as int,
                    k,
                ) && step(m, r1).display[k] == 1,
        ),
        step(step(m, r1), r2).v[15] == bit(
            exists|k: int|
                0 <= k < 2048 && #[trigger] sprite_lights(
                    sprite_at(m, n as int),
                    m.v[x as int] as int,
                    m.v[y as int] as int,
                    k,
                ) && m.display[k] == 0,
        ),
{
    let sprite = sprite_at(m, n as int);
    let vx = m.v[x as int] as int;
    let vy = m.v[y as int] as int;
    let once = step(m, r1);
    assert(sprite_at(once, n as int) =~= sprite);
    lemma_drawn_twice(m.display, sprite, vx, vy);
    lemma_drawn_twice_collides(m.display, sprite, vx, vy);
}

/// Sprite coordinates wrap around the edges of the framebuffer: the pixel in
/// column `col` of row `row` of the sprite acts on column `(V[x] + col) % 64`
/// of row `(V[y] + row) % 32`, which is always a place of the framebuffer.
/// Where the pixel is set, that place is flipped, and the flag register
/// reports it if the place was lit; where it is clear, the place is left
/// alone.
pub proof fn theorem_draw_wraps(m: Machine, rnd: u8, x: u8, y: u8, n: u8, row: int, col: int)
    requires
        m.valid(),
        can_fetch(m),
        decoded(opcode_at(m)) == (Instruction::Draw { x, y, n }),
        operand_in_memory(m, n as int),
        0 <= row < n,
        0 <= col < 8,
    ensures
        ({
            let target = sprite_target(m.v[x as int] as int, m.v[y as int] as int, row, col);
            let set = sprite_bit(m.memory[m.i + row], col);
            &&& 0 <= target < 2048
            &&& step(m, rnd).display.len() == 2048
            &&& set ==> step(m, rnd).display[target] == m.display[target] ^ 1u8
            &&& !set ==> step(m, rnd).display[target] == m.display[target]
            &&& set && m.display[target] == 1 ==> step(m, rnd).v[15] == 1
            &&& step(m, rnd).draw_flag
        }),
{
    lemma_decoded_valid(opcode_at(m));
    lemma_drawn_wraps(
        m.display,
        sprite_at(m, n as int),
        m.v[x as int] as int,
        m.v[y as int] as int,
        row,
        col,
    );
}

} // verus!
