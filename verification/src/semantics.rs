//! What each instruction does to the machine, and what one cycle does.

use vstd::prelude::*;
use crate::display::{blank, collides, drawn};
use crate::instruction::{decoded, Instruction};
use crate::machine::{
    Chip8Error,
    Machine,
    RunState,
    FLAG,
    FONTSET_START,
    GLYPH_SIZE,
    MEMORY_SIZE,
};

verus! {

/// Whether both bytes of the instruction at the program counter lie in
/// memory.
pub open spec fn can_fetch(m: Machine) -> bool {
    m.pc + 1 < MEMORY_SIZE
}

/// The opcode at the program counter, high byte first.
pub open spec fn opcode_at(m: Machine) -> u16 {
    (m.memory[m.pc as int] * 256 + m.memory[m.pc + 1]) as u16
}

/// The machine with the program counter moved past the current instruction.
pub open spec fn advanced(m: Machine) -> Machine {
    Machine { pc: (m.pc + 2) as u16, ..m }
}

/// The machine with the program counter moved past the current instruction,
/// and past the next one too if `skip` holds.
pub open spec fn skipped(m: Machine, skip: bool) -> Machine {
    Machine {
        pc: if skip {
            (m.pc + 4) as u16
        } else {
            (m.pc + 2) as u16
        },
        ..m
    }
}

/// The machine with register `x` set to `value`.
pub open spec fn with_register(m: Machine, x: int, value: u8) -> Machine {
    Machine { v: m.v.update(x, value), ..m }
}

/// The machine after an operation that writes `flag` to the flag register and
/// then `value` to register `x`. When `x` is the flag register itself, the
/// value is what stays.
pub open spec fn with_flag_and_register(m: Machine, flag: u8, x: int, value: u8) -> Machine {
    with_register(with_register(m, FLAG as int, flag), x, value)
}

/// 1 if `b` holds, else 0.
pub open spec fn bit(b: bool) -> u8 {
    if b {
        1
    } else {
        0
    }
}

/// The latch of key `k`; a key that the keypad does not have reads as
/// released.
pub open spec fn key_latch(keypad: Seq<u8>, k: int) -> u8 {
    if 0 <= k < 16 {
        keypad[k]
    } else {
        0
    }
}

/// The lowest index at or above `from` of a pressed key, or 16 if there is
/// none.
pub open spec fn pressed_key_from(keypad: Seq<u8>, from: int) -> int
    decreases 16 - from,
{
    if from >= 16 {
        16
    } else if keypad[from] == 1 {
        from
    } else {
        pressed_key_from(keypad, from + 1)
    }
}

/// The lowest index of a pressed key, or 16 if no key is pressed.
pub open spec fn pressed_key(keypad: Seq<u8>) -> int {
    pressed_key_from(keypad, 0)
}

/// The `n` sprite rows that the index register points at.
pub open spec fn sprite_at(m: Machine, n: int) -> Seq<u8> {
    Seq::new(n as nat, |r: int| m.memory[m.i + r])
}

/// Whether an instruction's memory operand, `len` bytes at the index
/// register, lies in memory. An operand of no bytes always does.
pub open spec fn operand_in_memory(m: Machine, len: int) -> bool {
    len == 0 || m.i + len <= MEMORY_SIZE
}

/// Memory after storing the three decimal digits of `value` at the index
/// register, hundreds first.
pub open spec fn decimal_stored(m: Machine, value: u8) -> Seq<u8> {
    m.memory.update(m.i as int, (value / 100) as u8).update(
        m.i + 1,
        ((value / 10) % 10) as u8,
    ).update(m.i + 2, (value % 10) as u8)
}

/// Memory after storing registers `V0` to `Vx` at the index register.
pub open spec fn registers_stored(m: Machine, x: int) -> Seq<u8> {
    Seq::new(
        m.memory.len(),
        |a: int|
            if m.i <= a <= m.i + x {
                m.v[a - m.i]
            } else {
                m.memory[a]
            },
    )
}

/// The registers after loading `V0` to `Vx` from the index register.
pub open spec fn registers_loaded(m: Machine, x: int) -> Seq<u8> {
    Seq::new(
        m.v.len(),
        |k: int|
            if k <= x {
                m.memory[m.i + k]
            } else {
                m.v[k]
            },
    )
}

/// The machine after a draw instruction: the sprite is XOR-ed into the
/// framebuffer at the position that the two registers held before the flag
/// register is written, the flag register tells whether a lit pixel went
/// off, and the draw flag is raised.
pub open spec fn sprite_drawn(m: Machine, x: int, y: int, n: int) -> Machine {
    let sprite = sprite_at(m, n);
    let vx = m.v[x] as int;
    let vy = m.v[y] as int;
    Machine {
        v: m.v.update(FLAG as int, bit(collides(m.display, sprite, vx, vy))),
        display: drawn(m.display, sprite, vx, vy),
        draw_flag: true,
        ..m
    }
}

/// The state after executing `ins`, fetched at the current program counter,
/// with `rnd` as the random byte if the instruction asks for one.
///
/// An instruction that cannot be carried out (a return on an empty call
/// stack, a memory operand beyond the top of memory) and a wait for a key
/// while none is pressed leave the state as it is. An unknown opcode only
/// moves the program counter on.
pub open spec fn execute(m: Machine, ins: Instruction, rnd: u8) -> Machine {
    match ins {
        Instruction::ClearScreen => advanced(Machine { display: blank(), draw_flag: true, ..m }),
        Instruction::Return => if m.stack.len() == 0 {
            m
        } else {
            Machine { pc: (m.stack.last() + 2) as u16, stack: m.stack.drop_last(), ..m }
        },
        Instruction::Jump { addr } => Machine { pc: addr, ..m },
        Instruction::Call { addr } => Machine { pc: addr, stack: m.stack.push(m.pc), ..m },
        Instruction::SkipIfEqual { x, nn } => skipped(m, m.v[x as int] == nn),
        Instruction::SkipIfNotEqual { x, nn } => skipped(m, m.v[x as int] != nn),
        Instruction::SkipIfRegistersEqual { x, y } => skipped(m, m.v[x as int] == m.v[y as int]),
        Instruction::SkipIfRegistersNotEqual { x, y } => skipped(
            m,
            m.v[x as int] != m.v[y as int],
        ),
        Instruction::Load { x, nn } => advanced(with_register(m, x as int, nn)),
        Instruction::AddImmediate { x, nn } => advanced(
            with_register(m, x as int, ((m.v[x as int] + nn) % 256) as u8),
        ),
        Instruction::Move { x, y } => advanced(with_register(m, x as int, m.v[y as int])),
        Instruction::Or { x, y } => advanced(
            with_register(m, x as int, m.v[x as int] | m.v[y as int]),
        ),
        Instruction::And { x, y } => advanced(
            with_register(m, x as int, m.v[x as int] & m.v[y as int]),
        ),
        Instruction::Xor { x, y } => advanced(
            with_register(m, x as int, m.v[x as int] ^ m.v[y as int]),
        ),
        Instruction::Add { x, y } => {
            let sum = m.v[x as int] + m.v[y as int];
            advanced(with_flag_and_register(m, bit(sum > 255), x as int, (sum % 256) as u8))
        },
        Instruction::Subtract { x, y } => {
            let difference = m.v[x as int] - m.v[y as int];
            advanced(
                with_flag_and_register(
                    m,
                    bit(difference >= 0),
                    x as int,
                    (difference % 256) as u8,
                ),
            )
        },
        Instruction::SubtractFrom { x, y } => {
            let difference = m.v[y as int] - m.v[x as int];
            advanced(
                with_flag_and_register(
                    m,
                    bit(difference >= 0),
                    x as int,
                    (difference % 256) as u8,
                ),
            )
        },
        Instruction::ShiftRight { x } => {
            let flagged = with_register(m, FLAG as int, (m.v[x as int] % 2) as u8);
            advanced(with_register(flagged, x as int, (flagged.v[x as int] / 2) as u8))
        },
        Instruction::ShiftLeft { x } => {
            let flagged = with_register(m, FLAG as int, (m.v[x as int] / 128) as u8);
            advanced(with_register(flagged, x as int, ((flagged.v[x as int] * 2) % 256) as u8))
        },
        Instruction::LoadIndex { addr } => advanced(Machine { i: addr, ..m }),
        Instruction::JumpOffset { addr } => Machine { pc: (addr + m.v[0]) as u16, ..m },
        Instruction::Random { x, nn } => advanced(with_register(m, x as int, rnd & nn)),
        Instruction::Draw { x, y, n } => if operand_in_memory(m, n as int) {
            advanced(sprite_drawn(m, x as int, y as int, n as int))
        } else {
            m
        },
        Instruction::SkipIfKey { x } => skipped(m, key_latch(m.keypad, m.v[x as int] as int) == 1),
        Instruction::SkipIfNotKey { x } => skipped(
            m,
            key_latch(m.keypad, m.v[x as int] as int) == 0,
        ),
        Instruction::ReadDelay { x } => advanced(with_register(m, x as int, m.delay_timer)),
        Instruction::WaitKey { x } => if pressed_key(m.keypad) < 16 {
            advanced(with_register(m, x as int, pressed_key(m.keypad) as u8))
        } else {
            m
        },
        Instruction::SetDelay { x } => advanced(Machine { delay_timer: m.v[x as int], ..m }),
        Instruction::SetSound { x } => advanced(Machine { sound_timer: m.v[x as int], ..m }),
        Instruction::AddIndex { x } => advanced(
            Machine { i: ((m.i + m.v[x as int]) % 65536) as u16, ..m },
        ),
        Instruction::Glyph { x } => advanced(
            Machine { i: (FONTSET_START + m.v[x as int] * GLYPH_SIZE) as u16, ..m },
        ),
        Instruction::StoreDecimal { x } => if operand_in_memory(m, 3) {
            advanced(Machine { memory: decimal_stored(m, m.v[x as int]), ..m })
        } else {
            m
        },
        Instruction::StoreRegisters { x } => if operand_in_memory(m, x + 1) {
            advanced(Machine { memory: registers_stored(m, x as int), ..m })
        } else {
            m
        },
        Instruction::LoadRegisters { x } => if operand_in_memory(m, x + 1) {
            advanced(Machine { v: registers_loaded(m, x as int), ..m })
        } else {
            m
        },
        Instruction::Unknown { opcode } => advanced(m),
    }
}

/// What executing `ins` reports.
pub open spec fn outcome(m: Machine, ins: Instruction) -> Result<RunState, Chip8Error> {
    match ins {
        Instruction::Return => if m.stack.len() == 0 {
            Err(Chip8Error::StackUnderflow)
        } else {
            Ok(RunState::Executing)
        },
        Instruction::Draw { x, y, n } => if operand_in_memory(m, n as int) {
            Ok(RunState::Executing)
        } else {
            Err(Chip8Error::AddressOutOfBounds)
        },
        Instruction::StoreDecimal { x } => if operand_in_memory(m, 3) {
            Ok(RunState::Executing)
        } else {
            Err(Chip8Error::AddressOutOfBounds)
        },
        Instruction::StoreRegisters { x } | Instruction::LoadRegisters { x } => {
            if operand_in_memory(m, x + 1) {
                Ok(RunState::Executing)
            } else {
                Err(Chip8Error::AddressOutOfBounds)
            }
        },
        Instruction::WaitKey { x } => if pressed_key(m.keypad) < 16 {
            Ok(RunState::Executing)
        } else {
            Ok(RunState::AwaitingInput)
        },
        Instruction::Unknown { opcode } => Err(Chip8Error::UnknownOpcode { opcode }),
        _ => Ok(RunState::Executing),
    }
}

/// The state after one fetch-decode-execute cycle. A program counter from
/// which no instruction can be fetched leaves the state as it is.
pub open spec fn step(m: Machine, rnd: u8) -> Machine {
    if can_fetch(m) {
        execute(m, decoded(opcode_at(m)), rnd)
    } else {
        m
    }
}

/// What one fetch-decode-execute cycle reports.
pub open spec fn step_outcome(m: Machine) -> Result<RunState, Chip8Error> {
    if can_fetch(m) {
        outcome(m, decoded(opcode_at(m)))
    } else {
        Err(Chip8Error::AddressOutOfBounds)
    }
}

/// The state after as many cycles as `rnds` has bytes, the `k`-th cycle
/// with `rnds[k]` as its random byte.
pub open spec fn run(m: Machine, rnds: Seq<u8>) -> Machine
    decreases rnds.len(),
{
    if rnds.len() == 0 {
        m
    } else {
        step(run(m, rnds.drop_last()), rnds.last())
    }
}

/// Whether the next cycle consumes a random byte.
pub open spec fn draws_random(m: Machine) -> bool {
    can_fetch(m) && decoded(opcode_at(m)) is Random
}

} // verus!
