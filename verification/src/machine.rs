//! The abstract machine: the state that the interpreter's contracts speak of.

use vstd::prelude::*;
use crate::display::{blank, monochrome, DISPLAY_SIZE};

verus! {

/// Bytes of addressable memory.
pub const MEMORY_SIZE: usize = 4096;

/// Address at which the font glyphs are stored.
pub const FONTSET_START: usize = 0x50;

/// Address at which programs are loaded and start to run.
pub const PROGRAM_START: usize = 0x200;

/// Bytes per font glyph.
pub const GLYPH_SIZE: usize = 5;

/// Index of the flag register, the last of the sixteen general-purpose
/// registers.
pub const FLAG: usize = 15;

/// Why loading a program or running a cycle did not go through.
#[derive(Clone, Copy, PartialEq, Eq, Debug)]
pub enum Chip8Error {
    /// The program does not fit between the program origin and the top of
    /// memory. Nothing was loaded.
    RomTooLarge,
    /// A return was executed with an empty call stack. The machine stays on
    /// that instruction.
    StackUnderflow,
    /// The fetched bit pattern is no instruction. It was skipped.
    UnknownOpcode { opcode: u16 },
    /// The program counter, or the index register together with an
    /// instruction's operand, points past the top of memory. The machine
    /// stays on that instruction.
    AddressOutOfBounds,
}

/// What the machine does after a cycle that went through.
#[derive(Clone, Copy, PartialEq, Eq, Debug)]
pub enum RunState {
    /// The instruction was executed; the next cycle runs the next one.
    Executing,
    /// The machine sits on a wait-for-key instruction and no key is pressed.
    AwaitingInput,
}

/// The complete state of the machine.
#[verifier::ext_equal]
pub struct Machine {
    /// Main memory.
    pub memory: Seq<u8>,
    /// General-purpose registers `V0` to `VF`.
    pub v: Seq<u8>,
    /// Index register `I`.
    pub i: u16,
    /// Program counter.
    pub pc: u16,
    /// Call stack: the addresses of the call instructions not yet returned
    /// from, innermost last.
    pub stack: Seq<u16>,
    /// Delay timer.
    pub delay_timer: u8,
    /// Sound timer.
    pub sound_timer: u8,
    /// Key latches, 1 for a pressed key and 0 for a released one.
    pub keypad: Seq<u8>,
    /// Framebuffer, one byte per pixel, row-major.
    pub display: Seq<u8>,
    /// Whether the framebuffer changed since the host last presented it.
    pub draw_flag: bool,
}

impl Machine {
    /// The shape every reachable state has: tables of the right size, a
    /// monochrome framebuffer, and on the call stack only addresses from
    /// which an instruction can have been fetched.
    pub open spec fn valid(self) -> bool {
        &&& self.memory.len() == MEMORY_SIZE
        &&& self.v.len() == 16
        &&& self.keypad.len() == 16
        &&& self.display.len() == DISPLAY_SIZE
        &&& monochrome(self.display)
        &&& forall|k: int|
            0 <= k < self.stack.len() ==> #[trigger] self.stack[k] + 1 < MEMORY_SIZE
    }

    /// The state of a machine that was just switched on.
    pub open spec fn power_on() -> Machine {
        Machine {
            memory: Seq::new(MEMORY_SIZE as nat, |a: int| 0u8),
            v: Seq::new(16, |k: int| 0u8),
            i: 0,
            pc: PROGRAM_START as u16,
            stack: Seq::empty(),
            delay_timer: 0,
            sound_timer: 0,
            keypad: Seq::new(16, |k: int| 0u8),
            display: blank(),
            draw_flag: false,
        }
    }
}

/// `memory` with `bytes` copied to address `at` and up.
pub open spec fn with_bytes(memory: Seq<u8>, at: int, bytes: Seq<u8>) -> Seq<u8> {
    Seq::new(
        memory.len(),
        |a: int|
            if at <= a < at + bytes.len() {
                bytes[a - at]
            } else {
                memory[a]
            },
    )
}

/// The state after initialising with a program and a font: both are in
/// memory, the program counter is at the program origin, and registers,
/// timers, call stack, keypad and framebuffer are cleared. The rest of
/// memory and the draw flag are as before.
pub open spec fn initialised(m: Machine, rom: Seq<u8>, fontset: Seq<u8>) -> Machine {
    Machine {
        memory: with_bytes(
            with_bytes(m.memory, FONTSET_START as int, fontset),
            PROGRAM_START as int,
            rom,
        ),
        draw_flag: m.draw_flag,
        ..Machine::power_on()
    }
}

/// The state after one tick of the 60 Hz clock: each timer that is not yet
/// zero goes down by one.
pub open spec fn ticked(m: Machine) -> Machine {
    Machine {
        delay_timer: if m.delay_timer > 0 {
            (m.delay_timer - 1) as u8
        } else {
            0
        },
        sound_timer: if m.sound_timer > 0 {
            (m.sound_timer - 1) as u8
        } else {
            0
        },
        ..m
    }
}

/// The state after `n` ticks of the 60 Hz clock.
pub open spec fn ticked_times(m: Machine, n: nat) -> Machine
    decreases n,
{
    if n == 0 {
        m
    } else {
        ticked(ticked_times(m, (n - 1) as nat))
    }
}

} // verus!
