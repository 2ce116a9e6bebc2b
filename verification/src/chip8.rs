//! The interpreter: the machine state and the operations that a host drives
//! it with.

use vstd::prelude::*;
use crate::display::{blank, draw_sprite, lemma_drawn_monochrome, monochrome, DISPLAY_SIZE};
use crate::instruction::{decode, Instruction};
use crate::machine::{
    initialised,
    ticked,
    with_bytes,
    Chip8Error,
    Machine,
    RunState,
    FLAG,
    FONTSET_START,
    GLYPH_SIZE,
    MEMORY_SIZE,
    PROGRAM_START,
};
use crate::semantics::{
    advanced,
    can_fetch,
    draws_random,
    execute,
    key_latch,
    opcode_at,
    outcome,
    pressed_key,
    pressed_key_from,
    registers_loaded,
    registers_stored,
    skipped,
    sprite_at,
    step,
    step_outcome,
    with_flag_and_register,
    with_register,
};

verus! {

/// A CHIP-8 machine.
///
/// The host creates one with [`Chip8::new`], loads a program with
/// [`Chip8::init`], and then in each frame latches the keys, runs some
/// cycles, ticks the timers and, if the draw flag is up, presents the
/// framebuffer and lowers the flag.
pub struct Chip8 {
    stack: Vec<u16>,
    pc: u16,
    v: [u8; 16],
    memory: [u8; MEMORY_SIZE],
    i: u16,
    delay_timer: u8,
    sound_timer: u8,
    keypad: [u8; 16],
    display: [u8; DISPLAY_SIZE],
    draw_flag: bool,
}

impl View for Chip8 {
    type V = Machine;

    closed spec fn view(&self) -> Machine {
        Machine {
            memory: self.memory@,
            v: self.v@,
            i: self.i,
            pc: self.pc,
            stack: self.stack@,
            delay_timer: self.delay_timer,
            sound_timer: self.sound_timer,
            keypad: self.keypad@,
            display: self.display@,
            draw_flag: self.draw_flag,
        }
    }
}

impl Chip8 {
    /// What the private fields guarantee beyond their types: the framebuffer
    /// is monochrome, and the call stack holds only addresses from which an
    /// instruction was fetched.
    #[verifier::type_invariant]
    spec fn inv(&self) -> bool {
        &&& monochrome(self.display@)
        &&& forall|k: int|
            0 <= k < self.stack@.len() ==> #[trigger] self.stack@[k] + 1 < MEMORY_SIZE
    }

    /// A machine that was just switched on: everything is zero and the
    /// program counter is at the program origin.
    pub fn new() -> (chip: Chip8)
        ensures
            chip@ == Machine::power_on(),
            chip@.valid(),
    {
        let chip = Chip8 {
            stack: Vec::new(),
            pc: PROGRAM_START as u16,
            v: [0; 16],
            memory: [0; MEMORY_SIZE],
            i: 0,
            delay_timer: 0,
            sound_timer: 0,
            keypad: [0; 16],
            display: [0; DISPLAY_SIZE],
            draw_flag: false,
        };
        assert(chip@ =~= Machine::power_on());
        chip
    }

    /// Counts both timers down by one, stopping at zero. The host calls
    /// this sixty times a second, whatever the rate of cycles.
    pub fn update_timers(&mut self)
        ensures
            final(self)@ == ticked(old(self)@),
            final(self)@.valid(),
    {
        proof {
            use_type_invariant(&*self);
        }
        if self.delay_timer > 0 {
            self.delay_timer = self.delay_timer - 1;
        }
        if self.sound_timer > 0 {
            self.sound_timer = self.sound_timer - 1;
        }
    }

    /// Copies `bytes` into memory at address `at` and up.
    fn copy_to_memory(&mut self, at: usize, bytes: &[u8])
        requires
            at + bytes@.len() <= MEMORY_SIZE,
        ensures
            final(self)@ == (Machine {
                memory: with_bytes(old(self)@.memory, at as int, bytes@),
                ..old(self)@
            }),
    {
        proof {
            use_type_invariant(&*self);
        }
        let ghost before = self@;
        let mut k: usize = 0;
        while k < bytes.len()
            invariant
                self.inv(),
                k <= bytes@.len(),
                at + bytes@.len() <= MEMORY_SIZE,
                before.memory.len() == MEMORY_SIZE,
                self@ == (Machine {
                    memory: with_bytes(before.memory, at as int, bytes@.take(k as int)),
                    ..before
                }),
            decreases bytes@.len() - k,
        {
            self.memory[at + k] = bytes[k];
            k += 1;
            assert(self@ =~= (Machine {
                memory: with_bytes(before.memory, at as int, bytes@.take(k as int)),
                ..before
            }));
        }
        assert(bytes@.take(k as int) =~= bytes@);
    }

    /// Copies the font glyphs into memory at the font origin, `0x50`.
    ///
    /// The font must end before the program origin; the usual font of
    /// sixteen five-byte glyphs does.
    pub fn load_fontset(&mut self, fontset: Vec<u8>)
        requires
            fontset@.len() <= PROGRAM_START - FONTSET_START,
        ensures
            final(self)@ == (Machine {
                memory: with_bytes(old(self)@.memory, FONTSET_START as int, fontset@),
                ..old(self)@
            }),
            final(self)@.valid(),
    {
        self.copy_to_memory(FONTSET_START, fontset.as_slice());
        proof {
            use_type_invariant(&*self);
        }
    }

    /// Copies a program into memory at the program origin, `0x200`.
    ///
    /// A program that does not fit below the top of memory is refused with
    /// [`Chip8Error::RomTooLarge`], and nothing is copied.
    pub fn load_rom(&mut self, rom: &[u8]) -> (res: Result<(), Chip8Error>)
        ensures
            res is Ok <==> PROGRAM_START + rom@.len() <= MEMORY_SIZE,
            res is Ok ==> final(self)@ == (Machine {
                memory: with_bytes(old(self)@.memory, PROGRAM_START as int, rom@),
                ..old(self)@
            }),
            res is Err ==> res == Err::<(), Chip8Error>(Chip8Error::RomTooLarge) && final(self)@
                == old(self)@,
            final(self)@.valid(),
    {
        proof {
            use_type_invariant(&*self);
        }
        if rom.len() > MEMORY_SIZE - PROGRAM_START {
            return Err(Chip8Error::RomTooLarge);
        }
        self.copy_to_memory(PROGRAM_START, rom);
        proof {
            use_type_invariant(&*self);
        }
        Ok(())
    }

    /// Clears registers, timers, call stack, keypad and framebuffer and puts
    /// the program counter at the program origin.
    fn reset(&mut self)
        ensures
            final(self)@ == (Machine {
                memory: old(self)@.memory,
                draw_flag: old(self)@.draw_flag,
                ..Machine::power_on()
            }),
    {
        proof {
            use_type_invariant(&*self);
        }
        self.stack = Vec::new();
        self.pc = PROGRAM_START as u16;
        self.v = [0; 16];
        self.i = 0;
        self.delay_timer = 0;
        self.sound_timer = 0;
        self.keypad = [0; 16];
        self.display = [0; DISPLAY_SIZE];
        assert(self@ =~= (Machine {
            memory: old(self)@.memory,
            draw_flag: old(self)@.draw_flag,
            ..Machine::power_on()
        }));
    }

    /// Initialises the machine with a program and a font.
    ///
    /// A program that does not fit between the program origin and the top of
    /// memory is refused with [`Chip8Error::RomTooLarge`] and the machine is
    /// left as it was. Otherwise the font is stored at `0x50`, the program at
    /// `0x200`, and registers, timers, call stack, keypad and framebuffer are
    /// cleared; the rest of memory and the draw flag stay as they are.
    ///
    /// The font must end before the program origin; the usual font of
    /// sixteen five-byte glyphs does.
    pub fn init(&mut self, rom: &[u8], fontset: Vec<u8>) -> (res: Result<(), Chip8Error>)
        requires
            fontset@.len() <= PROGRAM_START - FONTSET_START,
        ensures
            res is Ok <==> PROGRAM_START + rom@.len() <= MEMORY_SIZE,
            res is Ok ==> final(self)@ == initialised(old(self)@, rom@, fontset@),
            res is Err ==> res == Err::<(), Chip8Error>(Chip8Error::RomTooLarge) && final(self)@
                == old(self)@,
            final(self)@.valid(),
    {
        proof {
            use_type_invariant(&*self);
        }
        if rom.len() > MEMORY_SIZE - PROGRAM_START {
            return Err(Chip8Error::RomTooLarge);
        }
        self.reset();
        self.load_fontset(fontset);
        let loaded = self.load_rom(rom);
        assert(self@ =~= initialised(old(self)@, rom@, fontset@));
        loaded
    }

    /// Runs one fetch-decode-execute cycle, with `rnd` as the random byte
    /// should the instruction ask for one.
    ///
    /// The cycle either executes the instruction at the program counter or
    /// leaves the machine exactly as it was: on
    /// [`RunState::AwaitingInput`], [`Chip8Error::StackUnderflow`] and
    /// [`Chip8Error::AddressOutOfBounds`] nothing has changed, so the same
    /// instruction is tried again in the next cycle. After
    /// [`Chip8Error::UnknownOpcode`] the program counter has moved on.
    pub fn emulate_cycle_with(&mut self, rnd: u8) -> (res: Result<RunState, Chip8Error>)
        ensures
            final(self)@ == step(old(self)@, rnd),
            res == step_outcome(old(self)@),
            final(self)@.valid(),
    {
        let res = match self.fetch() {
            Some(opcode) => self.perform(decode(opcode), rnd),
            None => Err(Chip8Error::AddressOutOfBounds),
        };
        proof {
            use_type_invariant(&*self);
        }
        res
    }

    /// Runs one fetch-decode-execute cycle, drawing a random byte if the
    /// instruction asks for one.
    ///
    /// See [`Chip8::emulate_cycle_with`] for what a cycle does and reports.
    /// The cycle is the one that `emulate_cycle_with` runs for some byte;
    /// which byte matters only to the random-and instruction.
    pub fn emulate_cycle(&mut self) -> (res: Result<RunState, Chip8Error>)
        ensures
            exists|rnd: u8| final(self)@ == step(old(self)@, rnd),
            !draws_random(old(self)@) ==> final(self)@ == step(old(self)@, 0),
            res == step_outcome(old(self)@),
            final(self)@.valid(),
    {
        let res = match self.fetch() {
            Some(opcode) => {
                let ins = decode(opcode);
                let rnd: u8 = match ins {
                    Instruction::Random { .. } => random_byte(),
                    _ => 0,
                };
                let res = self.perform(ins, rnd);
                assert(self@ == step(old(self)@, rnd));
                res
            },
            None => {
                assert(self@ == step(old(self)@, 0));
                Err(Chip8Error::AddressOutOfBounds)
            },
        };
        proof {
            use_type_invariant(&*self);
        }
        res
    }

    /// Latches key `key` as pressed or released. An index that names no key
    /// is ignored.
    pub fn set_key(&mut self, key: usize, pressed: bool)
        ensures
            key < 16 ==> final(self)@ == (Machine {
                keypad: old(self)@.keypad.update(key as int, if pressed { 1u8 } else { 0u8 }),
                ..old(self)@
            }),
            key >= 16 ==> final(self)@ == old(self)@,
            final(self)@.valid(),
    {
        proof {
            use_type_invariant(&*self);
        }
        if key < 16 {
            self.keypad[key] = if pressed {
                1
            } else {
                0
            };
            assert(self@ =~= (Machine {
                keypad: old(self)@.keypad.update(key as int, if pressed { 1u8 } else { 0u8 }),
                ..old(self)@
            }));
        }
    }

    /// Lowers the draw flag. The host calls this after it has presented the
    /// framebuffer.
    pub fn clear_draw_flag(&mut self)
        ensures
            final(self)@ == (Machine { draw_flag: false, ..old(self)@ }),
            final(self)@.valid(),
    {
        proof {
            use_type_invariant(&*self);
        }
        self.draw_flag = false;
    }

    /// Whether the framebuffer changed since the flag was last lowered.
    pub fn draw_flag(&self) -> (flag: bool)
        ensures
            flag == self@.draw_flag,
    {
        self.draw_flag
    }

    /// The framebuffer: 64 columns by 32 rows, row-major, 1 for a lit pixel.
    pub fn display(&self) -> (display: &[u8; DISPLAY_SIZE])
        ensures
            display@ == self@.display,
            monochrome(display@),
    {
        proof {
            use_type_invariant(self);
        }
        &self.display
    }

    /// The key latches.
    pub fn keypad(&self) -> (keypad: &[u8; 16])
        ensures
            keypad@ == self@.keypad,
    {
        &self.keypad
    }

    /// The general-purpose registers `V0` to `VF`.
    pub fn registers(&self) -> (v: &[u8; 16])
        ensures
            v@ == self@.v,
    {
        &self.v
    }

    /// Main memory.
    pub fn memory(&self) -> (memory: &[u8; MEMORY_SIZE])
        ensures
            memory@ == self@.memory,
    {
        &self.memory
    }

    /// The program counter.
    pub fn pc(&self) -> (pc: u16)
        ensures
            pc == self@.pc,
    {
        self.pc
    }

    /// The index register `I`.
    pub fn index(&self) -> (i: u16)
        ensures
            i == self@.i,
    {
        self.i
    }

    /// The number of subroutine calls not yet returned from.
    pub fn stack_depth(&self) -> (depth: usize)
        ensures
            depth == self@.stack.len(),
    {
        self.stack.len()
    }

    /// The delay timer.
    pub fn delay_timer(&self) -> (timer: u8)
        ensures
            timer == self@.delay_timer,
    {
        self.delay_timer
    }

    /// The sound timer; the host sounds its tone while this is not zero.
    pub fn sound_timer(&self) -> (timer: u8)
        ensures
            timer == self@.sound_timer,
    {
        self.sound_timer
    }

    /// The opcode at the program counter, or `None` if the program counter
    /// points at or past the last byte of memory.
    fn fetch(&self) -> (opcode: Option<u16>)
        ensures
            opcode == (if can_fetch(self@) {
                Some(opcode_at(self@))
            } else {
                None
            }),
    {
        let pc: usize = self.pc as usize;
        if pc + 1 < MEMORY_SIZE {
            let high: u8 = self.memory[pc];
            let low: u8 = self.memory[pc + 1];
            assert(((high as u16) << 8) | (low as u16) == high as u16 * 256 + low as u16)
                by (bit_vector);
            Some(((high as u16) << 8) | (low as u16))
        } else {
            None
        }
    }

    /// Puts a return address on the call stack.
    fn push_return_address(&mut self, addr: u16)
        requires
            addr + 1 < MEMORY_SIZE,
        ensures
            final(self)@ == (Machine { stack: old(self)@.stack.push(addr), ..old(self)@ }),
    {
        proof {
            use_type_invariant(&*self);
        }
        let mut stack: Vec<u16> = Vec::new();
        std::mem::swap(&mut self.stack, &mut stack);
        stack.push(addr);
        self.stack = stack;
    }

    /// Takes the innermost return address off the call stack.
    fn pop_return_address(&mut self) -> (addr: Option<u16>)
        ensures
            old(self)@.stack.len() == 0 ==> addr is None && final(self)@ == old(self)@,
            old(self)@.stack.len() > 0 ==> addr == Some(old(self)@.stack.last())
                && old(self)@.stack.last() + 1 < MEMORY_SIZE && final(self)@ == (Machine {
                stack: old(self)@.stack.drop_last(),
                ..old(self)@
            }),
    {
        proof {
            use_type_invariant(&*self);
        }
        let mut stack: Vec<u16> = Vec::new();
        std::mem::swap(&mut self.stack, &mut stack);
        let addr = stack.pop();
        self.stack = stack;
        addr
    }

    /// Moves the program counter past the current instruction, and past the
    /// next one too if `skip` holds.
    fn skip_if(&mut self, skip: bool)
        requires
            can_fetch(old(self)@),
        ensures
            final(self)@ == skipped(old(self)@, skip),
    {
        proof {
            use_type_invariant(&*self);
        }
        if skip {
            self.pc = self.pc + 4;
        } else {
            self.pc = self.pc + 2;
        }
    }

    /// Moves the program counter past the current instruction.
    fn advance(&mut self)
        requires
            can_fetch(old(self)@),
        ensures
            final(self)@ == advanced(old(self)@),
    {
        proof {
            use_type_invariant(&*self);
        }
        self.pc = self.pc + 2;
    }

    /// Writes `value` to register `x`.
    fn set_register(&mut self, x: u8, value: u8)
        requires
            x < 16,
        ensures
            final(self)@ == with_register(old(self)@, x as int, value),
    {
        proof {
            use_type_invariant(&*self);
        }
        self.v[x as usize] = value;
        assert(self@ =~= with_register(old(self)@, x as int, value));
    }

    /// Writes `value` to register `x` and moves on to the next instruction.
    fn assign(&mut self, x: u8, value: u8)
        requires
            can_fetch(old(self)@),
            x < 16,
        ensures
            final(self)@ == advanced(with_register(old(self)@, x as int, value)),
    {
        self.set_register(x, value);
        self.advance();
    }

    /// Writes `flag` to the flag register, then `value` to register `x`, and
    /// moves on to the next instruction.
    fn assign_with_flag(&mut self, flag: u8, x: u8, value: u8)
        requires
            can_fetch(old(self)@),
            x < 16,
        ensures
            final(self)@ == advanced(with_flag_and_register(old(self)@, flag, x as int, value)),
    {
        self.set_register(FLAG as u8, flag);
        self.set_register(x, value);
        self.advance();
    }

    /// Returns from a subroutine, or reports that there is none to return
    /// from.
    fn return_from_subroutine(&mut self) -> (res: Result<RunState, Chip8Error>)
        ensures
            final(self)@ == execute(old(self)@, Instruction::Return, 0),
            res == outcome(old(self)@, Instruction::Return),
    {
        match self.pop_return_address() {
            Some(addr) => {
                proof {
                    use_type_invariant(&*self);
                }
                self.pc = addr + 2;
                Ok(RunState::Executing)
            },
            None => Err(Chip8Error::StackUnderflow),
        }
    }

    /// Calls the subroutine at `addr`.
    fn call_subroutine(&mut self, addr: u16)
        requires
            can_fetch(old(self)@),
        ensures
            final(self)@ == execute(old(self)@, Instruction::Call { addr }, 0),
    {
        self.push_return_address(self.pc);
        proof {
            use_type_invariant(&*self);
        }
        self.pc = addr;
    }

    /// Blanks the framebuffer.
    fn clear_screen(&mut self)
        requires
            can_fetch(old(self)@),
        ensures
            final(self)@ == execute(old(self)@, Instruction::ClearScreen, 0),
    {
        proof {
            use_type_invariant(&*self);
        }
        self.display = [0; DISPLAY_SIZE];
        self.draw_flag = true;
        self.pc = self.pc + 2;
        assert(self@.display =~= blank());
    }

    /// Carries out one of the register-to-register operations.
    fn perform_arithmetic(&mut self, ins: Instruction)
        requires
            can_fetch(old(self)@),
            ins.valid(),
            ins is Move || ins is Or || ins is And || ins is Xor || ins is Add || ins is Subtract
                || ins is SubtractFrom || ins is ShiftRight || ins is ShiftLeft,
        ensures
            final(self)@ == execute(old(self)@, ins, 0),
    {
        match ins {
            Instruction::Move { x, y } => {
                self.assign(x, self.v[y as usize]);
            },
            Instruction::Or { x, y } => {
                self.assign(x, self.v[x as usize] | self.v[y as usize]);
            },
            Instruction::And { x, y } => {
                self.assign(x, self.v[x as usize] & self.v[y as usize]);
            },
            Instruction::Xor { x, y } => {
                self.assign(x, self.v[x as usize] ^ self.v[y as usize]);
            },
            Instruction::Add { x, y } => {
                let a: u8 = self.v[x as usize];
                let b: u8 = self.v[y as usize];
                let carry: u8 = if b > 255 - a {
                    1
                } else {
                    0
                };
                self.assign_with_flag(carry, x, a.wrapping_add(b));
            },
            Instruction::Subtract { x, y } => {
                let a: u8 = self.v[x as usize];
                let b: u8 = self.v[y as usize];
                let no_borrow: u8 = if a < b {
                    0
                } else {
                    1
                };
                self.assign_with_flag(no_borrow, x, a.wrapping_sub(b));
            },
            Instruction::SubtractFrom { x, y } => {
                let a: u8 = self.v[x as usize];
                let b: u8 = self.v[y as usize];
                let no_borrow: u8 = if b < a {
                    0
                } else {
                    1
                };
                self.assign_with_flag(no_borrow, x, b.wrapping_sub(a));
            },
            Instruction::ShiftRight { x } => {
                let before: u8 = self.v[x as usize];
                assert(before & 1 == before % 2) by (bit_vector);
                self.set_register(FLAG as u8, before & 1);
                let operand: u8 = self.v[x as usize];
                assert(operand >> 1 == operand / 2) by (bit_vector);
                self.assign(x, operand >> 1);
            },
            Instruction::ShiftLeft { x } => {
                let before: u8 = self.v[x as usize];
                assert((before & 0x80) >> 7 == before / 128) by (bit_vector);
                self.set_register(FLAG as u8, (before & 0x80) >> 7);
                let operand: u8 = self.v[x as usize];
                assert(operand << 1 == (operand * 2) % 256) by (bit_vector);
                self.assign(x, operand << 1);
            },
            _ => {},
        }
    }

    /// Carries out one of the operations that move a value between the
    /// registers, the timers and the index register.
    fn perform_transfer(&mut self, ins: Instruction)
        requires
            can_fetch(old(self)@),
            ins.valid(),
            ins is LoadIndex || ins is ReadDelay || ins is SetDelay || ins is SetSound
                || ins is AddIndex || ins is Glyph,
        ensures
            final(self)@ == execute(old(self)@, ins, 0),
    {
        proof {
            use_type_invariant(&*self);
        }
        match ins {
            Instruction::LoadIndex { addr } => {
                self.i = addr;
            },
            Instruction::ReadDelay { x } => {
                self.set_register(x, self.delay_timer);
            },
            Instruction::SetDelay { x } => {
                self.delay_timer = self.v[x as usize];
            },
            Instruction::SetSound { x } => {
                self.sound_timer = self.v[x as usize];
            },
            Instruction::AddIndex { x } => {
                self.i = self.i.wrapping_add(self.v[x as usize] as u16);
            },
            Instruction::Glyph { x } => {
                self.i = FONTSET_START as u16 + self.v[x as usize] as u16 * GLYPH_SIZE as u16;
            },
            _ => {},
        }
        self.advance();
    }

    /// Waits for a key: with a key pressed, its index goes to `V[x]` and the
    /// machine moves on; with none, nothing changes.
    fn wait_key(&mut self, x: u8) -> (res: Result<RunState, Chip8Error>)
        requires
            can_fetch(old(self)@),
            x < 16,
        ensures
            final(self)@ == execute(old(self)@, Instruction::WaitKey { x }, 0),
            res == outcome(old(self)@, Instruction::WaitKey { x }),
    {
        let key: u8 = find_pressed_key(&self.keypad);
        if key < 16 {
            self.assign(x, key);
            Ok(RunState::Executing)
        } else {
            Ok(RunState::AwaitingInput)
        }
    }

    /// Executes one decoded instruction that was fetched at the program
    /// counter.
    fn perform(&mut self, ins: Instruction, rnd: u8) -> (res: Result<RunState, Chip8Error>)
        requires
            can_fetch(old(self)@),
            ins.valid(),
        ensures
            final(self)@ == execute(old(self)@, ins, rnd),
            res == outcome(old(self)@, ins),
    {
        match ins {
            Instruction::ClearScreen => {
                self.clear_screen();
            },
            Instruction::Return => {
                return self.return_from_subroutine();
            },
            Instruction::Jump { addr } => {
                proof {
                    use_type_invariant(&*self);
                }
                self.pc = addr;
            },
            Instruction::Call { addr } => {
                self.call_subroutine(addr);
            },
            Instruction::SkipIfEqual { x, nn } => {
                self.skip_if(self.v[x as usize] == nn);
            },
            Instruction::SkipIfNotEqual { x, nn } => {
                self.skip_if(self.v[x as usize] != nn);
            },
            Instruction::SkipIfRegistersEqual { x, y } => {
                self.skip_if(self.v[x as usize] == self.v[y as usize]);
            },
            Instruction::SkipIfRegistersNotEqual { x, y } => {
                self.skip_if(self.v[x as usize] != self.v[y as usize]);
            },
            Instruction::Load { x, nn } => {
                self.assign(x, nn);
            },
            Instruction::AddImmediate { x, nn } => {
                self.assign(x, self.v[x as usize].wrapping_add(nn));
            },
            Instruction::Move { .. }
            | Instruction::Or { .. }
            | Instruction::And { .. }
            | Instruction::Xor { .. }
            | Instruction::Add { .. }
            | Instruction::Subtract { .. }
            | Instruction::SubtractFrom { .. }
            | Instruction::ShiftRight { .. }
            | Instruction::ShiftLeft { .. } => {
                self.perform_arithmetic(ins);
            },
            Instruction::LoadIndex { .. }
            | Instruction::ReadDelay { .. }
            | Instruction::SetDelay { .. }
            | Instruction::SetSound { .. }
            | Instruction::AddIndex { .. }
            | Instruction::Glyph { .. } => {
                self.perform_transfer(ins);
            },
            Instruction::JumpOffset { addr } => {
                proof {
                    use_type_invariant(&*self);
                }
                self.pc = addr + self.v[0] as u16;
            },
            Instruction::Random { x, nn } => {
                self.assign(x, rnd & nn);
            },
            Instruction::Draw { x, y, n } => {
                return self.draw(x, y, n);
            },
            Instruction::SkipIfKey { x } => {
                self.skip_if(self.key_latch(self.v[x as usize]) == 1);
            },
            Instruction::SkipIfNotKey { x } => {
                self.skip_if(self.key_latch(self.v[x as usize]) == 0);
            },
            Instruction::WaitKey { x } => {
                return self.wait_key(x);
            },
            Instruction::StoreDecimal { x } => {
                return self.store_decimal(x);
            },
            Instruction::StoreRegisters { x } => {
                return self.store_registers(x);
            },
            Instruction::LoadRegisters { x } => {
                return self.load_registers(x);
            },
            Instruction::Unknown { opcode } => {
                self.advance();
                return Err(Chip8Error::UnknownOpcode { opcode });
            },
        }
        Ok(RunState::Executing)
    }

    /// The latch of key `k`, reading a key that the keypad does not have as
    /// released.
    fn key_latch(&self, k: u8) -> (latch: u8)
        ensures
            latch == key_latch(self@.keypad, k as int),
    {
        if k < 16 {
            self.keypad[k as usize]
        } else {
            0
        }
    }

    /// Draws the `n`-row sprite at the index register at `(V[x], V[y])`.
    fn draw(&mut self, x: u8, y: u8, n: u8) -> (res: Result<RunState, Chip8Error>)
        requires
            can_fetch(old(self)@),
            x < 16,
            y < 16,
            n < 16,
        ensures
            final(self)@ == execute(old(self)@, Instruction::Draw { x, y, n }, 0),
            res == outcome(old(self)@, Instruction::Draw { x, y, n }),
    {
        proof {
            use_type_invariant(&*self);
        }
        let start: usize = self.i as usize;
        let rows: usize = n as usize;
        if rows > 0 && start + rows > MEMORY_SIZE {
            return Err(Chip8Error::AddressOutOfBounds);
        }
        let vx: u8 = self.v[x as usize];
        let vy: u8 = self.v[y as usize];
        let from: usize = if rows == 0 {
            0
        } else {
            start
        };
        let sprite = vstd::slice::slice_subrange(self.memory.as_slice(), from, from + rows);
        // The blitter works on a copy, which goes back once it is known to
        // be monochrome still.
        let mut display = self.display;
        let collision = draw_sprite(&mut display, sprite, vx, vy);
        proof {
            assert(sprite@ =~= sprite_at(old(self)@, n as int));
            lemma_drawn_monochrome(self.display@, sprite@, vx as int, vy as int);
        }
        self.display = display;
        self.v[FLAG] = if collision {
            1
        } else {
            0
        };
        self.draw_flag = true;
        self.pc = self.pc + 2;
        assert(self@ =~= execute(old(self)@, Instruction::Draw { x, y, n }, 0));
        Ok(RunState::Executing)
    }

    /// Stores the decimal digits of `V[x]` at the index register.
    fn store_decimal(&mut self, x: u8) -> (res: Result<RunState, Chip8Error>)
        requires
            can_fetch(old(self)@),
            x < 16,
        ensures
            final(self)@ == execute(old(self)@, Instruction::StoreDecimal { x }, 0),
            res == outcome(old(self)@, Instruction::StoreDecimal { x }),
    {
        proof {
            use_type_invariant(&*self);
        }
        let at: usize = self.i as usize;
        if at + 3 > MEMORY_SIZE {
            return Err(Chip8Error::AddressOutOfBounds);
        }
        let value: u8 = self.v[x as usize];
        self.memory[at] = value / 100;
        self.memory[at + 1] = (value % 100) / 10;
        self.memory[at + 2] = value % 10;
        self.pc = self.pc + 2;
        assert(self@ =~= execute(old(self)@, Instruction::StoreDecimal { x }, 0));
        Ok(RunState::Executing)
    }

    /// Stores `V[0..=x]` at the index register.
    fn store_registers(&mut self, x: u8) -> (res: Result<RunState, Chip8Error>)
        requires
            can_fetch(old(self)@),
            x < 16,
        ensures
            final(self)@ == execute(old(self)@, Instruction::StoreRegisters { x }, 0),
            res == outcome(old(self)@, Instruction::StoreRegisters { x }),
    {
        proof {
            use_type_invariant(&*self);
        }
        let at: usize = self.i as usize;
        let count: usize = x as usize + 1;
        if at + count > MEMORY_SIZE {
            return Err(Chip8Error::AddressOutOfBounds);
        }
        let ghost before = self@;
        let mut k: usize = 0;
        while k < count
            invariant
                self.inv(),
                at == before.i,
                k <= count <= 16,
                at + count <= MEMORY_SIZE,
                before.memory.len() == MEMORY_SIZE,
                before.v.len() == 16,
                self@ == (Machine {
                    memory: registers_stored(before, k - 1),
                    ..before
                }),
            decreases count - k,
        {
            self.memory[at + k] = self.v[k];
            k += 1;
            assert(self@ =~= (Machine {
                memory: registers_stored(before, k - 1),
                ..before
            }));
        }
        self.pc = self.pc + 2;
        Ok(RunState::Executing)
    }

    /// Loads `V[0..=x]` from the index register.
    fn load_registers(&mut self, x: u8) -> (res: Result<RunState, Chip8Error>)
        requires
            can_fetch(old(self)@),
            x < 16,
        ensures
            final(self)@ == execute(old(self)@, Instruction::LoadRegisters { x }, 0),
            res == outcome(old(self)@, Instruction::LoadRegisters { x }),
    {
        proof {
            use_type_invariant(&*self);
        }
        let at: usize = self.i as usize;
        let count: usize = x as usize + 1;
        if at + count > MEMORY_SIZE {
            return Err(Chip8Error::AddressOutOfBounds);
        }
        let ghost before = self@;
        let mut k: usize = 0;
        while k < count
            invariant
                self.inv(),
                at == before.i,
                k <= count <= 16,
                at + count <= MEMORY_SIZE,
                before.memory.len() == MEMORY_SIZE,
                before.v.len() == 16,
                self@ == (Machine {
                    v: registers_loaded(before, k - 1),
                    ..before
                }),
            decreases count - k,
        {
            self.v[k] = self.memory[at + k];
            k += 1;
            assert(self@ =~= (Machine {
                v: registers_loaded(before, k - 1),
                ..before
            }));
        }
        self.pc = self.pc + 2;
        Ok(RunState::Executing)
    }
}

/// Draws a byte from the thread-local generator through `rand::random`.
///
/// Nothing is claimed of the byte. The call panics only where the operating
/// system cannot seed the generator.
#[verifier::external_body]
fn random_byte() -> (byte: u8) {
    rand::random::<u8>()
}

/// The lowest index of a pressed key, or 16 if no key is pressed.
pub fn find_pressed_key(keypad: &[u8; 16]) -> (key: u8)
    ensures
        key == pressed_key(keypad@),
{
    let mut k: u8 = 0;
    while k < 16
        invariant
            k <= 16,
            pressed_key(keypad@) == pressed_key_from(keypad@, k as int),
        decreases 16 - k,
    {
        if keypad[k as usize] == 1 {
            return k;
        }
        k += 1;
    }
    k
}

} // verus!
