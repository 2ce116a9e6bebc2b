//! The instruction set: one variant per operation, with its operands
//! extracted once, and the decoder from 16-bit opcodes.

use vstd::arithmetic::div_mod::lemma_fundamental_div_mod_converse;
use vstd::prelude::*;

verus! {

/// A decoded instruction.
///
/// `x` and `y` name general-purpose registers, `nn` is an 8-bit immediate,
/// `addr` a 12-bit address and `n` a sprite height.
#[derive(Clone, Copy, PartialEq, Eq, Debug)]
pub enum Instruction {
    /// `00E0`: blank the framebuffer.
    ClearScreen,
    /// `00EE`: return from a subroutine.
    Return,
    /// `1NNN`: jump to `addr`.
    Jump { addr: u16 },
    /// `2NNN`: call the subroutine at `addr`.
    Call { addr: u16 },
    /// `3XNN`: skip the next instruction if `V[x] == nn`.
    SkipIfEqual { x: u8, nn: u8 },
    /// `4XNN`: skip the next instruction if `V[x] != nn`.
    SkipIfNotEqual { x: u8, nn: u8 },
    /// `5XY0`: skip the next instruction if `V[x] == V[y]`.
    SkipIfRegistersEqual { x: u8, y: u8 },
    /// `6XNN`: `V[x] := nn`.
    Load { x: u8, nn: u8 },
    /// `7XNN`: `V[x] := V[x] + nn` modulo 256; the flag register is not touched.
    AddImmediate { x: u8, nn: u8 },
    /// `8XY0`: `V[x] := V[y]`.
    Move { x: u8, y: u8 },
    /// `8XY1`: `V[x] := V[x] | V[y]`.
    Or { x: u8, y: u8 },
    /// `8XY2`: `V[x] := V[x] & V[y]`.
    And { x: u8, y: u8 },
    /// `8XY3`: `V[x] := V[x] ^ V[y]`.
    Xor { x: u8, y: u8 },
    /// `8XY4`: `V[x] := V[x] + V[y]` modulo 256, flag := carry.
    Add { x: u8, y: u8 },
    /// `8XY5`: `V[x] := V[x] - V[y]` modulo 256, flag := no borrow.
    Subtract { x: u8, y: u8 },
    /// `8XY6`: flag := lowest bit of `V[x]`, then `V[x]` is halved.
    ShiftRight { x: u8 },
    /// `8XY7`: `V[x] := V[y] - V[x]` modulo 256, flag := no borrow.
    SubtractFrom { x: u8, y: u8 },
    /// `8XYE`: flag := highest bit of `V[x]`, then `V[x]` is doubled modulo 256.
    ShiftLeft { x: u8 },
    /// `9XY0`: skip the next instruction if `V[x] != V[y]`.
    SkipIfRegistersNotEqual { x: u8, y: u8 },
    /// `ANNN`: `I := addr`.
    LoadIndex { addr: u16 },
    /// `BNNN`: jump to `addr + V[0]`.
    JumpOffset { addr: u16 },
    /// `CXNN`: `V[x] := random byte & nn`.
    Random { x: u8, nn: u8 },
    /// `DXYN`: draw the `n`-row sprite at `I` at position `(V[x], V[y])`.
    Draw { x: u8, y: u8, n: u8 },
    /// `EX9E`: skip the next instruction if key `V[x]` is pressed.
    SkipIfKey { x: u8 },
    /// `EXA1`: skip the next instruction if key `V[x]` is released.
    SkipIfNotKey { x: u8 },
    /// `FX07`: `V[x] := delay timer`.
    ReadDelay { x: u8 },
    /// `FX0A`: block until a key is pressed, then `V[x] := its index`.
    WaitKey { x: u8 },
    /// `FX15`: `delay timer := V[x]`.
    SetDelay { x: u8 },
    /// `FX18`: `sound timer := V[x]`.
    SetSound { x: u8 },
    /// `FX1E`: `I := I + V[x]` modulo 65536.
    AddIndex { x: u8 },
    /// `FX29`: `I :=` address of the font glyph for `V[x]`.
    Glyph { x: u8 },
    /// `FX33`: store the three decimal digits of `V[x]` at `I`, `I+1`, `I+2`.
    StoreDecimal { x: u8 },
    /// `FX55`: store `V[0..=x]` at `I..`.
    StoreRegisters { x: u8 },
    /// `FX65`: load `V[0..=x]` from `I..`.
    LoadRegisters { x: u8 },
    /// Any bit pattern that matches none of the above.
    Unknown { opcode: u16 },
}

/// The first nibble of an opcode, which selects the instruction family.
pub open spec fn family(opcode: u16) -> int {
    opcode as int / 4096
}

/// The second nibble: the register operand `x`.
pub open spec fn operand_x(opcode: u16) -> u8 {
    ((opcode as int / 256) % 16) as u8
}

/// The third nibble: the register operand `y`.
pub open spec fn operand_y(opcode: u16) -> u8 {
    ((opcode as int / 16) % 16) as u8
}

/// The last nibble: a sub-operation selector or a sprite height.
pub open spec fn operand_n(opcode: u16) -> u8 {
    (opcode as int % 16) as u8
}

/// The low byte: an immediate operand or a sub-operation selector.
pub open spec fn operand_nn(opcode: u16) -> u8 {
    (opcode as int % 256) as u8
}

/// The low twelve bits: an address operand.
pub open spec fn operand_addr(opcode: u16) -> u16 {
    (opcode as int % 4096) as u16
}

/// The meaning of family `8`, the register-to-register operations.
pub open spec fn decoded_alu(opcode: u16) -> Instruction {
    let x = operand_x(opcode);
    let y = operand_y(opcode);
    let n = operand_n(opcode);
    if n == 0x0 {
        Instruction::Move { x, y }
    } else if n == 0x1 {
        Instruction::Or { x, y }
    } else if n == 0x2 {
        Instruction::And { x, y }
    } else if n == 0x3 {
        Instruction::Xor { x, y }
    } else if n == 0x4 {
        Instruction::Add { x, y }
    } else if n == 0x5 {
        Instruction::Subtract { x, y }
    } else if n == 0x6 {
        Instruction::ShiftRight { x }
    } else if n == 0x7 {
        Instruction::SubtractFrom { x, y }
    } else if n == 0xE {
        Instruction::ShiftLeft { x }
    } else {
        Instruction::Unknown { opcode }
    }
}

/// The meaning of family `F`, the timer, keypad and memory operations.
pub open spec fn decoded_misc(opcode: u16) -> Instruction {
    let x = operand_x(opcode);
    let nn = operand_nn(opcode);
    if nn == 0x07 {
        Instruction::ReadDelay { x }
    } else if nn == 0x0A {
        Instruction::WaitKey { x }
    } else if nn == 0x15 {
        Instruction::SetDelay { x }
    } else if nn == 0x18 {
        Instruction::SetSound { x }
    } else if nn == 0x1E {
        Instruction::AddIndex { x }
    } else if nn == 0x29 {
        Instruction::Glyph { x }
    } else if nn == 0x33 {
        Instruction::StoreDecimal { x }
    } else if nn == 0x55 {
        Instruction::StoreRegisters { x }
    } else if nn == 0x65 {
        Instruction::LoadRegisters { x }
    } else {
        Instruction::Unknown { opcode }
    }
}

/// The instruction that an opcode stands for.
///
/// Family `0` goes by the low byte alone, so that `0NE0` clears the screen
/// and `0NEE` returns whatever `N` is; families `5` and `9` ignore the last
/// nibble.
pub open spec fn decoded(opcode: u16) -> Instruction {
    let f = family(opcode);
    let x = operand_x(opcode);
    let y = operand_y(opcode);
    let n = operand_n(opcode);
    let nn = operand_nn(opcode);
    let addr = operand_addr(opcode);
    if f == 0x0 {
        if nn == 0xE0 {
            Instruction::ClearScreen
        } else if nn == 0xEE {
            Instruction::Return
        } else {
            Instruction::Unknown { opcode }
        }
    } else if f == 0x1 {
        Instruction::Jump { addr }
    } else if f == 0x2 {
        Instruction::Call { addr }
    } else if f == 0x3 {
        Instruction::SkipIfEqual { x, nn }
    } else if f == 0x4 {
        Instruction::SkipIfNotEqual { x, nn }
    } else if f == 0x5 {
        Instruction::SkipIfRegistersEqual { x, y }
    } else if f == 0x6 {
        Instruction::Load { x, nn }
    } else if f == 0x7 {
        Instruction::AddImmediate { x, nn }
    } else if f == 0x8 {
        decoded_alu(opcode)
    } else if f == 0x9 {
        Instruction::SkipIfRegistersNotEqual { x, y }
    } else if f == 0xA {
        Instruction::LoadIndex { addr }
    } else if f == 0xB {
        Instruction::JumpOffset { addr }
    } else if f == 0xC {
        Instruction::Random { x, nn }
    } else if f == 0xD {
        Instruction::Draw { x, y, n }
    } else if f == 0xE {
        if nn == 0x9E {
            Instruction::SkipIfKey { x }
        } else if nn == 0xA1 {
            Instruction::SkipIfNotKey { x }
        } else {
            Instruction::Unknown { opcode }
        }
    } else {
        decoded_misc(opcode)
    }
}

impl Instruction {
    /// Register operands name one of the sixteen registers, addresses fit in
    /// twelve bits and a sprite has at most fifteen rows.
    pub open spec fn valid(self) -> bool {
        match self {
            Instruction::ClearScreen | Instruction::Return | Instruction::Unknown { .. } => true,
            Instruction::Jump { addr }
            | Instruction::Call { addr }
            | Instruction::LoadIndex { addr }
            | Instruction::JumpOffset { addr } => addr < 4096,
            Instruction::SkipIfEqual { x, .. }
            | Instruction::SkipIfNotEqual { x, .. }
            | Instruction::Load { x, .. }
            | Instruction::AddImmediate { x, .. }
            | Instruction::Random { x, .. }
            | Instruction::ShiftRight { x }
            | Instruction::ShiftLeft { x }
            | Instruction::SkipIfKey { x }
            | Instruction::SkipIfNotKey { x }
            | Instruction::ReadDelay { x }
            | Instruction::WaitKey { x }
            | Instruction::SetDelay { x }
            | Instruction::SetSound { x }
            | Instruction::AddIndex { x }
            | Instruction::Glyph { x }
            | Instruction::StoreDecimal { x }
            | Instruction::StoreRegisters { x }
            | Instruction::LoadRegisters { x } => x < 16,
            Instruction::SkipIfRegistersEqual { x, y }
            | Instruction::Move { x, y }
            | Instruction::Or { x, y }
            | Instruction::And { x, y }
            | Instruction::Xor { x, y }
            | Instruction::Add { x, y }
            | Instruction::Subtract { x, y }
            | Instruction::SubtractFrom { x, y }
            | Instruction::SkipIfRegistersNotEqual { x, y } => x < 16 && y < 16,
            Instruction::Draw { x, y, n } => x < 16 && y < 16 && n < 16,
        }
    }
}

/// The opcode that `family`, `x`, `y` and `n` make up, one nibble each.
pub open spec fn opcode_xyn(family: int, x: u8, y: u8, n: int) -> u16 {
    (family * 4096 + x * 256 + y * 16 + n) as u16
}

/// The opcode that `family`, `x` and `nn` make up.
pub open spec fn opcode_xnn(family: int, x: u8, nn: int) -> u16 {
    (family * 4096 + x * 256 + nn) as u16
}

/// The opcode that `family` and `addr` make up.
pub open spec fn opcode_addr(family: int, addr: u16) -> u16 {
    (family * 4096 + addr) as u16
}

/// The opcode of an instruction, as the programmer writes it.
pub open spec fn encoded(ins: Instruction) -> u16 {
    match ins {
        Instruction::ClearScreen => 0x00E0,
        Instruction::Return => 0x00EE,
        Instruction::Jump { addr } => opcode_addr(0x1, addr),
        Instruction::Call { addr } => opcode_addr(0x2, addr),
        Instruction::SkipIfEqual { x, nn } => opcode_xnn(0x3, x, nn as int),
        Instruction::SkipIfNotEqual { x, nn } => opcode_xnn(0x4, x, nn as int),
        Instruction::SkipIfRegistersEqual { x, y } => opcode_xyn(0x5, x, y, 0x0),
        Instruction::Load { x, nn } => opcode_xnn(0x6, x, nn as int),
        Instruction::AddImmediate { x, nn } => opcode_xnn(0x7, x, nn as int),
        Instruction::Move { x, y } => opcode_xyn(0x8, x, y, 0x0),
        Instruction::Or { x, y } => opcode_xyn(0x8, x, y, 0x1),
        Instruction::And { x, y } => opcode_xyn(0x8, x, y, 0x2),
        Instruction::Xor { x, y } => opcode_xyn(0x8, x, y, 0x3),
        Instruction::Add { x, y } => opcode_xyn(0x8, x, y, 0x4),
        Instruction::Subtract { x, y } => opcode_xyn(0x8, x, y, 0x5),
        Instruction::ShiftRight { x } => opcode_xyn(0x8, x, 0, 0x6),
        Instruction::SubtractFrom { x, y } => opcode_xyn(0x8, x, y, 0x7),
        Instruction::ShiftLeft { x } => opcode_xyn(0x8, x, 0, 0xE),
        Instruction::SkipIfRegistersNotEqual { x, y } => opcode_xyn(0x9, x, y, 0x0),
        Instruction::LoadIndex { addr } => opcode_addr(0xA, addr),
        Instruction::JumpOffset { addr } => opcode_addr(0xB, addr),
        Instruction::Random { x, nn } => opcode_xnn(0xC, x, nn as int),
        Instruction::Draw { x, y, n } => opcode_xyn(0xD, x, y, n as int),
        Instruction::SkipIfKey { x } => opcode_xnn(0xE, x, 0x9E),
        Instruction::SkipIfNotKey { x } => opcode_xnn(0xE, x, 0xA1),
        Instruction::ReadDelay { x } => opcode_xnn(0xF, x, 0x07),
        Instruction::WaitKey { x } => opcode_xnn(0xF, x, 0x0A),
        Instruction::SetDelay { x } => opcode_xnn(0xF, x, 0x15),
        Instruction::SetSound { x } => opcode_xnn(0xF, x, 0x18),
        Instruction::AddIndex { x } => opcode_xnn(0xF, x, 0x1E),
        Instruction::Glyph { x } => opcode_xnn(0xF, x, 0x29),
        Instruction::StoreDecimal { x } => opcode_xnn(0xF, x, 0x33),
        Instruction::StoreRegisters { x } => opcode_xnn(0xF, x, 0x55),
        Instruction::LoadRegisters { x } => opcode_xnn(0xF, x, 0x65),
        Instruction::Unknown { opcode } => opcode,
    }
}

/// An opcode made up of nibbles has those nibbles as its fields.
proof fn lemma_opcode_fields(family: int, x: u8, y: u8, n: int)
    requires
        0 <= family < 16,
        x < 16,
        y < 16,
        0 <= n < 16,
    ensures
        self::family(opcode_xyn(family, x, y, n)) == family,
        operand_x(opcode_xyn(family, x, y, n)) == x,
        operand_y(opcode_xyn(family, x, y, n)) == y,
        operand_n(opcode_xyn(family, x, y, n)) == n,
        operand_nn(opcode_xyn(family, x, y, n)) == y * 16 + n,
        operand_addr(opcode_xyn(family, x, y, n)) == x * 256 + y * 16 + n,
{
    let opcode = family * 4096 + x * 256 + y * 16 + n;
    lemma_fundamental_div_mod_converse(opcode, 4096, family, x * 256 + y * 16 + n);
    lemma_fundamental_div_mod_converse(opcode, 256, family * 16 + x, y * 16 + n);
    lemma_fundamental_div_mod_converse(opcode, 16, family * 256 + x * 16 + y, n);
    lemma_fundamental_div_mod_converse(family * 16 + x, 16, family, x as int);
    lemma_fundamental_div_mod_converse(family * 256 + x * 16 + y, 16, family * 16 + x, y as int);
}

/// An opcode made up of a family, a register and an immediate has those as
/// its fields.
proof fn lemma_immediate(family: int, x: u8, nn: u8)
    requires
        0 <= family < 16,
        x < 16,
    ensures
        self::family(opcode_xnn(family, x, nn as int)) == family,
        operand_x(opcode_xnn(family, x, nn as int)) == x,
        operand_nn(opcode_xnn(family, x, nn as int)) == nn,
{
}

/// An opcode made up of a family and an address has those as its fields.
proof fn lemma_address(family: int, addr: u16)
    requires
        0 <= family < 16,
        addr < 4096,
    ensures
        self::family(opcode_addr(family, addr)) == family,
        operand_addr(opcode_addr(family, addr)) == addr,
{
}

/// Decoding the opcode of an instruction gives that instruction back.
pub proof fn theorem_decoded_encoded(ins: Instruction)
    requires
        ins.valid(),
        !(ins is Unknown),
    ensures
        decoded(encoded(ins)) == ins,
{
    match ins {
        Instruction::ClearScreen => {
            lemma_opcode_fields(0x0, 0x0, 0xE, 0x0);
        },
        Instruction::Return => {
            lemma_opcode_fields(0x0, 0x0, 0xE, 0xE);
        },
        Instruction::Jump { addr } => {
            lemma_address(0x1, addr);
        },
        Instruction::Call { addr } => {
            lemma_address(0x2, addr);
        },
        Instruction::LoadIndex { addr } => {
            lemma_address(0xA, addr);
        },
        Instruction::JumpOffset { addr } => {
            lemma_address(0xB, addr);
        },
        Instruction::SkipIfEqual { x, nn } => {
            lemma_immediate(0x3, x, nn);
        },
        Instruction::SkipIfNotEqual { x, nn } => {
            lemma_immediate(0x4, x, nn);
        },
        Instruction::Load { x, nn } => {
            lemma_immediate(0x6, x, nn);
        },
        Instruction::AddImmediate { x, nn } => {
            lemma_immediate(0x7, x, nn);
        },
        Instruction::Random { x, nn } => {
            lemma_immediate(0xC, x, nn);
        },
        Instruction::SkipIfRegistersEqual { x, y } => {
            lemma_opcode_fields(0x5, x, y, 0x0);
        },
        Instruction::SkipIfRegistersNotEqual { x, y } => {
            lemma_opcode_fields(0x9, x, y, 0x0);
        },
        Instruction::Move { x, y } => {
            lemma_opcode_fields(0x8, x, y, 0x0);
        },
        Instruction::Or { x, y } => {
            lemma_opcode_fields(0x8, x, y, 0x1);
        },
        Instruction::And { x, y } => {
            lemma_opcode_fields(0x8, x, y, 0x2);
        },
        Instruction::Xor { x, y } => {
            lemma_opcode_fields(0x8, x, y, 0x3);
        },
        Instruction::Add { x, y } => {
            lemma_opcode_fields(0x8, x, y, 0x4);
        },
        Instruction::Subtract { x, y } => {
            lemma_opcode_fields(0x8, x, y, 0x5);
        },
        Instruction::ShiftRight { x } => {
            lemma_opcode_fields(0x8, x, 0, 0x6);
        },
        Instruction::SubtractFrom { x, y } => {
            lemma_opcode_fields(0x8, x, y, 0x7);
        },
        Instruction::ShiftLeft { x } => {
            lemma_opcode_fields(0x8, x, 0, 0xE);
        },
        Instruction::Draw { x, y, n } => {
            lemma_opcode_fields(0xD, x, y, n as int);
        },
        Instruction::SkipIfKey { x } => {
            lemma_immediate(0xE, x, 0x9E);
        },
        Instruction::SkipIfNotKey { x } => {
            lemma_immediate(0xE, x, 0xA1);
        },
        Instruction::ReadDelay { x } => {
            lemma_immediate(0xF, x, 0x07);
        },
        Instruction::WaitKey { x } => {
            lemma_immediate(0xF, x, 0x0A);
        },
        Instruction::SetDelay { x } => {
            lemma_immediate(0xF, x, 0x15);
        },
        Instruction::SetSound { x } => {
            lemma_immediate(0xF, x, 0x18);
        },
        Instruction::AddIndex { x } => {
            lemma_immediate(0xF, x, 0x1E);
        },
        Instruction::Glyph { x } => {
            lemma_immediate(0xF, x, 0x29);
        },
        Instruction::StoreDecimal { x } => {
            lemma_immediate(0xF, x, 0x33);
        },
        Instruction::StoreRegisters { x } => {
            lemma_immediate(0xF, x, 0x55);
        },
        Instruction::LoadRegisters { x } => {
            lemma_immediate(0xF, x, 0x65);
        },
        Instruction::Unknown { .. } => {},
    }
}

/// Every opcode decodes to an instruction with operands in range.
pub proof fn lemma_decoded_valid(opcode: u16)
    ensures
        decoded(opcode).valid(),
{
}

/// Decodes a 16-bit opcode.
pub fn decode(opcode: u16) -> (ins: Instruction)
    ensures
        ins == decoded(opcode),
        ins.valid(),
{
    let f: u16 = (opcode & 0xF000) >> 12;
    let x: u8 = ((opcode & 0x0F00) >> 8) as u8;
    let y: u8 = ((opcode & 0x00F0) >> 4) as u8;
    let n: u8 = (opcode & 0x000F) as u8;
    let nn: u8 = (opcode & 0x00FF) as u8;
    let addr: u16 = opcode & 0x0FFF;
    proof {
        assert((opcode & 0xF000) >> 12 == opcode / 4096) by (bit_vector);
        assert((opcode & 0x0F00) >> 8 == (opcode / 256) % 16) by (bit_vector);
        assert((opcode & 0x00F0) >> 4 == (opcode / 16) % 16) by (bit_vector);
        assert(opcode & 0x000F == opcode % 16) by (bit_vector);
        assert(opcode & 0x00FF == opcode % 256) by (bit_vector);
        assert(opcode & 0x0FFF == opcode % 4096) by (bit_vector);
        lemma_decoded_valid(opcode);
    }
    match f {
        0x0 => match nn {
            0xE0 => Instruction::ClearScreen,
            0xEE => Instruction::Return,
            _ => Instruction::Unknown { opcode },
        },
        0x1 => Instruction::Jump { addr },
        0x2 => Instruction::Call { addr },
        0x3 => Instruction::SkipIfEqual { x, nn },
        0x4 => Instruction::SkipIfNotEqual { x, nn },
        0x5 => Instruction::SkipIfRegistersEqual { x, y },
        0x6 => Instruction::Load { x, nn },
        0x7 => Instruction::AddImmediate { x, nn },
        0x8 => match n {
            0x0 => Instruction::Move { x, y },
            0x1 => Instruction::Or { x, y },
            0x2 => Instruction::And { x, y },
            0x3 => Instruction::Xor { x, y },
            0x4 => Instruction::Add { x, y },
            0x5 => Instruction::Subtract { x, y },
            0x6 => Instruction::ShiftRight { x },
            0x7 => Instruction::SubtractFrom { x, y },
            0xE => Instruction::ShiftLeft { x },
            _ => Instruction::Unknown { opcode },
        },
        0x9 => Instruction::SkipIfRegistersNotEqual { x, y },
        0xA => Instruction::LoadIndex { addr },
        0xB => Instruction::JumpOffset { addr },
        0xC => Instruction::Random { x, nn },
        0xD => Instruction::Draw { x, y, n },
        0xE => match nn {
            0x9E => Instruction::SkipIfKey { x },
            0xA1 => Instruction::SkipIfNotKey { x },
            _ => Instruction::Unknown { opcode },
        },
        _ => match nn {
            0x07 => Instruction::ReadDelay { x },
            0x0A => Instruction::WaitKey { x },
            0x15 => Instruction::SetDelay { x },
            0x18 => Instruction::SetSound { x },
            0x1E => Instruction::AddIndex { x },
            0x29 => Instruction::Glyph { x },
            0x33 => Instruction::StoreDecimal { x },
            0x55 => Instruction::StoreRegisters { x },
            0x65 => Instruction::LoadRegisters { x },
            _ => Instruction::Unknown { opcode },
        },
    }
}

} // verus!
