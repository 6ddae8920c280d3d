//! Instruction decoder: nibble and derived fields of a 16-bit instruction
//! word, and the closed set of opcode variants dispatched by the executor.

use vstd::prelude::*;

verus! {

/// Bits 0-3 of the instruction word.
pub open spec fn spec_first(w: u16) -> u16 {
    w & 0x000F
}

/// Bits 4-7 of the instruction word (the `y` register selector).
pub open spec fn spec_second(w: u16) -> u16 {
    (w & 0x00F0) >> 4u16
}

/// Bits 8-11 of the instruction word (the `x` register selector).
pub open spec fn spec_third(w: u16) -> u16 {
    (w & 0x0F00) >> 8u16
}

/// Bits 12-15 of the instruction word (the opcode group).
pub open spec fn spec_fourth(w: u16) -> u16 {
    (w & 0xF000) >> 12u16
}

/// Bits 0-11 of the instruction word (the address field).
pub open spec fn spec_nnn(w: u16) -> u16 {
    w & 0x0FFF
}

/// Bits 0-7 of the instruction word (the immediate byte).
pub open spec fn spec_kk(w: u16) -> u8 {
    (w & 0x00FF) as u8
}

/// Every nibble field is below 16 and the address field below 4096.
pub proof fn lemma_field_bounds(w: u16)
    ensures
        spec_first(w) < 16,
        spec_second(w) < 16,
        spec_third(w) < 16,
        spec_fourth(w) < 16,
        spec_nnn(w) < 4096,
        spec_kk(w) == (w & 0x00FF),
{
    assert(w & 0x000F < 16 && (w & 0x00F0) >> 4u16 < 16 && (w & 0x0F00) >> 8u16 < 16
        && (w & 0xF000) >> 12u16 < 16 && w & 0x0FFF < 4096 && w & 0x00FF < 256) by (bit_vector);
}

/// Bits 0-3 of the instruction word.
pub fn first(instruction: u16) -> (r: u16)
    ensures
        r == spec_first(instruction),
        r < 16,
{
    proof {
        lemma_field_bounds(instruction);
    }
    instruction & 0x000F
}

/// Bits 4-7 of the instruction word.
pub fn second(instruction: u16) -> (r: u16)
    ensures
        r == spec_second(instruction),
        r < 16,
{
    proof {
        lemma_field_bounds(instruction);
    }
    (instruction & 0x00F0) >> 4u16
}

/// Bits 8-11 of the instruction word.
pub fn third(instruction: u16) -> (r: u16)
    ensures
        r == spec_third(instruction),
        r < 16,
{
    proof {
        lemma_field_bounds(instruction);
    }
    (instruction & 0x0F00) >> 8u16
}

/// Bits 12-15 of the instruction word.
pub fn fourth(instruction: u16) -> (r: u16)
    ensures
        r == spec_fourth(instruction),
        r < 16,
{
    proof {
        lemma_field_bounds(instruction);
    }
    (instruction & 0xF000) >> 12u16
}

/// Bits 0-11 of the instruction word.
pub fn nnn(instruction: u16) -> (r: u16)
    ensures
        r == spec_nnn(instruction),
        r < 4096,
{
    proof {
        lemma_field_bounds(instruction);
    }
    instruction & 0x0FFF
}

/// Bits 0-7 of the instruction word.
pub fn kk(instruction: u16) -> (r: u8)
    ensures
        r == spec_kk(instruction),
{
    proof {
        lemma_field_bounds(instruction);
    }
    (instruction & 0x00FF) as u8
}

/// A decoded instruction.  Register selectors are the raw nibble values
/// (always below 16), addresses are the 12-bit field, immediates the low byte.
#[derive(Debug, Clone, Copy, PartialEq, Eq, Structural)]
pub enum Instr {
    /// 00E0: clear the framebuffer.
    Cls,
    /// 00EE: return from a subroutine.
    Ret,
    /// 1nnn: jump to the address.
    Jp(u16),
    /// 2nnn: call the subroutine at the address.
    Call(u16),
    /// 3xkk: skip the next instruction if Vx == kk.
    SeByte(u16, u8),
    /// 4xkk: skip the next instruction if Vx != kk.
    SneByte(u16, u8),
    /// 5xy0: skip the next instruction if Vx == Vy.
    SeReg(u16, u16),
    /// 6xkk: Vx <- kk.
    LdByte(u16, u8),
    /// 7xkk: Vx <- Vx + kk, wrapping, flags untouched.
    AddByte(u16, u8),
    /// 8xy0: Vx <- Vy.
    LdReg(u16, u16),
    /// 8xy1: Vx <- Vx | Vy.
    Or(u16, u16),
    /// 8xy2: Vx <- Vx & Vy.
    And(u16, u16),
    /// 8xy3: Vx <- Vx ^ Vy.
    Xor(u16, u16),
    /// 8xy4: Vx <- Vx + Vy wrapping; VF <- carry.
    AddReg(u16, u16),
    /// 8xy5: VF <- 1 if Vx > Vy else 0; Vx <- Vx - Vy wrapping.
    Sub(u16, u16),
    /// 8xy6: VF <- low bit of Vx; Vx <- Vx >> 1.
    Shr(u16),
    /// 8xy7: VF <- 0 if Vx >= Vy else 1; Vy <- Vy - Vx wrapping.
    Subn(u16, u16),
    /// 8xyE: VF <- high bit of Vx; Vx <- Vx << 1 wrapping.
    Shl(u16),
    /// 9xy0: skip the next instruction if Vx != Vy.
    SneReg(u16, u16),
    /// Annn: I <- nnn.
    LdI(u16),
    /// Bnnn: jump to nnn + V0.
    JpV0(u16),
    /// Cxkk: Vx <- random byte & kk.
    Rnd(u16, u8),
    /// Dxyn: XOR an n-byte sprite from memory[I..] at (Vx, Vy); VF <- collision.
    Drw(u16, u16, u16),
    /// Any word matching no pattern above.
    Unknown,
}

/// The decoding of a 16-bit instruction word, total over all 65536 inputs.
pub open spec fn spec_decode(w: u16) -> Instr {
    let op = spec_fourth(w);
    let x = spec_third(w);
    let y = spec_second(w);
    let n = spec_first(w);
    let a = spec_nnn(w);
    let k = spec_kk(w);
    if w == 0x00E0 {
        Instr::Cls
    } else if w == 0x00EE {
        Instr::Ret
    } else if op == 0x1 {
        Instr::Jp(a)
    } else if op == 0x2 {
        Instr::Call(a)
    } else if op == 0x3 {
        Instr::SeByte(x, k)
    } else if op == 0x4 {
        Instr::SneByte(x, k)
    } else if op == 0x5 && n == 0x0 {
        Instr::SeReg(x, y)
    } else if op == 0x6 {
        Instr::LdByte(x, k)
    } else if op == 0x7 {
        Instr::AddByte(x, k)
    } else if op == 0x8 && n == 0x0 {
        Instr::LdReg(x, y)
    } else if op == 0x8 && n == 0x1 {
        Instr::Or(x, y)
    } else if op == 0x8 && n == 0x2 {
        Instr::And(x, y)
    } else if op == 0x8 && n == 0x3 {
        Instr::Xor(x, y)
    } else if op == 0x8 && n == 0x4 {
        Instr::AddReg(x, y)
    } else if op == 0x8 && n == 0x5 {
        Instr::Sub(x, y)
    } else if op == 0x8 && n == 0x6 {
        Instr::Shr(x)
    } else if op == 0x8 && n == 0x7 {
        Instr::Subn(x, y)
    } else if op == 0x8 && n == 0xE {
        Instr::Shl(x)
    } else if op == 0x9 && n == 0x0 {
        Instr::SneReg(x, y)
    } else if op == 0xA {
        Instr::LdI(a)
    } else if op == 0xB {
        Instr::JpV0(a)
    } else if op == 0xC {
        Instr::Rnd(x, k)
    } else if op == 0xD {
        Instr::Drw(x, y, n)
    } else {
        Instr::Unknown
    }
}

/// Decode one instruction word into its opcode variant.
pub fn decode(instruction: u16) -> (r: Instr)
    ensures
        r == spec_decode(instruction),
{
    let op = fourth(instruction);
    let x = third(instruction);
    let y = second(instruction);
    let n = first(instruction);
    let a = nnn(instruction);
    let k = kk(instruction);
    if instruction == 0x00E0 {
        Instr::Cls
    } else if instruction == 0x00EE {
        Instr::Ret
    } else if op == 0x1 {
        Instr::Jp(a)
    } else if op == 0x2 {
        Instr::Call(a)
    } else if op == 0x3 {
        Instr::SeByte(x, k)
    } else if op == 0x4 {
        Instr::SneByte(x, k)
    } else if op == 0x5 && n == 0x0 {
        Instr::SeReg(x, y)
    } else if op == 0x6 {
        Instr::LdByte(x, k)
    } else if op == 0x7 {
        Instr::AddByte(x, k)
    } else if op == 0x8 && n == 0x0 {
        Instr::LdReg(x, y)
    } else if op == 0x8 && n == 0x1 {
        Instr::Or(x, y)
    } else if op == 0x8 && n == 0x2 {
        Instr::And(x, y)
    } else if op == 0x8 && n == 0x3 {
        Instr::Xor(x, y)
    } else if op == 0x8 && n == 0x4 {
        Instr::AddReg(x, y)
    } else if op == 0x8 && n == 0x5 {
        Instr::Sub(x, y)
    } else if op == 0x8 && n == 0x6 {
        Instr::Shr(x)
    } else if op == 0x8 && n == 0x7 {
        Instr::Subn(x, y)
    } else if op == 0x8 && n == 0xE {
        Instr::Shl(x)
    } else if op == 0x9 && n == 0x0 {
        Instr::SneReg(x, y)
    } else if op == 0xA {
        Instr::LdI(a)
    } else if op == 0xB {
        Instr::JpV0(a)
    } else if op == 0xC {
        Instr::Rnd(x, k)
    } else if op == 0xD {
        Instr::Drw(x, y, n)
    } else {
        Instr::Unknown
    }
}

} // verus!
