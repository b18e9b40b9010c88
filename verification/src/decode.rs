//! Instruction decoding: a 16-bit word is split into its opcode-class nibble,
//! two register-index nibbles, a low nibble, a 12-bit address and an 8-bit
//! immediate, and classified into one of the machine's instruction forms.
//! Decoding is pure and total; a word that matches no form becomes `Unknown`.

use vstd::prelude::*;

verus! {

/// One decoded instruction. `x` and `y` are register indices (always below
/// 16), `kk` an immediate byte, `nnn` a 12-bit address, `n` a nibble.
#[derive(Clone, Copy, PartialEq, Eq, Structural, Debug)]
pub enum Instruction {
    /// 00E0: clear the framebuffer.
    Cls,
    /// 00EE: pop the call stack and resume after the call.
    Ret,
    /// 1nnn: jump.
    Jump { nnn: u16 },
    /// 2nnn: push the current program counter and jump.
    Call { nnn: u16 },
    /// 3xkk: skip the next instruction if `reg[x] == kk`.
    SkipEqImm { x: u8, kk: u8 },
    /// 4xkk: skip the next instruction if `reg[x] != kk`.
    SkipNeImm { x: u8, kk: u8 },
    /// 5xy0: skip the next instruction if `reg[x] == reg[y]`.
    SkipEqReg { x: u8, y: u8 },
    /// 6xkk: `reg[x] = kk`.
    SetImm { x: u8, kk: u8 },
    /// 7xkk: `reg[x] += kk`, wrapping, flag untouched.
    AddImm { x: u8, kk: u8 },
    /// 8xy0: `reg[x] = reg[y]`.
    Copy { x: u8, y: u8 },
    /// 8xy1: `reg[x] |= reg[y]`.
    Or { x: u8, y: u8 },
    /// 8xy2: `reg[x] &= reg[y]`.
    And { x: u8, y: u8 },
    /// 8xy3: `reg[x] ^= reg[y]`.
    Xor { x: u8, y: u8 },
    /// 8xy4: `reg[x] += reg[y]` with the carry in the flag register.
    Add { x: u8, y: u8 },
    /// 8xy5: `reg[x] -= reg[y]` with the no-borrow flag set first.
    Sub { x: u8, y: u8 },
    /// 8xy6: shift `reg[x]` right once, the dropped bit in the flag.
    Shr { x: u8 },
    /// 8xy7: `reg[x] = reg[y] - reg[x]` with the no-borrow flag set first.
    SubRev { x: u8, y: u8 },
    /// 8xyE: shift `reg[x]` left once, the dropped bit in the flag.
    Shl { x: u8 },
    /// 9xy0: skip the next instruction if `reg[x] != reg[y]`.
    SkipNeReg { x: u8, y: u8 },
    /// Annn: `index = nnn`.
    SetIndex { nnn: u16 },
    /// Bnnn: jump to `reg[0] + nnn`.
    JumpPlus { nnn: u16 },
    /// Cxkk: `reg[x] = random byte & kk`.
    Random { x: u8, kk: u8 },
    /// Dxyn: draw an `n`-byte sprite at `(reg[x], reg[y])`.
    Draw { x: u8, y: u8, n: u8 },
    /// Ex9E: skip the next instruction if key `reg[x]` is pressed.
    SkipKey { x: u8 },
    /// ExA1: skip the next instruction if key `reg[x]` is not pressed.
    SkipNoKey { x: u8 },
    /// Fx07: `reg[x] = delay timer`.
    ReadDelay { x: u8 },
    /// Fx0A: block until a key is pressed, store its index in `reg[x]`.
    WaitKey { x: u8 },
    /// Fx15: `delay timer = reg[x]`.
    SetDelay { x: u8 },
    /// Fx18: `sound timer = reg[x]`.
    SetSound { x: u8 },
    /// Fx1E: `index += reg[x]`, wrapping at 16 bits.
    AddIndex { x: u8 },
    /// Fx29: `index = reg[x] * 5`, the glyph base for digit `reg[x]`.
    FontIndex { x: u8 },
    /// Fx33: store the decimal digits of `reg[x]` at `index .. index + 3`.
    StoreBcd { x: u8 },
    /// Fx55: store `reg[0 ..= x]` at `index ..`.
    StoreRegs { x: u8 },
    /// Fx65: load `reg[0 ..= x]` from `index ..`.
    LoadRegs { x: u8 },
    /// A word that matches no instruction form.
    Unknown { word: u16 },
}

/// The opcode class: bits 12 to 15 of the instruction word.
pub open spec fn nib0(w: u16) -> u16 {
    w / 0x1000
}

/// The first register index: bits 8 to 11.
pub open spec fn nib_x(w: u16) -> u8 {
    ((w / 0x100) % 16) as u8
}

/// The second register index: bits 4 to 7.
pub open spec fn nib_y(w: u16) -> u8 {
    ((w / 16) % 16) as u8
}

/// The low nibble: bits 0 to 3.
pub open spec fn nib_n(w: u16) -> u8 {
    (w % 16) as u8
}

/// The immediate byte: bits 0 to 7.
pub open spec fn imm_kk(w: u16) -> u8 {
    (w % 0x100) as u8
}

/// The 12-bit address: bits 0 to 11.
pub open spec fn addr_nnn(w: u16) -> u16 {
    w % 0x1000
}

/// What `decode` returns on each word.
pub open spec fn spec_decode(w: u16) -> Instruction {
    let x = nib_x(w);
    let y = nib_y(w);
    let n = nib_n(w);
    let kk = imm_kk(w);
    let nnn = addr_nnn(w);
    if w == 0x00E0 {
        Instruction::Cls
    } else if w == 0x00EE {
        Instruction::Ret
    } else if nib0(w) == 0x1 {
        Instruction::Jump { nnn }
    } else if nib0(w) == 0x2 {
        Instruction::Call { nnn }
    } else if nib0(w) == 0x3 {
        Instruction::SkipEqImm { x, kk }
    } else if nib0(w) == 0x4 {
        Instruction::SkipNeImm { x, kk }
    } else if nib0(w) == 0x5 && n == 0 {
        Instruction::SkipEqReg { x, y }
    } else if nib0(w) == 0x6 {
        Instruction::SetImm { x, kk }
    } else if nib0(w) == 0x7 {
        Instruction::AddImm { x, kk }
    } else if nib0(w) == 0x8 && n == 0x0 {
        Instruction::Copy { x, y }
    } else if nib0(w) == 0x8 && n == 0x1 {
        Instruction::Or { x, y }
    } else if nib0(w) == 0x8 && n == 0x2 {
        Instruction::And { x, y }
    } else if nib0(w) == 0x8 && n == 0x3 {
        Instruction::Xor { x, y }
    } else if nib0(w) == 0x8 && n == 0x4 {
        Instruction::Add { x, y }
    } else if nib0(w) == 0x8 && n == 0x5 {
        Instruction::Sub { x, y }
    } else if nib0(w) == 0x8 && n == 0x6 {
        Instruction::Shr { x }
    } else if nib0(w) == 0x8 && n == 0x7 {
        Instruction::SubRev { x, y }
    } else if nib0(w) == 0x8 && n == 0xE {
        Instruction::Shl { x }
    } else if nib0(w) == 0x9 && n == 0 {
        Instruction::SkipNeReg { x, y }
    } else if nib0(w) == 0xA {
        Instruction::SetIndex { nnn }
    } else if nib0(w) == 0xB {
        Instruction::JumpPlus { nnn }
    } else if nib0(w) == 0xC {
        Instruction::Random { x, kk }
    } else if nib0(w) == 0xD {
        Instruction::Draw { x, y, n }
    } else if nib0(w) == 0xE && kk == 0x9E {
        Instruction::SkipKey { x }
    } else if nib0(w) == 0xE && kk == 0xA1 {
        Instruction::SkipNoKey { x }
    } else if nib0(w) == 0xF && kk == 0x07 {
        Instruction::ReadDelay { x }
    } else if nib0(w) == 0xF && kk == 0x0A {
        Instruction::WaitKey { x }
    } else if nib0(w) == 0xF && kk == 0x15 {
        Instruction::SetDelay { x }
    } else if nib0(w) == 0xF && kk == 0x18 {
        Instruction::SetSound { x }
    } else if nib0(w) == 0xF && kk == 0x1E {
        Instruction::AddIndex { x }
    } else if nib0(w) == 0xF && kk == 0x29 {
        Instruction::FontIndex { x }
    } else if nib0(w) == 0xF && kk == 0x33 {
        Instruction::StoreBcd { x }
    } else if nib0(w) == 0xF && kk == 0x55 {
        Instruction::StoreRegs { x }
    } else if nib0(w) == 0xF && kk == 0x65 {
        Instruction::LoadRegs { x }
    } else {
        Instruction::Unknown { word: w }
    }
}

/// Every register index sits below 16, every address below 4096, every
/// nibble below 16. `decode` only produces such instructions.
pub open spec fn instr_wf(ins: Instruction) -> bool {
    match ins {
        Instruction::Cls => true,
        Instruction::Ret => true,
        Instruction::Jump { nnn } => nnn < 0x1000,
        Instruction::Call { nnn } => nnn < 0x1000,
        Instruction::SkipEqImm { x, kk } => x < 16,
        Instruction::SkipNeImm { x, kk } => x < 16,
        Instruction::SkipEqReg { x, y } => x < 16 && y < 16,
        Instruction::SetImm { x, kk } => x < 16,
        Instruction::AddImm { x, kk } => x < 16,
        Instruction::Copy { x, y } => x < 16 && y < 16,
        Instruction::Or { x, y } => x < 16 && y < 16,
        Instruction::And { x, y } => x < 16 && y < 16,
        Instruction::Xor { x, y } => x < 16 && y < 16,
        Instruction::Add { x, y } => x < 16 && y < 16,
        Instruction::Sub { x, y } => x < 16 && y < 16,
        Instruction::Shr { x } => x < 16,
        Instruction::SubRev { x, y } => x < 16 && y < 16,
        Instruction::Shl { x } => x < 16,
        Instruction::SkipNeReg { x, y } => x < 16 && y < 16,
        Instruction::SetIndex { nnn } => nnn < 0x1000,
        Instruction::JumpPlus { nnn } => nnn < 0x1000,
        Instruction::Random { x, kk } => x < 16,
        Instruction::Draw { x, y, n } => x < 16 && y < 16 && n < 16,
        Instruction::SkipKey { x } => x < 16,
        Instruction::SkipNoKey { x } => x < 16,
        Instruction::ReadDelay { x } => x < 16,
        Instruction::WaitKey { x } => x < 16,
        Instruction::SetDelay { x } => x < 16,
        Instruction::SetSound { x } => x < 16,
        Instruction::AddIndex { x } => x < 16,
        Instruction::FontIndex { x } => x < 16,
        Instruction::StoreBcd { x } => x < 16,
        Instruction::StoreRegs { x } => x < 16,
        Instruction::LoadRegs { x } => x < 16,
        Instruction::Unknown { word } => true,
    }
}

/// Decoding always yields a well-formed instruction.
pub proof fn lemma_decode_wf(w: u16)
    ensures
        instr_wf(spec_decode(w)),
{
}

/// Split a word into its instruction form. Pure and total: every word
/// decodes, unrecognized ones to `Unknown`.
pub fn decode(w: u16) -> (r: Instruction)
    ensures
        r == spec_decode(w),
        instr_wf(r),
{
    let x: u8 = ((w / 0x100) % 16) as u8;
    let y: u8 = ((w / 16) % 16) as u8;
    let n: u8 = (w % 16) as u8;
    let kk: u8 = (w % 0x100) as u8;
    let nnn: u16 = w % 0x1000;
    if w == 0x00E0 {
        Instruction::Cls
    } else if w == 0x00EE {
        Instruction::Ret
    } else {
        match w / 0x1000 {
            0x1 => Instruction::Jump { nnn },
            0x2 => Instruction::Call { nnn },
            0x3 => Instruction::SkipEqImm { x, kk },
            0x4 => Instruction::SkipNeImm { x, kk },
            0x5 if n == 0 => Instruction::SkipEqReg { x, y },
            0x6 => Instruction::SetImm { x, kk },
            0x7 => Instruction::AddImm { x, kk },
            0x8 => match n {
                0x0 => Instruction::Copy { x, y },
                0x1 => Instruction::Or { x, y },
                0x2 => Instruction::And { x, y },
                0x3 => Instruction::Xor { x, y },
                0x4 => Instruction::Add { x, y },
                0x5 => Instruction::Sub { x, y },
                0x6 => Instruction::Shr { x },
                0x7 => Instruction::SubRev { x, y },
                0xE => Instruction::Shl { x },
                _ => Instruction::Unknown { word: w },
            },
            0x9 if n == 0 => Instruction::SkipNeReg { x, y },
            0xA => Instruction::SetIndex { nnn },
            0xB => Instruction::JumpPlus { nnn },
            0xC => Instruction::Random { x, kk },
            0xD => Instruction::Draw { x, y, n },
            0xE => match kk {
                0x9E => Instruction::SkipKey { x },
                0xA1 => Instruction::SkipNoKey { x },
                _ => Instruction::Unknown { word: w },
            },
            0xF => match kk {
                0x07 => Instruction::ReadDelay { x },
                0x0A => Instruction::WaitKey { x },
                0x15 => Instruction::SetDelay { x },
                0x18 => Instruction::SetSound { x },
                0x1E => Instruction::AddIndex { x },
                0x29 => Instruction::FontIndex { x },
                0x33 => Instruction::StoreBcd { x },
                0x55 => Instruction::StoreRegs { x },
                0x65 => Instruction::LoadRegs { x },
                _ => Instruction::Unknown { word: w },
            },
            _ => Instruction::Unknown { word: w },
        }
    }
}

} // verus!
