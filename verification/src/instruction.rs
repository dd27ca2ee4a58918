//! The CHIP-8 instruction set.

use vstd::prelude::*;

use crate::registers::Register;

verus! {

/// A decoded CHIP-8 instruction. The comment on each variant gives its opcode
/// pattern: `nnn` is a 12-bit address, `kk` a byte, `x` and `y` register
/// numbers and `n` a nibble.
#[derive(Debug, Clone, Copy, PartialEq, Eq, Structural)]
pub enum Instruction {
    /// 00E0 - CLS: clear the display.
    ClearDisplay,
    /// 00EE - RET: return from a subroutine.
    Return,
    /// 1nnn - JP addr: jump to `nnn`.
    JumpAddr { address: u16 },
    /// 2nnn - CALL addr: push the program counter and jump to `nnn`.
    Call { address: u16 },
    /// 3xkk - SE Vx, byte: skip the next instruction if `Vx == kk`.
    SkipIfRegisterEqualImmediate { vx: Register, value: u8 },
    /// 4xkk - SNE Vx, byte: skip the next instruction if `Vx != kk`.
    SkipIfRegisterNotEqualImmediate { vx: Register, value: u8 },
    /// 5xy0 - SE Vx, Vy: skip the next instruction if `Vx == Vy`.
    SkipIfRegistersEqual { vx: Register, vy: Register },
    /// 6xkk - LD Vx, byte: `Vx = kk`.
    LoadImmediate { vx: Register, value: u8 },
    /// 7xkk - ADD Vx, byte: `Vx = Vx + kk`, wrapping, carry not recorded.
    AddImmediate { vx: Register, value: u8 },
    /// 8xy0 - LD Vx, Vy: `Vx = Vy`.
    SetVxVy { vx: Register, vy: Register },
    /// 8xy1 - OR Vx, Vy: `Vx = Vx | Vy`.
    OrVxVy { vx: Register, vy: Register },
    /// 8xy2 - AND Vx, Vy: `Vx = Vx & Vy`.
    AndVxVy { vx: Register, vy: Register },
    /// 8xy3 - XOR Vx, Vy: `Vx = Vx ^ Vy`.
    XOrVxVy { vx: Register, vy: Register },
    /// 8xy4 - ADD Vx, Vy: `Vx = Vx + Vy` keeping the low 8 bits; `VF` = carry.
    AddVxVy { vx: Register, vy: Register },
    /// 8xy5 - SUB Vx, Vy: `Vx = Vx - Vy` wrapping; `VF` = NOT borrow.
    SubVxVy { vx: Register, vy: Register },
    /// 8xy6 - SHR Vx: `Vx = Vx >> 1`; `VF` = the bit shifted out.
    ShrVx { vx: Register },
    /// 8xy7 - SUBN Vx, Vy: `Vx = Vy - Vx` wrapping; `VF` = NOT borrow.
    SubnVxVy { vx: Register, vy: Register },
    /// 8xyE - SHL Vx: `Vx = Vx << 1`; `VF` = the bit shifted out.
    ShlVx { vx: Register },
    /// 9xy0 - SNE Vx, Vy: skip the next instruction if `Vx != Vy`.
    SkipIfRegistersNotEqual { vx: Register, vy: Register },
    /// Annn - LD I, addr: `I = nnn`.
    LoadIndex { address: u16 },
    /// Bnnn - JP V0, addr: jump to `nnn + V0`.
    JumpV0 { address: u16 },
    /// Cxkk - RND Vx, byte: `Vx = random byte & kk`.
    RandomAndImmediate { vx: Register, value: u8 },
    /// Dxyn - DRW Vx, Vy, nibble: draw the `n`-byte sprite at `I` at
    /// `(Vx, Vy)`; `VF` = collision.
    Draw { vx: Register, vy: Register, n: u8 },
    /// Ex9E - SKP Vx: skip the next instruction if key `Vx` is held down.
    SkipIfKeyPressed { vx: Register },
    /// ExA1 - SKNP Vx: skip the next instruction if key `Vx` is not held down.
    SkipIfKeyNotPressed { vx: Register },
    /// Fx07 - LD Vx, DT: `Vx` = delay timer.
    LoadVxDelayTimer { vx: Register },
    /// Fx0A - LD Vx, K: wait for a key press and store its digit in `Vx`.
    WaitForKeyPress { vx: Register },
    /// Fx15 - LD DT, Vx: delay timer = `Vx`.
    SetDelayTimer { vx: Register },
    /// Fx18 - LD ST, Vx: sound timer = `Vx`.
    SetSoundTimer { vx: Register },
    /// Fx1E - ADD I, Vx: `I = I + Vx`, wrapping at 16 bits.
    AddIndex { vx: Register },
    /// Fx29 - LD F, Vx: `I` = address of the font glyph for digit `Vx`.
    LoadFontSprite { vx: Register },
    /// Fx33 - LD B, Vx: store the decimal digits of `Vx` at `I`, `I+1`, `I+2`.
    StoreBCD { vx: Register },
    /// Fx55 - LD [I], Vx: store `V0`..`Vx` in memory from `I` on.
    StoreRegisters { vx: Register },
    /// Fx65 - LD Vx, [I]: load `V0`..`Vx` from memory from `I` on.
    LoadRegisters { vx: Register },
}

} // verus!
