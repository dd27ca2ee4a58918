//! Decoding of 16-bit opcodes into instructions.

use vstd::prelude::*;

use crate::instruction::Instruction;
use crate::registers::Register;

verus! {

/// Error raised when an opcode is not a CHIP-8 instruction.
#[derive(Debug, Clone, Copy, PartialEq, Eq, Structural)]
pub enum DecodeError {
    UnsupportedInstruction(u16),
}

/// The top nibble of an opcode, which selects the instruction group.
pub open spec fn op_group(op: u16) -> u16 {
    op >> 12u16
}

/// The second nibble, the register `x`.
pub open spec fn op_x(op: u16) -> u8 {
    ((op >> 8u16) & 0xFu16) as u8
}

/// The third nibble, the register `y`.
pub open spec fn op_y(op: u16) -> u8 {
    ((op >> 4u16) & 0xFu16) as u8
}

/// The low nibble `n`.
pub open spec fn op_n(op: u16) -> u8 {
    (op & 0xFu16) as u8
}

/// The low byte `kk`.
pub open spec fn op_kk(op: u16) -> u8 {
    (op & 0xFFu16) as u8
}

/// The low twelve bits `nnn`, an address.
pub open spec fn op_nnn(op: u16) -> u16 {
    op & 0xFFFu16
}

/// The register named by the `x` nibble.
pub open spec fn op_vx(op: u16) -> Register {
    Register::spec_from_index(op_x(op) as int)
}

/// The register named by the `y` nibble.
pub open spec fn op_vy(op: u16) -> Register {
    Register::spec_from_index(op_y(op) as int)
}

/// The instruction that `op` encodes, by the CHIP-8 opcode table, or an
/// error naming `op` when it encodes none.
pub open spec fn spec_decode(op: u16) -> Result<Instruction, DecodeError> {
    let bad = Err(DecodeError::UnsupportedInstruction(op));
    let vx = op_vx(op);
    let vy = op_vy(op);
    let group = op_group(op);
    if group == 0 {
        if op_kk(op) == 0xE0 {
            Ok(Instruction::ClearDisplay)
        } else if op_kk(op) == 0xEE {
            Ok(Instruction::Return)
        } else {
            bad
        }
    } else if group == 1 {
        Ok(Instruction::JumpAddr { address: op_nnn(op) })
    } else if group == 2 {
        Ok(Instruction::Call { address: op_nnn(op) })
    } else if group == 3 {
        Ok(Instruction::SkipIfRegisterEqualImmediate { vx, value: op_kk(op) })
    } else if group == 4 {
        Ok(Instruction::SkipIfRegisterNotEqualImmediate { vx, value: op_kk(op) })
    } else if group == 5 {
        if op_n(op) == 0 {
            Ok(Instruction::SkipIfRegistersEqual { vx, vy })
        } else {
            bad
        }
    } else if group == 6 {
        Ok(Instruction::LoadImmediate { vx, value: op_kk(op) })
    } else if group == 7 {
        Ok(Instruction::AddImmediate { vx, value: op_kk(op) })
    } else if group == 8 {
        let n = op_n(op);
        if n == 0 {
            Ok(Instruction::SetVxVy { vx, vy })
        } else if n == 1 {
            Ok(Instruction::OrVxVy { vx, vy })
        } else if n == 2 {
            Ok(Instruction::AndVxVy { vx, vy })
        } else if n == 3 {
            Ok(Instruction::XOrVxVy { vx, vy })
        } else if n == 4 {
            Ok(Instruction::AddVxVy { vx, vy })
        } else if n == 5 {
            Ok(Instruction::SubVxVy { vx, vy })
        } else if n == 6 {
            Ok(Instruction::ShrVx { vx })
        } else if n == 7 {
            Ok(Instruction::SubnVxVy { vx, vy })
        } else if n == 0xE {
            Ok(Instruction::ShlVx { vx })
        } else {
            bad
        }
    } else if group == 9 {
        if op_n(op) == 0 {
            Ok(Instruction::SkipIfRegistersNotEqual { vx, vy })
        } else {
            bad
        }
    } else if group == 0xA {
        Ok(Instruction::LoadIndex { address: op_nnn(op) })
    } else if group == 0xB {
        Ok(Instruction::JumpV0 { address: op_nnn(op) })
    } else if group == 0xC {
        Ok(Instruction::RandomAndImmediate { vx, value: op_kk(op) })
    } else if group == 0xD {
        Ok(Instruction::Draw { vx, vy, n: op_n(op) })
    } else if group == 0xE {
        if op_kk(op) == 0x9E {
            Ok(Instruction::SkipIfKeyPressed { vx })
        } else if op_kk(op) == 0xA1 {
            Ok(Instruction::SkipIfKeyNotPressed { vx })
        } else {
            bad
        }
    } else {
        let kk = op_kk(op);
        if kk == 0x07 {
            Ok(Instruction::LoadVxDelayTimer { vx })
        } else if kk == 0x0A {
            Ok(Instruction::WaitForKeyPress { vx })
        } else if kk == 0x15 {
            Ok(Instruction::SetDelayTimer { vx })
        } else if kk == 0x18 {
            Ok(Instruction::SetSoundTimer { vx })
        } else if kk == 0x1E {
            Ok(Instruction::AddIndex { vx })
        } else if kk == 0x29 {
            Ok(Instruction::LoadFontSprite { vx })
        } else if kk == 0x33 {
            Ok(Instruction::StoreBCD { vx })
        } else if kk == 0x55 {
            Ok(Instruction::StoreRegisters { vx })
        } else if kk == 0x65 {
            Ok(Instruction::LoadRegisters { vx })
        } else {
            bad
        }
    }
}

/// The nibbles of an opcode are below 16, its group below 16, and its
/// address fits in twelve bits.
pub proof fn lemma_opcode_fields(op: u16)
    ensures
        op_group(op) < 16,
        op_x(op) < 16,
        op_y(op) < 16,
        op_n(op) < 16,
        op_nnn(op) < 0x1000,
{
    assert(op >> 12u16 < 16u16) by (bit_vector);
    assert(((op >> 8u16) & 0xFu16) < 16u16) by (bit_vector);
    assert(((op >> 4u16) & 0xFu16) < 16u16) by (bit_vector);
    assert((op & 0xFu16) < 16u16) by (bit_vector);
    assert((op & 0xFFFu16) < 0x1000u16) by (bit_vector);
}

/// The register named by a nibble, which cannot be refused.
fn nibble_register(nibble: u8) -> (r: Register)
    requires
        nibble < 16,
    ensures
        r == Register::spec_from_index(nibble as int),
{
    match Register::from_index(nibble) {
        Ok(r) => r,
        Err(_) => Register::VF,
    }
}

/// The instruction that `opcode` encodes; an opcode that encodes none is
/// refused with an error naming it.
pub fn decode(opcode: u16) -> (res: Result<Instruction, DecodeError>)
    ensures
        res == spec_decode(opcode),
{
    proof {
        lemma_opcode_fields(opcode);
    }
    let group = opcode >> 12;
    let x = ((opcode >> 8) & 0x0F) as u8;
    let kk = (opcode & 0x00FF) as u8;
    let n = (opcode & 0x000F) as u8;
    let address = opcode & 0x0FFF;
    let vx = nibble_register(x);
    let bad = Err(DecodeError::UnsupportedInstruction(opcode));
    match group {
        0 => {
            if kk == 0xE0 {
                Ok(Instruction::ClearDisplay)
            } else if kk == 0xEE {
                Ok(Instruction::Return)
            } else {
                bad
            }
        },
        1 => Ok(Instruction::JumpAddr { address }),
        2 => Ok(Instruction::Call { address }),
        3 => Ok(Instruction::SkipIfRegisterEqualImmediate { vx, value: kk }),
        4 => Ok(Instruction::SkipIfRegisterNotEqualImmediate { vx, value: kk }),
        5 => {
            let (vx, vy) = match decode_xy_register(opcode) {
                Ok(regs) => regs,
                Err(e) => return Err(e),
            };
            if n == 0 {
                Ok(Instruction::SkipIfRegistersEqual { vx, vy })
            } else {
                bad
            }
        },
        6 => Ok(Instruction::LoadImmediate { vx, value: kk }),
        7 => Ok(Instruction::AddImmediate { vx, value: kk }),
        8 => {
            let (vx, vy) = match decode_xy_register(opcode) {
                Ok(regs) => regs,
                Err(e) => return Err(e),
            };
            match n {
                0 => Ok(Instruction::SetVxVy { vx, vy }),
                1 => Ok(Instruction::OrVxVy { vx, vy }),
                2 => Ok(Instruction::AndVxVy { vx, vy }),
                3 => Ok(Instruction::XOrVxVy { vx, vy }),
                4 => Ok(Instruction::AddVxVy { vx, vy }),
                5 => Ok(Instruction::SubVxVy { vx, vy }),
                6 => Ok(Instruction::ShrVx { vx }),
                7 => Ok(Instruction::SubnVxVy { vx, vy }),
                0xE => Ok(Instruction::ShlVx { vx }),
                _ => bad,
            }
        },
        9 => {
            let (vx, vy) = match decode_xy_register(opcode) {
                Ok(regs) => regs,
                Err(e) => return Err(e),
            };
            if n == 0 {
                Ok(Instruction::SkipIfRegistersNotEqual { vx, vy })
            } else {
                bad
            }
        },
        0xA => Ok(Instruction::LoadIndex { address }),
        0xB => Ok(Instruction::JumpV0 { address }),
        0xC => Ok(Instruction::RandomAndImmediate { vx, value: kk }),
        0xD => {
            let (vx, vy) = match decode_xy_register(opcode) {
                Ok(regs) => regs,
                Err(e) => return Err(e),
            };
            Ok(Instruction::Draw { vx, vy, n })
        },
        0xE => {
            if kk == 0x9E {
                Ok(Instruction::SkipIfKeyPressed { vx })
            } else if kk == 0xA1 {
                Ok(Instruction::SkipIfKeyNotPressed { vx })
            } else {
                bad
            }
        },
        _ => {
            match kk {
                0x07 => Ok(Instruction::LoadVxDelayTimer { vx }),
                0x0A => Ok(Instruction::WaitForKeyPress { vx }),
                0x15 => Ok(Instruction::SetDelayTimer { vx }),
                0x18 => Ok(Instruction::SetSoundTimer { vx }),
                0x1E => Ok(Instruction::AddIndex { vx }),
                0x29 => Ok(Instruction::LoadFontSprite { vx }),
                0x33 => Ok(Instruction::StoreBCD { vx }),
                0x55 => Ok(Instruction::StoreRegisters { vx }),
                0x65 => Ok(Instruction::LoadRegisters { vx }),
                _ => bad,
            }
        },
    }
}

/// The registers named by the `x` and `y` nibbles of `opcode`; every nibble
/// names a register, so this never fails.
pub fn decode_xy_register(opcode: u16) -> (res: Result<(Register, Register), DecodeError>)
    ensures
        res == Ok::<(Register, Register), DecodeError>((op_vx(opcode), op_vy(opcode))),
{
    proof {
        lemma_opcode_fields(opcode);
    }
    let x = ((opcode >> 8) & 0x0F) as u8;
    let y = ((opcode >> 4) & 0x0F) as u8;
    Ok((nibble_register(x), nibble_register(y)))
}

} // verus!

verus! {

/// The register named by the four bits of `op` that start at bit `shift`.
pub open spec fn nibble_reg(op: u16, shift: u16) -> Register {
    Register::spec_from_index(((op >> shift) & 0xFu16) as int)
}

/// The CHIP-8 opcode table, entry by entry: for every opcode, the
/// instruction it stands for, with `x` the bits 8..12, `y` the bits 4..8,
/// `n` the bits 0..4, `kk` the low byte and `nnn` the low twelve bits; every
/// opcode outside the table is refused with an error that names it.
pub proof fn lemma_decode_table(op: u16)
    ensures
        ({
            let g = op >> 12u16;
            let n = op & 0xFu16;
            let kk = op & 0xFFu16;
            let nnn = op & 0xFFFu16;
            let x = nibble_reg(op, 8);
            let y = nibble_reg(op, 4);
            let refused = Err::<Instruction, DecodeError>(DecodeError::UnsupportedInstruction(op));
            &&& g == 0 && kk == 0xE0 ==> spec_decode(op) == Ok::<Instruction, DecodeError>(Instruction::ClearDisplay)
            &&& g == 0 && kk == 0xEE ==> spec_decode(op) == Ok::<Instruction, DecodeError>(Instruction::Return)
            &&& g == 0 && kk != 0xE0 && kk != 0xEE ==> spec_decode(op) == refused
            &&& g == 1 ==> spec_decode(op) == Ok::<Instruction, DecodeError>(Instruction::JumpAddr { address: nnn })
            &&& g == 2 ==> spec_decode(op) == Ok::<Instruction, DecodeError>(Instruction::Call { address: nnn })
            &&& g == 3 ==> spec_decode(op) == Ok::<Instruction, DecodeError>(
                Instruction::SkipIfRegisterEqualImmediate { vx: x, value: kk as u8 })
            &&& g == 4 ==> spec_decode(op) == Ok::<Instruction, DecodeError>(
                Instruction::SkipIfRegisterNotEqualImmediate { vx: x, value: kk as u8 })
            &&& g == 5 && n == 0 ==> spec_decode(op) == Ok::<Instruction, DecodeError>(
                Instruction::SkipIfRegistersEqual { vx: x, vy: y })
            &&& g == 5 && n != 0 ==> spec_decode(op) == refused
            &&& g == 6 ==> spec_decode(op) == Ok::<Instruction, DecodeError>(Instruction::LoadImmediate { vx: x, value: kk as u8 })
            &&& g == 7 ==> spec_decode(op) == Ok::<Instruction, DecodeError>(Instruction::AddImmediate { vx: x, value: kk as u8 })
            &&& g == 8 && n == 0 ==> spec_decode(op) == Ok::<Instruction, DecodeError>(Instruction::SetVxVy { vx: x, vy: y })
            &&& g == 8 && n == 1 ==> spec_decode(op) == Ok::<Instruction, DecodeError>(Instruction::OrVxVy { vx: x, vy: y })
            &&& g == 8 && n == 2 ==> spec_decode(op) == Ok::<Instruction, DecodeError>(Instruction::AndVxVy { vx: x, vy: y })
            &&& g == 8 && n == 3 ==> spec_decode(op) == Ok::<Instruction, DecodeError>(Instruction::XOrVxVy { vx: x, vy: y })
            &&& g == 8 && n == 4 ==> spec_decode(op) == Ok::<Instruction, DecodeError>(Instruction::AddVxVy { vx: x, vy: y })
            &&& g == 8 && n == 5 ==> spec_decode(op) == Ok::<Instruction, DecodeError>(Instruction::SubVxVy { vx: x, vy: y })
            &&& g == 8 && n == 6 ==> spec_decode(op) == Ok::<Instruction, DecodeError>(Instruction::ShrVx { vx: x })
            &&& g == 8 && n == 7 ==> spec_decode(op) == Ok::<Instruction, DecodeError>(Instruction::SubnVxVy { vx: x, vy: y })
            &&& g == 8 && n == 0xE ==> spec_decode(op) == Ok::<Instruction, DecodeError>(Instruction::ShlVx { vx: x })
            &&& g == 8 && 8 <= n <= 0xD ==> spec_decode(op) == refused
            &&& g == 8 && n == 0xF ==> spec_decode(op) == refused
            &&& g == 9 && n == 0 ==> spec_decode(op) == Ok::<Instruction, DecodeError>(
                Instruction::SkipIfRegistersNotEqual { vx: x, vy: y })
            &&& g == 9 && n != 0 ==> spec_decode(op) == refused
            &&& g == 0xA ==> spec_decode(op) == Ok::<Instruction, DecodeError>(Instruction::LoadIndex { address: nnn })
            &&& g == 0xB ==> spec_decode(op) == Ok::<Instruction, DecodeError>(Instruction::JumpV0 { address: nnn })
            &&& g == 0xC ==> spec_decode(op) == Ok::<Instruction, DecodeError>(
                Instruction::RandomAndImmediate { vx: x, value: kk as u8 })
            &&& g == 0xD ==> spec_decode(op) == Ok::<Instruction, DecodeError>(Instruction::Draw { vx: x, vy: y, n: n as u8 })
            &&& g == 0xE && kk == 0x9E ==> spec_decode(op) == Ok::<Instruction, DecodeError>(Instruction::SkipIfKeyPressed { vx: x })
            &&& g == 0xE && kk == 0xA1 ==> spec_decode(op) == Ok::<Instruction, DecodeError>(Instruction::SkipIfKeyNotPressed { vx: x })
            &&& g == 0xE && kk != 0x9E && kk != 0xA1 ==> spec_decode(op) == refused
            &&& g == 0xF && kk == 0x07 ==> spec_decode(op) == Ok::<Instruction, DecodeError>(Instruction::LoadVxDelayTimer { vx: x })
            &&& g == 0xF && kk == 0x0A ==> spec_decode(op) == Ok::<Instruction, DecodeError>(Instruction::WaitForKeyPress { vx: x })
            &&& g == 0xF && kk == 0x15 ==> spec_decode(op) == Ok::<Instruction, DecodeError>(Instruction::SetDelayTimer { vx: x })
            &&& g == 0xF && kk == 0x18 ==> spec_decode(op) == Ok::<Instruction, DecodeError>(Instruction::SetSoundTimer { vx: x })
            &&& g == 0xF && kk == 0x1E ==> spec_decode(op) == Ok::<Instruction, DecodeError>(Instruction::AddIndex { vx: x })
            &&& g == 0xF && kk == 0x29 ==> spec_decode(op) == Ok::<Instruction, DecodeError>(Instruction::LoadFontSprite { vx: x })
            &&& g == 0xF && kk == 0x33 ==> spec_decode(op) == Ok::<Instruction, DecodeError>(Instruction::StoreBCD { vx: x })
            &&& g == 0xF && kk == 0x55 ==> spec_decode(op) == Ok::<Instruction, DecodeError>(Instruction::StoreRegisters { vx: x })
            &&& g == 0xF && kk == 0x65 ==> spec_decode(op) == Ok::<Instruction, DecodeError>(Instruction::LoadRegisters { vx: x })
            &&& g == 0xF && kk != 0x07 && kk != 0x0A && kk != 0x15 && kk != 0x18 && kk != 0x1E && kk != 0x29
                && kk != 0x33 && kk != 0x55 && kk != 0x65 ==> spec_decode(op) == refused
        }),
{
    lemma_opcode_fields(op);
    assert(op & 0xFFu16 < 256u16) by (bit_vector);
    assert((op >> 8u16) & 0xFu16 < 16u16) by (bit_vector);
    assert((op >> 4u16) & 0xFu16 < 16u16) by (bit_vector);
    assert(op & 0xFu16 < 16u16) by (bit_vector);
    assert(op_x(op) as int == ((op >> 8u16) & 0xFu16) as int);
    assert(op_y(op) as int == ((op >> 4u16) & 0xFu16) as int);
    assert(op_vx(op) == nibble_reg(op, 8));
    assert(op_vy(op) == nibble_reg(op, 4));
}

} // verus!
