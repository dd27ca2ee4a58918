//! What each instruction does to the machine, stated field by field over
//! the machine state, one law per instruction family.

use vstd::prelude::*;

use crate::chip8::{spec_execute, well_shaped, Chip8Error, MachineState, RAM_SIZE};
use crate::display::{covers, lemma_draw_flips_covered, HEIGHT, WIDTH};
use crate::instruction::Instruction;
use crate::keypad::KeypadError;
use crate::registers::{lemma_register_index_roundtrip, Register};
use crate::stack::{StackError, STACK_SIZE};

verus! {

/// `CLS` turns every pixel dark and changes nothing else.
pub proof fn lemma_clear_effect(s: MachineState, random: u8)
    ensures
        spec_execute(s, Instruction::ClearDisplay, random) is Ok,
        ({
            let t = spec_execute(s, Instruction::ClearDisplay, random)->Ok_0;
            &&& t.pixels.len() == HEIGHT
            &&& forall|y: int| 0 <= y < HEIGHT ==> #[trigger] t.pixels[y].len() == WIDTH
            &&& forall|y: int, x: int| 0 <= y < HEIGHT && 0 <= x < WIDTH ==> !#[trigger] t.pixels[y][x]
            &&& (MachineState { pixels: s.pixels, ..t }) == s
        }),
{
}

/// `JP nnn` sets the program counter to `nnn`; `LD I, nnn` sets the index
/// register to `nnn`; `JP V0, nnn` jumps to `nnn + V0`; nothing else changes.
pub proof fn lemma_jump_and_index_effect(s: MachineState, address: u16, random: u8)
    requires
        well_shaped(s),
    ensures
        spec_execute(s, Instruction::JumpAddr { address }, random) == Ok::<MachineState, Chip8Error>(
            MachineState { pc: address, ..s }),
        spec_execute(s, Instruction::LoadIndex { address }, random) == Ok::<MachineState, Chip8Error>(
            MachineState { index: address, ..s }),
        address + s.registers[0] <= u16::MAX ==> {
            &&& spec_execute(s, Instruction::JumpV0 { address }, random) is Ok
            &&& spec_execute(s, Instruction::JumpV0 { address }, random)->Ok_0.pc == address + s.registers[0]
            &&& (MachineState { pc: s.pc, ..spec_execute(s, Instruction::JumpV0 { address }, random)->Ok_0 }) == s
        },
{
}

/// `CALL nnn` pushes the program counter and jumps to `nnn`, or fails with
/// an overflow on a full stack; `RET` pops the top entry into the program
/// counter, or fails with an underflow on an empty stack.
pub proof fn lemma_call_and_return_effect(s: MachineState, address: u16, random: u8)
    requires
        well_shaped(s),
        s.stack.depth <= STACK_SIZE,
    ensures
        s.stack.depth < STACK_SIZE ==> {
            let t = spec_execute(s, Instruction::Call { address }, random)->Ok_0;
            &&& spec_execute(s, Instruction::Call { address }, random) is Ok
            &&& t.pc == address
            &&& t.stack.depth == s.stack.depth + 1
            &&& t.stack.slots[s.stack.depth as int] == s.pc
            &&& forall|i: int| 0 <= i < STACK_SIZE && i != s.stack.depth ==> #[trigger] t.stack.slots[i] == s.stack.slots[i]
            &&& (MachineState { pc: s.pc, stack: s.stack, ..t }) == s
        },
        s.stack.depth == STACK_SIZE ==> spec_execute(s, Instruction::Call { address }, random)
            == Err::<MachineState, Chip8Error>(Chip8Error::Stack(StackError::Overflow { capacity: 16, attempted: 16 })),
        s.stack.depth > 0 ==> {
            let t = spec_execute(s, Instruction::Return, random)->Ok_0;
            &&& spec_execute(s, Instruction::Return, random) is Ok
            &&& t.pc == s.stack.slots[s.stack.depth - 1]
            &&& t.stack.depth == s.stack.depth - 1
            &&& t.stack.slots == s.stack.slots
            &&& (MachineState { pc: s.pc, stack: s.stack, ..t }) == s
        },
        s.stack.depth == 0 ==> spec_execute(s, Instruction::Return, random)
            == Err::<MachineState, Chip8Error>(Chip8Error::Stack(StackError::Underflow)),
{
}

/// The conditional skips move the program counter forward by 2 exactly when
/// their condition holds, and change nothing else: `SE Vx, kk` when
/// `Vx == kk`, `SNE Vx, kk` when `Vx != kk`, `SE Vx, Vy` when `Vx == Vy`,
/// `SNE Vx, Vy` when `Vx != Vy`.
pub proof fn lemma_skip_effect(s: MachineState, vx: Register, vy: Register, value: u8, random: u8)
    requires
        well_shaped(s),
        s.pc + 2 <= u16::MAX,
    ensures
        ({
            let a = s.registers[vx.spec_index() as int];
            let b = s.registers[vy.spec_index() as int];
            let se_imm = spec_execute(s, Instruction::SkipIfRegisterEqualImmediate { vx, value }, random)->Ok_0;
            let sne_imm = spec_execute(s, Instruction::SkipIfRegisterNotEqualImmediate { vx, value }, random)->Ok_0;
            let se_reg = spec_execute(s, Instruction::SkipIfRegistersEqual { vx, vy }, random)->Ok_0;
            let sne_reg = spec_execute(s, Instruction::SkipIfRegistersNotEqual { vx, vy }, random)->Ok_0;
            &&& spec_execute(s, Instruction::SkipIfRegisterEqualImmediate { vx, value }, random) is Ok
            &&& spec_execute(s, Instruction::SkipIfRegisterNotEqualImmediate { vx, value }, random) is Ok
            &&& spec_execute(s, Instruction::SkipIfRegistersEqual { vx, vy }, random) is Ok
            &&& spec_execute(s, Instruction::SkipIfRegistersNotEqual { vx, vy }, random) is Ok
            &&& (a == value ==> se_imm.pc == s.pc + 2) && (a != value ==> se_imm.pc == s.pc)
            &&& (a != value ==> sne_imm.pc == s.pc + 2) && (a == value ==> sne_imm.pc == s.pc)
            &&& (a == b ==> se_reg.pc == s.pc + 2) && (a != b ==> se_reg.pc == s.pc)
            &&& (a != b ==> sne_reg.pc == s.pc + 2) && (a == b ==> sne_reg.pc == s.pc)
            &&& (MachineState { pc: s.pc, ..se_imm }) == s
            &&& (MachineState { pc: s.pc, ..sne_imm }) == s
            &&& (MachineState { pc: s.pc, ..se_reg }) == s
            &&& (MachineState { pc: s.pc, ..sne_reg }) == s
        }),
{
}

/// `SKP Vx` skips exactly when the key with digit `Vx` is held, `SKNP Vx`
/// exactly when it is not; a `Vx` that is no key's digit is an error that
/// names it, and the machine is left as it was.
pub proof fn lemma_key_skip_effect(s: MachineState, vx: Register, random: u8)
    requires
        well_shaped(s),
        s.pc + 2 <= u16::MAX,
    ensures
        ({
            let a = s.registers[vx.spec_index() as int];
            let skp = spec_execute(s, Instruction::SkipIfKeyPressed { vx }, random);
            let sknp = spec_execute(s, Instruction::SkipIfKeyNotPressed { vx }, random);
            &&& a < 16 ==> {
                &&& skp is Ok && sknp is Ok
                &&& (s.keys[a as int] ==> skp->Ok_0.pc == s.pc + 2 && sknp->Ok_0.pc == s.pc)
                &&& (!s.keys[a as int] ==> skp->Ok_0.pc == s.pc && sknp->Ok_0.pc == s.pc + 2)
                &&& (MachineState { pc: s.pc, ..skp->Ok_0 }) == s
                &&& (MachineState { pc: s.pc, ..sknp->Ok_0 }) == s
            }
            &&& a >= 16 ==> {
                &&& skp == Err::<MachineState, Chip8Error>(Chip8Error::Keypad(KeypadError::InvalidKey(a)))
                &&& sknp == Err::<MachineState, Chip8Error>(Chip8Error::Keypad(KeypadError::InvalidKey(a)))
            }
        }),
{
}

/// The instructions that write one register from a byte: `LD Vx, kk` writes
/// `kk`; `ADD Vx, kk` writes `Vx + kk` modulo 256 (no flag); `LD Vx, Vy`
/// writes `Vy`; `OR`, `AND`, `XOR` write the bitwise combination;
/// `RND Vx, kk` writes the drawn byte masked by `kk`; `LD Vx, DT` writes the
/// delay timer. No other register and nothing else changes.
pub proof fn lemma_register_write_effect(s: MachineState, vx: Register, vy: Register, value: u8, random: u8)
    requires
        well_shaped(s),
    ensures
        ({
            let x = vx.spec_index() as int;
            let a = s.registers[x];
            let b = s.registers[vy.spec_index() as int];
            let writes = |i: Instruction, v: u8|
                spec_execute(s, i, random) == Ok::<MachineState, Chip8Error>(
                    MachineState { registers: s.registers.update(x, v), ..s });
            &&& writes(Instruction::LoadImmediate { vx, value }, value)
            &&& spec_execute(s, Instruction::AddImmediate { vx, value }, random) is Ok
            &&& spec_execute(s, Instruction::AddImmediate { vx, value }, random)->Ok_0.registers[x] as int == (a + value) % 256
            &&& writes(Instruction::AddImmediate { vx, value },
                    spec_execute(s, Instruction::AddImmediate { vx, value }, random)->Ok_0.registers[x])
            &&& writes(Instruction::SetVxVy { vx, vy }, b)
            &&& writes(Instruction::OrVxVy { vx, vy }, a | b)
            &&& writes(Instruction::AndVxVy { vx, vy }, a & b)
            &&& writes(Instruction::XOrVxVy { vx, vy }, a ^ b)
            &&& writes(Instruction::RandomAndImmediate { vx, value }, random & value)
            &&& writes(Instruction::LoadVxDelayTimer { vx }, s.delay)
        }),
{
    lemma_register_index_roundtrip(vx);
    let x = vx.spec_index() as int;
    let t = spec_execute(s, Instruction::AddImmediate { vx, value }, random)->Ok_0;
    assert(t.registers[x] as int == (s.registers[x] + value) % 256);
}

/// The arithmetic instructions with a flag. Whatever `Vx` is, `VF` ends as
/// the flag: the carry of `Vx + Vy`, "no borrow" (`Vx >= Vy`) for
/// `SUB`, "no borrow" (`Vy >= Vx`) for `SUBN`, the bit shifted out for `SHR`
/// and `SHL`. When `Vx` is not `VF`, `Vx` ends as the low 8 bits of the
/// result: `Vx + Vy`, `Vx - Vy`, `Vy - Vx` modulo 256, `Vx / 2`, `2 * Vx`
/// modulo 256. Nothing else changes.
pub proof fn lemma_flag_arithmetic_effect(s: MachineState, vx: Register, vy: Register, random: u8)
    requires
        well_shaped(s),
    ensures
        ({
            let x = vx.spec_index() as int;
            let a = s.registers[x];
            let b = s.registers[vy.spec_index() as int];
            let add = spec_execute(s, Instruction::AddVxVy { vx, vy }, random)->Ok_0;
            let sub = spec_execute(s, Instruction::SubVxVy { vx, vy }, random)->Ok_0;
            let subn = spec_execute(s, Instruction::SubnVxVy { vx, vy }, random)->Ok_0;
            let shr = spec_execute(s, Instruction::ShrVx { vx }, random)->Ok_0;
            let shl = spec_execute(s, Instruction::ShlVx { vx }, random)->Ok_0;
            &&& spec_execute(s, Instruction::AddVxVy { vx, vy }, random) is Ok
            &&& spec_execute(s, Instruction::SubVxVy { vx, vy }, random) is Ok
            &&& spec_execute(s, Instruction::SubnVxVy { vx, vy }, random) is Ok
            &&& spec_execute(s, Instruction::ShrVx { vx }, random) is Ok
            &&& spec_execute(s, Instruction::ShlVx { vx }, random) is Ok
            &&& add.registers[15] == (if a + b > 255 { 1u8 } else { 0u8 })
            &&& sub.registers[15] == (if a >= b { 1u8 } else { 0u8 })
            &&& subn.registers[15] == (if b >= a { 1u8 } else { 0u8 })
            &&& shr.registers[15] == a % 2
            &&& shl.registers[15] == a / 128
            &&& x != 15 ==> {
                &&& add.registers[x] == (a + b) % 256
                &&& sub.registers[x] == (a - b + 256) % 256
                &&& subn.registers[x] == (b - a + 256) % 256
                &&& shr.registers[x] == a / 2
                &&& shl.registers[x] == (2 * a) % 256
            }
            &&& forall|i: int| 0 <= i < 16 && i != x && i != 15 ==> {
                &&& #[trigger] add.registers[i] == s.registers[i]
                &&& sub.registers[i] == s.registers[i]
                &&& subn.registers[i] == s.registers[i]
                &&& shr.registers[i] == s.registers[i]
                &&& shl.registers[i] == s.registers[i]
            }
            &&& (MachineState { registers: s.registers, ..add }) == s
            &&& (MachineState { registers: s.registers, ..sub }) == s
            &&& (MachineState { registers: s.registers, ..subn }) == s
            &&& (MachineState { registers: s.registers, ..shr }) == s
            &&& (MachineState { registers: s.registers, ..shl }) == s
        }),
{
    lemma_register_index_roundtrip(vx);
    let a = s.registers[vx.spec_index() as int];
    assert((a >> 1u8) == a / 2 && (a & 1u8) == a % 2 && (a >> 7u8) == a / 128) by (bit_vector);
    assert((a << 1u8) == (2 * a) % 256) by (bit_vector);
}

/// `LD DT, Vx` and `LD ST, Vx` set the delay and sound timers to `Vx`;
/// `ADD I, Vx` adds `Vx` to the index register modulo 65536; `LD F, Vx` sets
/// the index register to `5 * Vx`, where the glyph for digit `Vx` starts;
/// `LD Vx, K` makes the machine wait for a key into `Vx`. Nothing else
/// changes.
pub proof fn lemma_timer_and_index_effect(s: MachineState, vx: Register, random: u8)
    requires
        well_shaped(s),
    ensures
        ({
            let a = s.registers[vx.spec_index() as int];
            &&& spec_execute(s, Instruction::SetDelayTimer { vx }, random) == Ok::<MachineState, Chip8Error>(
                MachineState { delay: a, ..s })
            &&& spec_execute(s, Instruction::SetSoundTimer { vx }, random) == Ok::<MachineState, Chip8Error>(
                MachineState { sound: a, ..s })
            &&& spec_execute(s, Instruction::AddIndex { vx }, random) is Ok
            &&& spec_execute(s, Instruction::AddIndex { vx }, random)->Ok_0.index == (s.index + a) % 65536
            &&& (MachineState { index: s.index, ..spec_execute(s, Instruction::AddIndex { vx }, random)->Ok_0 }) == s
            &&& spec_execute(s, Instruction::LoadFontSprite { vx }, random) is Ok
            &&& spec_execute(s, Instruction::LoadFontSprite { vx }, random)->Ok_0.index == 5 * a
            &&& (MachineState { index: s.index, ..spec_execute(s, Instruction::LoadFontSprite { vx }, random)->Ok_0 }) == s
            &&& spec_execute(s, Instruction::WaitForKeyPress { vx }, random) == Ok::<MachineState, Chip8Error>(
                MachineState { waiting_for_key: Some(vx), ..s })
        }),
{
}

/// `LD B, Vx` writes the hundreds, tens and ones digits of `Vx` at `I`,
/// `I + 1`, `I + 2` and changes no other byte; `LD [I], Vx` copies `V0`..`Vx`
/// to `I`..`I + x` and changes no other byte; `LD Vx, [I]` copies the bytes
/// at `I`..`I + x` into `V0`..`Vx` and changes no other register.
pub proof fn lemma_memory_effect(s: MachineState, vx: Register, random: u8)
    requires
        well_shaped(s),
    ensures
        ({
            let x = vx.spec_index() as int;
            let i = s.index as int;
            let a = s.registers[x];
            let bcd = spec_execute(s, Instruction::StoreBCD { vx }, random)->Ok_0;
            let store = spec_execute(s, Instruction::StoreRegisters { vx }, random)->Ok_0;
            let load = spec_execute(s, Instruction::LoadRegisters { vx }, random)->Ok_0;
            &&& i + 2 < RAM_SIZE ==> {
                &&& spec_execute(s, Instruction::StoreBCD { vx }, random) is Ok
                &&& bcd.memory[i] == a / 100 && bcd.memory[i + 1] == (a / 10) % 10 && bcd.memory[i + 2] == a % 10
                &&& bcd.memory.len() == RAM_SIZE
                &&& forall|m: int| 0 <= m < RAM_SIZE && !(i <= m <= i + 2) ==> #[trigger] bcd.memory[m] == s.memory[m]
                &&& (MachineState { memory: s.memory, ..bcd }) == s
            }
            &&& i + x < RAM_SIZE ==> {
                &&& spec_execute(s, Instruction::StoreRegisters { vx }, random) is Ok
                &&& store.memory.len() == RAM_SIZE
                &&& forall|r: int| 0 <= r <= x ==> #[trigger] store.memory[i + r] == s.registers[r]
                &&& forall|m: int| 0 <= m < RAM_SIZE && !(i <= m <= i + x) ==> #[trigger] store.memory[m] == s.memory[m]
                &&& (MachineState { memory: s.memory, ..store }) == s
                &&& spec_execute(s, Instruction::LoadRegisters { vx }, random) is Ok
                &&& load.registers.len() == 16
                &&& forall|r: int| 0 <= r <= x ==> #[trigger] load.registers[r] == s.memory[i + r]
                &&& forall|r: int| x < r < 16 ==> #[trigger] load.registers[r] == s.registers[r]
                &&& (MachineState { registers: s.registers, ..load }) == s
            }
        }),
{
    lemma_register_index_roundtrip(vx);
}

/// `DRW Vx, Vy, n` with a sprite of at most 32 rows, read from memory at
/// `I`: a pixel ends lit exactly when it was lit and not covered by a set
/// sprite bit, or dark and covered; `VF` ends 1 exactly when a covered
/// pixel was lit, 0 otherwise; no other register, and nothing else, changes.
pub proof fn lemma_draw_effect(s: MachineState, vx: Register, vy: Register, n: u8, random: u8)
    requires
        well_shaped(s),
        s.index + n <= RAM_SIZE,
        n <= HEIGHT,
    ensures
        spec_execute(s, Instruction::Draw { vx, vy, n }, random) is Ok,
        ({
            let t = spec_execute(s, Instruction::Draw { vx, vy, n }, random)->Ok_0;
            let px0 = s.registers[vx.spec_index() as int] as int;
            let py0 = s.registers[vy.spec_index() as int] as int;
            let sprite = s.memory.subrange(s.index as int, s.index + n);
            let covered = |x: int, y: int| covers(px0, py0, sprite, n as int, x, y);
            &&& forall|x: int, y: int| 0 <= x < WIDTH && 0 <= y < HEIGHT ==>
                #[trigger] t.pixels[y][x] == (s.pixels[y][x] != covered(x, y))
            &&& t.registers[15] == (if exists|x: int, y: int| 0 <= x < WIDTH && 0 <= y < HEIGHT
                    && #[trigger] covers(px0, py0, sprite, n as int, x, y) && s.pixels[y][x] { 1u8 } else { 0u8 })
            &&& forall|r: int| 0 <= r < 15 ==> #[trigger] t.registers[r] == s.registers[r]
            &&& (MachineState { pixels: s.pixels, registers: s.registers, ..t }) == s
        }),
{
    let px0 = s.registers[vx.spec_index() as int] as int;
    let py0 = s.registers[vy.spec_index() as int] as int;
    let sprite = s.memory.subrange(s.index as int, s.index + n);
    lemma_draw_flips_covered(s.pixels, px0, py0, sprite);
}

} // verus!
