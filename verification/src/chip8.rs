//! The CHIP-8 machine: memory, registers, stack, timers, keypad and display,
//! and the fetch/decode/execute cycle over them.

use vstd::prelude::*;

use rand::RngExt;

use crate::decode::{decode, spec_decode, DecodeError};
use crate::display::{blank_screen, draw, is_screen, lemma_draw_keeps_shape, Display, HEIGHT, WIDTH};
use crate::font::{FONT, FONT_SIZE};
use crate::instruction::Instruction;
use crate::keypad::{spec_first_pressed, Key, Keypad, KeypadError};
use crate::registers::{Register, RegisterError, Registers};
use crate::stack::{spec_pop, spec_push, Stack, StackError, StackView, STACK_SIZE};
use crate::timer::Timer;

verus! {

/// Bytes of memory.
pub const RAM_SIZE: usize = 4096;

/// Address at which programs are loaded and execution starts.
pub const PROGRAM_START: usize = 0x200;

/// The largest program that fits in memory.
pub const MAX_ROM_SIZE: usize = 3584;

/// Error raised by a machine operation.
#[derive(Debug, Clone, Copy, PartialEq, Eq, Structural)]
pub enum Chip8Error {
    Register(RegisterError),
    Stack(StackError),
    Decode(DecodeError),
    Keypad(KeypadError),
    /// A program too large for the memory above `PROGRAM_START`.
    RomTooLarge { size: usize, capacity: usize },
}

impl From<RegisterError> for Chip8Error {
    fn from(error: RegisterError) -> (e: Self) {
        Chip8Error::Register(error)
    }
}

impl vstd::std_specs::convert::FromSpecImpl<RegisterError> for Chip8Error {
    open spec fn obeys_from_spec() -> bool {
        true
    }

    open spec fn from_spec(error: RegisterError) -> Chip8Error {
        Chip8Error::Register(error)
    }
}

impl From<StackError> for Chip8Error {
    fn from(error: StackError) -> (e: Self) {
        Chip8Error::Stack(error)
    }
}

impl vstd::std_specs::convert::FromSpecImpl<StackError> for Chip8Error {
    open spec fn obeys_from_spec() -> bool {
        true
    }

    open spec fn from_spec(error: StackError) -> Chip8Error {
        Chip8Error::Stack(error)
    }
}

impl From<DecodeError> for Chip8Error {
    fn from(error: DecodeError) -> (e: Self) {
        Chip8Error::Decode(error)
    }
}

impl vstd::std_specs::convert::FromSpecImpl<DecodeError> for Chip8Error {
    open spec fn obeys_from_spec() -> bool {
        true
    }

    open spec fn from_spec(error: DecodeError) -> Chip8Error {
        Chip8Error::Decode(error)
    }
}

impl From<KeypadError> for Chip8Error {
    fn from(error: KeypadError) -> (e: Self) {
        Chip8Error::Keypad(error)
    }
}

impl vstd::std_specs::convert::FromSpecImpl<KeypadError> for Chip8Error {
    open spec fn obeys_from_spec() -> bool {
        true
    }

    open spec fn from_spec(error: KeypadError) -> Chip8Error {
        Chip8Error::Keypad(error)
    }
}

/// The state of a machine, as plain values.
pub struct MachineState {
    /// The 4096 bytes of memory.
    pub memory: Seq<u8>,
    /// The sixteen registers, `V0` first.
    pub registers: Seq<u8>,
    /// The return stack.
    pub stack: StackView,
    /// The display, row by row.
    pub pixels: Seq<Seq<bool>>,
    /// Which keys are held down, by digit.
    pub keys: Seq<bool>,
    pub delay: u8,
    pub sound: u8,
    /// The register that awaits a key press, if the machine is waiting.
    pub waiting_for_key: Option<Register>,
    pub pc: u16,
    pub index: u16,
}

/// A CHIP-8 machine.
pub struct Chip8 {
    pub memory: [u8; RAM_SIZE],
    pub registers: Registers,
    pub stack: Stack,
    pub display: Display,
    pub keypad: Keypad,
    pub delay_timer: Timer,
    pub sound_timer: Timer,
    pub waiting_for_key: Option<Register>,
    pub pc: u16,
    pub index: u16,
}

impl View for Chip8 {
    type V = MachineState;

    open spec fn view(&self) -> MachineState {
        MachineState {
            memory: self.memory@,
            registers: self.registers@,
            stack: self.stack@,
            pixels: self.display@,
            keys: self.keypad@,
            delay: self.delay_timer@,
            sound: self.sound_timer@,
            waiting_for_key: self.waiting_for_key,
            pc: self.pc,
            index: self.index,
        }
    }
}

/// The value of register `r`.
pub open spec fn reg(s: MachineState, r: Register) -> u8 {
    s.registers[r.spec_index() as int]
}

/// The state with register `r` set to `v`.
pub open spec fn with_reg(s: MachineState, r: Register, v: u8) -> MachineState {
    MachineState { registers: s.registers.update(r.spec_index() as int, v), ..s }
}

/// The state with the program counter moved past the next instruction when
/// `c` holds.
pub open spec fn skip_if(s: MachineState, c: bool) -> MachineState {
    if c {
        MachineState { pc: (s.pc + 2) as u16, ..s }
    } else {
        s
    }
}

/// `1` for true, `0` for false.
pub open spec fn flag(b: bool) -> u8 {
    if b {
        1
    } else {
        0
    }
}

/// The memory of a freshly built machine: the font at the bottom, zero
/// elsewhere.
pub open spec fn initial_memory() -> Seq<u8> {
    Seq::new(RAM_SIZE as nat, |a: int| if a < FONT_SIZE { FONT@[a] } else { 0u8 })
}

/// The state of a freshly built machine.
pub open spec fn initial_state() -> MachineState {
    MachineState {
        memory: initial_memory(),
        registers: Seq::new(16, |i: int| 0u8),
        stack: StackView { slots: Seq::new(STACK_SIZE as nat, |i: int| 0u16), depth: 0 },
        pixels: blank_screen(),
        keys: Seq::new(16, |i: int| false),
        delay: 0,
        sound: 0,
        waiting_for_key: None,
        pc: PROGRAM_START as u16,
        index: 0,
    }
}

/// The big-endian word at the program counter.
pub open spec fn opcode_at_pc(s: MachineState) -> u16 {
    (s.memory[s.pc as int] * 256 + s.memory[s.pc + 1]) as u16
}

/// The state after the program counter moves past the word it points at.
pub open spec fn after_fetch(s: MachineState) -> MachineState {
    MachineState { pc: (s.pc + 2) as u16, ..s }
}

/// Whether executing `instr` in `s` stays within memory and within the range
/// of the 16-bit program counter, so that it runs to an outcome.
pub open spec fn can_execute(s: MachineState, instr: Instruction) -> bool {
    let can_skip = s.pc + 2 <= u16::MAX;
    match instr {
        Instruction::SkipIfRegisterEqualImmediate { vx, value } => value == reg(s, vx) ==> can_skip,
        Instruction::SkipIfRegisterNotEqualImmediate { vx, value } => value != reg(s, vx) ==> can_skip,
        Instruction::SkipIfRegistersEqual { vx, vy } => reg(s, vx) == reg(s, vy) ==> can_skip,
        Instruction::SkipIfRegistersNotEqual { vx, vy } => reg(s, vx) != reg(s, vy) ==> can_skip,
        Instruction::SkipIfKeyPressed { vx } => reg(s, vx) < 16 && s.keys[reg(s, vx) as int] ==> can_skip,
        Instruction::SkipIfKeyNotPressed { vx } => reg(s, vx) < 16 && !s.keys[reg(s, vx) as int] ==> can_skip,
        Instruction::JumpV0 { address } => address + reg(s, Register::V0) <= u16::MAX,
        Instruction::Draw { vx, vy, n } => s.index + n <= RAM_SIZE,
        Instruction::StoreBCD { vx } => s.index + 2 < RAM_SIZE,
        Instruction::StoreRegisters { vx } => s.index + vx.spec_index() < RAM_SIZE,
        Instruction::LoadRegisters { vx } => s.index + vx.spec_index() < RAM_SIZE,
        _ => true,
    }
}

/// The outcome of executing `instr` in `s`: the next state, or the error that
/// stops it (the state is then left as it was). `random` is the byte drawn
/// for `RandomAndImmediate`; no other instruction reads it.
pub open spec fn spec_execute(s: MachineState, instr: Instruction, random: u8) -> Result<MachineState, Chip8Error> {
    match instr {
        Instruction::Return => match spec_pop(s.stack) {
            (Ok(address), stack) => Ok(MachineState { pc: address, stack, ..s }),
            (Err(e), _) => Err(Chip8Error::Stack(e)),
        },
        Instruction::ClearDisplay => Ok(MachineState { pixels: blank_screen(), ..s }),
        Instruction::JumpAddr { address } => Ok(MachineState { pc: address, ..s }),
        Instruction::Call { address } => match spec_push(s.stack, s.pc) {
            (Ok(()), stack) => Ok(MachineState { pc: address, stack, ..s }),
            (Err(e), _) => Err(Chip8Error::Stack(e)),
        },
        Instruction::SkipIfRegisterEqualImmediate { vx, value } => Ok(skip_if(s, value == reg(s, vx))),
        Instruction::SkipIfRegisterNotEqualImmediate { vx, value } => Ok(skip_if(s, value != reg(s, vx))),
        Instruction::SkipIfRegistersEqual { vx, vy } => Ok(skip_if(s, reg(s, vx) == reg(s, vy))),
        Instruction::LoadImmediate { vx, value } => Ok(with_reg(s, vx, value)),
        Instruction::AddImmediate { vx, value } => Ok(with_reg(s, vx, ((reg(s, vx) + value) % 256) as u8)),
        Instruction::SetVxVy { vx, vy } => Ok(with_reg(s, vx, reg(s, vy))),
        Instruction::OrVxVy { vx, vy } => Ok(with_reg(s, vx, reg(s, vx) | reg(s, vy))),
        Instruction::AndVxVy { vx, vy } => Ok(with_reg(s, vx, reg(s, vx) & reg(s, vy))),
        Instruction::XOrVxVy { vx, vy } => Ok(with_reg(s, vx, reg(s, vx) ^ reg(s, vy))),
        Instruction::AddVxVy { vx, vy } => {
            let sum = reg(s, vx) + reg(s, vy);
            Ok(with_reg(with_reg(s, vx, (sum % 256) as u8), Register::VF, flag(sum > 255)))
        },
        Instruction::SubVxVy { vx, vy } => {
            let (x, y) = (reg(s, vx), reg(s, vy));
            Ok(with_reg(with_reg(s, vx, ((x - y + 256) % 256) as u8), Register::VF, flag(x >= y)))
        },
        Instruction::ShrVx { vx } => {
            let x = reg(s, vx);
            Ok(with_reg(with_reg(s, vx, x >> 1u8), Register::VF, x & 1u8))
        },
        Instruction::SubnVxVy { vx, vy } => {
            let (x, y) = (reg(s, vx), reg(s, vy));
            Ok(with_reg(with_reg(s, vx, ((y - x + 256) % 256) as u8), Register::VF, flag(y >= x)))
        },
        Instruction::ShlVx { vx } => {
            let x = reg(s, vx);
            Ok(with_reg(with_reg(s, vx, x << 1u8), Register::VF, x >> 7u8))
        },
        Instruction::SkipIfRegistersNotEqual { vx, vy } => Ok(skip_if(s, reg(s, vx) != reg(s, vy))),
        Instruction::LoadIndex { address } => Ok(MachineState { index: address, ..s }),
        Instruction::JumpV0 { address } => Ok(MachineState { pc: (address + reg(s, Register::V0)) as u16, ..s }),
        Instruction::RandomAndImmediate { vx, value } => Ok(with_reg(s, vx, random & value)),
        Instruction::Draw { vx, vy, n } => {
            let sprite = s.memory.subrange(s.index as int, s.index + n);
            let (pixels, collision) = draw(s.pixels, reg(s, vx) as int, reg(s, vy) as int, sprite);
            Ok(with_reg(MachineState { pixels, ..s }, Register::VF, flag(collision)))
        },
        Instruction::SkipIfKeyPressed { vx } => {
            let x = reg(s, vx);
            if x < 16 {
                Ok(skip_if(s, s.keys[x as int]))
            } else {
                Err(Chip8Error::Keypad(KeypadError::InvalidKey(x)))
            }
        },
        Instruction::SkipIfKeyNotPressed { vx } => {
            let x = reg(s, vx);
            if x < 16 {
                Ok(skip_if(s, !s.keys[x as int]))
            } else {
                Err(Chip8Error::Keypad(KeypadError::InvalidKey(x)))
            }
        },
        Instruction::LoadVxDelayTimer { vx } => Ok(with_reg(s, vx, s.delay)),
        Instruction::WaitForKeyPress { vx } => Ok(MachineState { waiting_for_key: Some(vx), ..s }),
        Instruction::SetDelayTimer { vx } => Ok(MachineState { delay: reg(s, vx), ..s }),
        Instruction::SetSoundTimer { vx } => Ok(MachineState { sound: reg(s, vx), ..s }),
        Instruction::AddIndex { vx } => Ok(MachineState { index: ((s.index + reg(s, vx)) % 65536) as u16, ..s }),
        Instruction::LoadFontSprite { vx } => Ok(MachineState { index: (reg(s, vx) * 5) as u16, ..s }),
        Instruction::StoreBCD { vx } => {
            let x = reg(s, vx);
            let i = s.index as int;
            Ok(MachineState {
                memory: s.memory.update(i, x / 100).update(i + 1, (x / 10) % 10).update(i + 2, x % 10),
                ..s
            })
        },
        Instruction::StoreRegisters { vx } => {
            let last = vx.spec_index() as int;
            let i = s.index as int;
            Ok(MachineState {
                memory: Seq::new(s.memory.len(), |a: int| if i <= a <= i + last { s.registers[a - i] } else { s.memory[a] }),
                ..s
            })
        },
        Instruction::LoadRegisters { vx } => {
            let last = vx.spec_index() as int;
            let i = s.index as int;
            Ok(MachineState {
                registers: Seq::new(s.registers.len(), |r: int| if r <= last { s.memory[i + r] } else { s.registers[r] }),
                ..s
            })
        },
    }
}

/// Whether the state `post` and result `res` are what executing `instr` in
/// `pre` gives, with `random` as the drawn byte.
pub open spec fn executes_to(pre: MachineState, instr: Instruction, random: u8, post: MachineState, res: Result<(), Chip8Error>) -> bool {
    match spec_execute(pre, instr, random) {
        Ok(next) => res == Ok::<(), Chip8Error>(()) && post == next,
        Err(e) => res == Err::<(), Chip8Error>(e) && post == pre,
    }
}

/// Whether one machine cycle from `s` runs to an outcome: a waiting machine
/// always does; otherwise the opcode must lie inside memory and its
/// instruction, if it decodes, must be executable after the fetch.
pub open spec fn tick_defined(s: MachineState) -> bool {
    match s.waiting_for_key {
        Some(_) => true,
        None => {
            &&& s.pc + 1 < RAM_SIZE
            &&& (spec_decode(opcode_at_pc(s)) matches Ok(i) ==> can_execute(after_fetch(s), i))
        },
    }
}

/// The state and result of one machine cycle from `s`, with `random` as the
/// byte drawn if the cycle executes `RandomAndImmediate`. A machine waiting
/// for a key stores the lowest held key's digit and stops waiting, or stays
/// as it is when no key is held; any other machine fetches, decodes and
/// executes one instruction.
pub open spec fn spec_tick(s: MachineState, random: u8) -> (MachineState, Result<(), Chip8Error>) {
    match s.waiting_for_key {
        Some(vx) => match spec_first_pressed(s.keys) {
            Some(k) => (MachineState { waiting_for_key: None, ..with_reg(s, vx, k.spec_index() as u8) }, Ok(())),
            None => (s, Ok(())),
        },
        None => {
            let fetched = after_fetch(s);
            match spec_decode(opcode_at_pc(s)) {
                Err(e) => (fetched, Err(Chip8Error::Decode(e))),
                Ok(i) => match spec_execute(fetched, i, random) {
                    Ok(next) => (next, Ok(())),
                    Err(e) => (fetched, Err(e)),
                },
            }
        },
    }
}

/// The timers after one 60 Hz tick: each counts down by one, stopping at
/// zero.
pub open spec fn spec_tick_timers(s: MachineState) -> MachineState {
    MachineState {
        delay: if s.delay > 0 { (s.delay - 1) as u8 } else { 0 },
        sound: if s.sound > 0 { (s.sound - 1) as u8 } else { 0 },
        ..s
    }
}

/// Draws a byte from `rand`'s thread-local generator: `rand::rng()`, then
/// `RngExt::random::<u8>` on it. Nothing is stated of the byte: every value
/// may come back. `rand::rng` panics if the operating system's entropy source
/// fails when the thread's generator is first seeded; that is not stated
/// either.
#[verifier::external_body]
fn random_byte() -> u8 {
    let mut rng = rand::rng();
    rng.random()
}

impl Chip8 {
    /// A machine with the font loaded at address 0, everything else cleared,
    /// and the program counter at `PROGRAM_START`.
    pub fn new() -> (c: Self)
        ensures
            c@ == initial_state(),
    {
        let mut chip8 = Chip8 {
            memory: [0; RAM_SIZE],
            registers: Registers::new(),
            stack: Stack::new(),
            display: Display::new(),
            keypad: Keypad::new(),
            delay_timer: Timer::new(),
            sound_timer: Timer::new(),
            waiting_for_key: None,
            pc: 0x200,
            index: 0,
        };
        let mut i: usize = 0;
        while i < FONT_SIZE
            invariant
                i <= FONT_SIZE,
                chip8.memory@.len() == RAM_SIZE,
                forall|a: int| 0 <= a < i ==> chip8.memory@[a] == FONT@[a],
                forall|a: int| i <= a < RAM_SIZE ==> chip8.memory@[a] == 0,
                chip8.registers@ == Seq::new(16, |i: int| 0u8),
                chip8.stack@ == (StackView { slots: Seq::new(STACK_SIZE as nat, |i: int| 0u16), depth: 0 }),
                chip8.display@ == blank_screen(),
                chip8.keypad@ == Seq::new(16, |i: int| false),
                chip8.delay_timer@ == 0,
                chip8.sound_timer@ == 0,
                chip8.waiting_for_key is None,
                chip8.pc == 0x200,
                chip8.index == 0,
            decreases FONT_SIZE - i,
        {
            chip8.memory[i] = FONT[i];
            i = i + 1;
        }
        assert(chip8.memory@ =~= initial_memory());
        chip8
    }

    /// Copies `rom` into memory from `PROGRAM_START` on. A program larger
    /// than the memory above `PROGRAM_START` is refused and nothing is
    /// written.
    pub fn load_rom(&mut self, rom: &[u8]) -> (res: Result<(), Chip8Error>)
        ensures
            rom@.len() <= MAX_ROM_SIZE ==> {
                &&& res is Ok
                &&& final(self)@ == (MachineState {
                    memory: Seq::new(RAM_SIZE as nat, |a: int|
                        if PROGRAM_START <= a < PROGRAM_START + rom@.len() { rom@[a - PROGRAM_START] } else { old(self)@.memory[a] }),
                    ..old(self)@
                })
            },
            rom@.len() > MAX_ROM_SIZE ==> {
                &&& res == Err::<(), Chip8Error>((Chip8Error::RomTooLarge { size: rom@.len() as usize, capacity: MAX_ROM_SIZE }))
                &&& final(self)@ == old(self)@
            },
    {
        if rom.len() > MAX_ROM_SIZE {
            return Err(Chip8Error::RomTooLarge { size: rom.len(), capacity: MAX_ROM_SIZE });
        }
        let ghost old_memory = self.memory@;
        let mut i: usize = 0;
        while i < rom.len()
            invariant
                i <= rom@.len() <= MAX_ROM_SIZE,
                self.memory@.len() == RAM_SIZE,
                self@ == (MachineState { memory: self.memory@, ..old(self)@ }),
                old_memory == old(self)@.memory,
                forall|a: int| 0 <= a < RAM_SIZE ==> self.memory@[a] ==
                    if PROGRAM_START <= a < PROGRAM_START + i { rom@[a - PROGRAM_START] } else { old_memory[a] },
            decreases rom@.len() - i,
        {
            self.memory[PROGRAM_START + i] = rom[i];
            i = i + 1;
        }
        assert(self.memory@ =~= Seq::new(RAM_SIZE as nat, |a: int|
            if PROGRAM_START <= a < PROGRAM_START + rom@.len() { rom@[a - PROGRAM_START] } else { old_memory[a] }));
        Ok(())
    }

    /// Reads the big-endian opcode at the program counter and moves the
    /// program counter past it.
    pub fn fetch(&mut self) -> (op: u16)
        requires
            old(self).pc + 1 < RAM_SIZE,
        ensures
            op == opcode_at_pc(old(self)@),
            final(self)@ == after_fetch(old(self)@),
    {
        let high_byte = self.memory[self.pc as usize] as u16;
        let low_byte = self.memory[(self.pc + 1) as usize] as u16;
        let op = (high_byte << 8) | low_byte;
        assert(op == high_byte * 256 + low_byte) by (bit_vector)
            requires
                high_byte < 256,
                low_byte < 256,
                op == (high_byte << 8) | low_byte;
        self.pc = self.pc + 2;
        op
    }

    /// Executes `instruction`, using `random` as the byte drawn by
    /// `RandomAndImmediate`. On an error the machine is left as it was.
    pub fn execute_with(&mut self, instruction: Instruction, random: u8) -> (res: Result<(), Chip8Error>)
        requires
            can_execute(old(self)@, instruction),
        ensures
            executes_to(old(self)@, instruction, random, final(self)@, res),
    {
        match instruction {
            Instruction::Return => self.execute_control(instruction, random),
            Instruction::ClearDisplay => self.execute_control(instruction, random),
            Instruction::JumpAddr { .. } => self.execute_control(instruction, random),
            Instruction::Call { .. } => self.execute_control(instruction, random),
            Instruction::JumpV0 { .. } => self.execute_control(instruction, random),
            Instruction::LoadIndex { .. } => self.execute_control(instruction, random),
            Instruction::WaitForKeyPress { .. } => self.execute_control(instruction, random),
            Instruction::SkipIfRegisterEqualImmediate { .. } => self.execute_skip(instruction, random),
            Instruction::SkipIfRegisterNotEqualImmediate { .. } => self.execute_skip(instruction, random),
            Instruction::SkipIfRegistersEqual { .. } => self.execute_skip(instruction, random),
            Instruction::SkipIfRegistersNotEqual { .. } => self.execute_skip(instruction, random),
            Instruction::SkipIfKeyPressed { .. } => self.execute_skip(instruction, random),
            Instruction::SkipIfKeyNotPressed { .. } => self.execute_skip(instruction, random),
            Instruction::LoadImmediate { .. } => self.execute_load(instruction, random),
            Instruction::AddImmediate { .. } => self.execute_load(instruction, random),
            Instruction::SetVxVy { .. } => self.execute_load(instruction, random),
            Instruction::OrVxVy { .. } => self.execute_bitwise(instruction, random),
            Instruction::AndVxVy { .. } => self.execute_bitwise(instruction, random),
            Instruction::XOrVxVy { .. } => self.execute_bitwise(instruction, random),
            Instruction::AddVxVy { vx, vy } => self.add_with_carry(vx, vy),
            Instruction::SubVxVy { vx, vy } => self.subtract(vx, vy),
            Instruction::ShrVx { vx } => self.shift_right(vx),
            Instruction::SubnVxVy { vx, vy } => self.subtract_reversed(vx, vy),
            Instruction::ShlVx { vx } => self.shift_left(vx),
            Instruction::RandomAndImmediate { .. } => self.execute_load(instruction, random),
            Instruction::Draw { .. } => self.execute_memory(instruction, random),
            Instruction::StoreBCD { .. } => self.execute_memory(instruction, random),
            Instruction::StoreRegisters { .. } => self.execute_memory(instruction, random),
            Instruction::LoadRegisters { .. } => self.execute_memory(instruction, random),
            Instruction::LoadFontSprite { .. } => self.execute_memory(instruction, random),
            Instruction::AddIndex { .. } => self.execute_memory(instruction, random),
            Instruction::LoadVxDelayTimer { .. } => self.execute_timers(instruction, random),
            Instruction::SetDelayTimer { .. } => self.execute_timers(instruction, random),
            Instruction::SetSoundTimer { .. } => self.execute_timers(instruction, random),
        }
    }

    /// Executes `instruction`. A byte is drawn from the random source only
    /// for `RandomAndImmediate`. On an error the machine is left as it was.
    pub fn execute(&mut self, instruction: Instruction) -> (res: Result<(), Chip8Error>)
        requires
            can_execute(old(self)@, instruction),
        ensures
            exists|random: u8| executes_to(old(self)@, instruction, random, final(self)@, res),
            !(instruction is RandomAndImmediate) ==> executes_to(old(self)@, instruction, 0, final(self)@, res),
    {
        let random = match instruction {
            Instruction::RandomAndImmediate { .. } => random_byte(),
            _ => 0,
        };
        self.execute_with(instruction, random)
    }

    /// Runs one machine cycle: a machine waiting for a key press takes the
    /// lowest held key, if any; otherwise one instruction is fetched, decoded
    /// and executed.
    pub fn tick(&mut self) -> (res: Result<(), Chip8Error>)
        requires
            tick_defined(old(self)@),
        ensures
            exists|random: u8| (final(self)@, res) == spec_tick(old(self)@, random),
            !(old(self)@.waiting_for_key is None && draws_random(opcode_at_pc(old(self)@)))
                ==> (final(self)@, res) == spec_tick(old(self)@, 0),
    {
        proof {
            self.registers.lemma_len();
        }
        if let Some(vx) = self.waiting_for_key {
            if let Some(key) = self.keypad.pressed_key() {
                self.registers.set(vx, key.index() as u8);
                self.waiting_for_key = None;
            }
            proof {
                assert((self@, Ok::<(), Chip8Error>(())) == spec_tick(old(self)@, 0));
            }
            return Ok(());
        }
        let opcode = self.fetch();
        let instruction = match decode(opcode) {
            Ok(i) => i,
            Err(e) => {
                proof {
                    assert((self@, Err::<(), Chip8Error>(Chip8Error::Decode(e))) == spec_tick(old(self)@, 0));
                }
                return Err(Chip8Error::Decode(e));
            },
        };
        let res = self.execute(instruction);
        proof {
            let random = choose|random: u8| executes_to(after_fetch(old(self)@), instruction, random, self@, res);
            assert((self@, res) == spec_tick(old(self)@, random));
            if !draws_random(opcode_at_pc(old(self)@)) {
                lemma_tick_ignores_random(old(self)@, random, 0);
            }
        }
        res
    }

    /// Whether `instruction` can be executed once the program counter is
    /// `pc`: the executable form of `can_execute`.
    fn fits(&self, pc: u16, instruction: Instruction) -> (b: bool)
        ensures
            b == can_execute(MachineState { pc, ..self@ }, instruction),
    {
        proof {
            self.registers.lemma_len();
            self.keypad.lemma_len();
        }
        let can_skip = pc <= u16::MAX - 2;
        let index = self.index as usize;
        match instruction {
            Instruction::SkipIfRegisterEqualImmediate { vx, value } => value != self.registers.get(vx) || can_skip,
            Instruction::SkipIfRegisterNotEqualImmediate { vx, value } => value == self.registers.get(vx) || can_skip,
            Instruction::SkipIfRegistersEqual { vx, vy } => self.registers.get(vx) != self.registers.get(vy) || can_skip,
            Instruction::SkipIfRegistersNotEqual { vx, vy } => self.registers.get(vx) == self.registers.get(vy) || can_skip,
            Instruction::SkipIfKeyPressed { vx } => {
                let x = self.registers.get(vx);
                match Key::try_from(x) {
                    Ok(key) => !self.keypad.is_pressed(key) || can_skip,
                    Err(_) => true,
                }
            },
            Instruction::SkipIfKeyNotPressed { vx } => {
                let x = self.registers.get(vx);
                match Key::try_from(x) {
                    Ok(key) => self.keypad.is_pressed(key) || can_skip,
                    Err(_) => true,
                }
            },
            Instruction::JumpV0 { address } => address as u32 + self.registers.get(Register::V0) as u32 <= u16::MAX as u32,
            Instruction::Draw { n, .. } => index + (n as usize) <= RAM_SIZE,
            Instruction::StoreBCD { .. } => index + 2 < RAM_SIZE,
            Instruction::StoreRegisters { vx } => index + vx.index() < RAM_SIZE,
            Instruction::LoadRegisters { vx } => index + vx.index() < RAM_SIZE,
            _ => true,
        }
    }

    /// Whether `tick` may be called: the executable form of `tick_defined`.
    pub fn can_tick(&self) -> (b: bool)
        ensures
            b == tick_defined(self@),
    {
        if self.waiting_for_key.is_some() {
            return true;
        }
        if self.pc as usize + 1 >= RAM_SIZE {
            return false;
        }
        let high_byte = self.memory[self.pc as usize] as u16;
        let low_byte = self.memory[(self.pc + 1) as usize] as u16;
        let op = (high_byte << 8) | low_byte;
        assert(op == high_byte * 256 + low_byte) by (bit_vector)
            requires
                high_byte < 256,
                low_byte < 256,
                op == (high_byte << 8) | low_byte;
        match decode(op) {
            Ok(instruction) => self.fits(self.pc + 2, instruction),
            Err(_) => true,
        }
    }

    /// Counts both timers down by one, stopping at zero.
    pub fn tick_timers(&mut self)
        ensures
            final(self)@ == spec_tick_timers(old(self)@),
    {
        self.delay_timer.tick();
        self.sound_timer.tick();
    }

    /// Marks `key` as held down.
    pub fn press_key(&mut self, key: Key)
        ensures
            final(self)@ == (MachineState { keys: old(self)@.keys.update(key.spec_index() as int, true), ..old(self)@ }),
    {
        self.keypad.press(key);
    }

    /// Marks `key` as released.
    pub fn release_key(&mut self, key: Key)
        ensures
            final(self)@ == (MachineState { keys: old(self)@.keys.update(key.spec_index() as int, false), ..old(self)@ }),
    {
        self.keypad.release(key);
    }

    /// The display.
    pub fn display(&self) -> (d: &Display)
        ensures
            d@ == self@.pixels,
    {
        &self.display
    }

    /// Executes an instruction that moves the program counter, uses the
    /// stack, clears the screen, sets the index register or starts a wait.
    #[verifier::spinoff_prover]
    fn execute_control(&mut self, instruction: Instruction, random: u8) -> (res: Result<(), Chip8Error>)
        requires
            can_execute(old(self)@, instruction),
            instruction is Return || instruction is ClearDisplay || instruction is JumpAddr || instruction is Call || instruction is JumpV0 || instruction is LoadIndex || instruction is WaitForKeyPress,
        ensures
            executes_to(old(self)@, instruction, random, final(self)@, res),
    {
        proof {
            self.registers.lemma_len();
            self.keypad.lemma_len();
        }
        match instruction {
            Instruction::Return => {
                match self.stack.pop() {
                    Ok(address) => {
                        self.pc = address;
                        Ok(())
                    },
                    Err(e) => Err(Chip8Error::Stack(e)),
                }
            },
            Instruction::ClearDisplay => {
                self.display.clear();
                Ok(())
            },
            Instruction::JumpAddr { address } => {
                self.pc = address;
                Ok(())
            },
            Instruction::Call { address } => {
                match self.stack.push(self.pc) {
                    Ok(()) => {
                        self.pc = address;
                        Ok(())
                    },
                    Err(e) => Err(Chip8Error::Stack(e)),
                }
            },
            Instruction::JumpV0 { address } => {
                self.pc = address + (self.registers.get(Register::V0) as u16);
                Ok(())
            },
            Instruction::LoadIndex { address } => {
                self.index = address;
                Ok(())
            },
            Instruction::WaitForKeyPress { vx } => {
                self.waiting_for_key = Some(vx);
                Ok(())
            },
            _ => Ok(()),
        }
    }

    /// Executes a conditional skip.
    #[verifier::spinoff_prover]
    fn execute_skip(&mut self, instruction: Instruction, random: u8) -> (res: Result<(), Chip8Error>)
        requires
            can_execute(old(self)@, instruction),
            instruction is SkipIfRegisterEqualImmediate || instruction is SkipIfRegisterNotEqualImmediate || instruction is SkipIfRegistersEqual || instruction is SkipIfRegistersNotEqual || instruction is SkipIfKeyPressed || instruction is SkipIfKeyNotPressed,
        ensures
            executes_to(old(self)@, instruction, random, final(self)@, res),
    {
        proof {
            self.registers.lemma_len();
            self.keypad.lemma_len();
        }
        match instruction {
            Instruction::SkipIfRegisterEqualImmediate { vx, value } => {
                if value == self.registers.get(vx) {
                    self.pc = self.pc + 2;
                }
                Ok(())
            },
            Instruction::SkipIfRegisterNotEqualImmediate { vx, value } => {
                if value != self.registers.get(vx) {
                    self.pc = self.pc + 2;
                }
                Ok(())
            },
            Instruction::SkipIfRegistersEqual { vx, vy } => {
                if self.registers.get(vx) == self.registers.get(vy) {
                    self.pc = self.pc + 2;
                }
                Ok(())
            },
            Instruction::SkipIfRegistersNotEqual { vx, vy } => {
                let vx_val = self.registers.get(vx);
                let vy_val = self.registers.get(vy);
                if vx_val != vy_val {
                    self.pc = self.pc + 2;
                }
                Ok(())
            },
            Instruction::SkipIfKeyPressed { vx } => {
                let x = self.registers.get(vx);
                match Key::try_from(x) {
                    Ok(key) => {
                        if self.keypad.is_pressed(key) {
                            self.pc = self.pc + 2;
                        }
                        Ok(())
                    },
                    Err(e) => Err(Chip8Error::Keypad(e)),
                }
            },
            Instruction::SkipIfKeyNotPressed { vx } => {
                let x = self.registers.get(vx);
                match Key::try_from(x) {
                    Ok(key) => {
                        if !self.keypad.is_pressed(key) {
                            self.pc = self.pc + 2;
                        }
                        Ok(())
                    },
                    Err(e) => Err(Chip8Error::Keypad(e)),
                }
            },
            _ => Ok(()),
        }
    }

    /// Executes an instruction that loads a register from an immediate
    /// byte, another register or the drawn byte `random`, or adds a byte to it.
    #[verifier::spinoff_prover]
    fn execute_load(&mut self, instruction: Instruction, random: u8) -> (res: Result<(), Chip8Error>)
        requires
            instruction is LoadImmediate || instruction is AddImmediate || instruction is SetVxVy || instruction is RandomAndImmediate,
        ensures
            executes_to(old(self)@, instruction, random, final(self)@, res),
    {
        proof {
            self.registers.lemma_len();
        }
        match instruction {
            Instruction::LoadImmediate { vx, value } => {
                self.registers.set(vx, value);
                Ok(())
            },
            Instruction::AddImmediate { vx, value } => {
                let curr_val = self.registers.get(vx).wrapping_add(value);
                self.registers.set(vx, curr_val);
                Ok(())
            },
            Instruction::SetVxVy { vx, vy } => {
                let src_val = self.registers.get(vy);
                self.registers.set(vx, src_val);
                Ok(())
            },
            Instruction::RandomAndImmediate { vx, value } => {
                self.registers.set(vx, random & value);
                Ok(())
            },
            _ => Ok(()),
        }
    }

    /// Executes a bitwise OR, AND or XOR of two registers.
    #[verifier::spinoff_prover]
    fn execute_bitwise(&mut self, instruction: Instruction, random: u8) -> (res: Result<(), Chip8Error>)
        requires
            instruction is OrVxVy || instruction is AndVxVy || instruction is XOrVxVy,
        ensures
            executes_to(old(self)@, instruction, random, final(self)@, res),
    {
        proof {
            self.registers.lemma_len();
        }
        match instruction {
            Instruction::OrVxVy { vx, vy } => {
                let vx_val = self.registers.get(vx);
                let vy_val = self.registers.get(vy);
                self.registers.set(vx, vx_val | vy_val);
                Ok(())
            },
            Instruction::AndVxVy { vx, vy } => {
                let vx_val = self.registers.get(vx);
                let vy_val = self.registers.get(vy);
                self.registers.set(vx, vx_val & vy_val);
                Ok(())
            },
            Instruction::XOrVxVy { vx, vy } => {
                let vx_val = self.registers.get(vx);
                let vy_val = self.registers.get(vy);
                self.registers.set(vx, vx_val ^ vy_val);
                Ok(())
            },
            _ => Ok(()),
        }
    }

    /// 8xy4: `Vx = Vx + Vy` keeping the low 8 bits, `VF` = carry.
    #[verifier::spinoff_prover]
    fn add_with_carry(&mut self, vx: Register, vy: Register) -> (res: Result<(), Chip8Error>)
        ensures
        executes_to(old(self)@, Instruction::AddVxVy { vx, vy }, 0, final(self)@, res),
    {
        proof {
        self.registers.lemma_len();
        }
        let vx_val = self.registers.get(vx);
        let vy_val = self.registers.get(vy);
        let result = vx_val.wrapping_add(vy_val);
        let overflowed = (vx_val as u16) + (vy_val as u16) > 255;
        self.registers.set(vx, result);
        if overflowed {
            self.registers.set(Register::VF, 1);
        } else {
            self.registers.set(Register::VF, 0);
        }
        Ok(())
    }

    /// 8xy5: `Vx = Vx - Vy` wrapping, `VF` = NOT borrow.
    #[verifier::spinoff_prover]
    fn subtract(&mut self, vx: Register, vy: Register) -> (res: Result<(), Chip8Error>)
        ensures
        executes_to(old(self)@, Instruction::SubVxVy { vx, vy }, 0, final(self)@, res),
    {
        proof {
        self.registers.lemma_len();
        }
        let vx_val = self.registers.get(vx);
        let vy_val = self.registers.get(vy);
        let result = vx_val.wrapping_sub(vy_val);
        let borrowed = vx_val < vy_val;
        self.registers.set(vx, result);
        self.registers.set(Register::VF, if !borrowed { 1 } else { 0 });
        Ok(())
    }

    /// 8xy6: `Vx = Vx >> 1`, `VF` = the bit shifted out.
    #[verifier::spinoff_prover]
    fn shift_right(&mut self, vx: Register) -> (res: Result<(), Chip8Error>)
        ensures
        executes_to(old(self)@, Instruction::ShrVx { vx }, 0, final(self)@, res),
    {
        proof {
        self.registers.lemma_len();
        }
        let vx_val = self.registers.get(vx);
        let least_significant_bit = vx_val & 1;
        let result = vx_val >> 1;
        self.registers.set(vx, result);
        self.registers.set(Register::VF, least_significant_bit);
        Ok(())
    }

    /// 8xy7: `Vx = Vy - Vx` wrapping, `VF` = NOT borrow.
    #[verifier::spinoff_prover]
    fn subtract_reversed(&mut self, vx: Register, vy: Register) -> (res: Result<(), Chip8Error>)
        ensures
        executes_to(old(self)@, Instruction::SubnVxVy { vx, vy }, 0, final(self)@, res),
    {
        proof {
        self.registers.lemma_len();
        }
        let vx_val = self.registers.get(vx);
        let vy_val = self.registers.get(vy);
        let result = vy_val.wrapping_sub(vx_val);
        let borrowed = vy_val < vx_val;
        self.registers.set(vx, result);
        self.registers.set(Register::VF, if !borrowed { 1 } else { 0 });
        Ok(())
    }

    /// 8xyE: `Vx = Vx << 1`, `VF` = the bit shifted out.
    #[verifier::spinoff_prover]
    fn shift_left(&mut self, vx: Register) -> (res: Result<(), Chip8Error>)
        ensures
        executes_to(old(self)@, Instruction::ShlVx { vx }, 0, final(self)@, res),
    {
        proof {
        self.registers.lemma_len();
        }
        let vx_val = self.registers.get(vx);
        let most_significant_bit = vx_val >> 7;
        let result = vx_val << 1;
        self.registers.set(vx, result);
        self.registers.set(Register::VF, most_significant_bit);
        Ok(())
    }

    /// Executes an instruction that reads or writes memory or the index
    /// register, or draws.
    #[verifier::spinoff_prover]
    fn execute_memory(&mut self, instruction: Instruction, random: u8) -> (res: Result<(), Chip8Error>)
        requires
            can_execute(old(self)@, instruction),
            instruction is Draw || instruction is StoreBCD || instruction is StoreRegisters || instruction is LoadRegisters || instruction is LoadFontSprite || instruction is AddIndex,
        ensures
            executes_to(old(self)@, instruction, random, final(self)@, res),
    {
        proof {
            self.registers.lemma_len();
            self.keypad.lemma_len();
        }
        match instruction {
            Instruction::Draw { vx, vy, n } => {
                let x = self.registers.get(vx);
                let y = self.registers.get(vy);
                let start = self.index as usize;
                let end = start + n as usize;
                let sprite = vstd::slice::slice_subrange(self.memory.as_slice(), start, end);
                let collision = self.display.draw_sprite(x, y, sprite);
                self.registers.set(Register::VF, if collision { 1 } else { 0 });
                Ok(())
            },
            Instruction::StoreBCD { vx } => {
                let x = self.registers.get(vx);
                let hundreds = x / 100;
                let tens = (x / 10) % 10;
                let ones = x % 10;
                let i = self.index as usize;
                self.memory[i] = hundreds;
                self.memory[i + 1] = tens;
                self.memory[i + 2] = ones;
                Ok(())
            },
            Instruction::StoreRegisters { vx } => self.store_registers(vx),
            Instruction::LoadRegisters { vx } => self.load_registers(vx),
            Instruction::LoadFontSprite { vx } => {
                let x = self.registers.get(vx);
                self.index = x as u16 * 5;
                Ok(())
            },
            Instruction::AddIndex { vx } => {
                let x = self.registers.get(vx);
                self.index = self.index.wrapping_add(x as u16);
                Ok(())
            },
            _ => Ok(()),
        }
    }

    /// Executes an instruction that reads or sets a timer.
    #[verifier::spinoff_prover]
    fn execute_timers(&mut self, instruction: Instruction, random: u8) -> (res: Result<(), Chip8Error>)
        requires
            can_execute(old(self)@, instruction),
            instruction is LoadVxDelayTimer || instruction is SetDelayTimer || instruction is SetSoundTimer,
        ensures
            executes_to(old(self)@, instruction, random, final(self)@, res),
    {
        proof {
            self.registers.lemma_len();
            self.keypad.lemma_len();
        }
        match instruction {
            Instruction::LoadVxDelayTimer { vx } => {
                let value = self.delay_timer.get();
                self.registers.set(vx, value);
                Ok(())
            },
            Instruction::SetDelayTimer { vx } => {
                let x = self.registers.get(vx);
                self.delay_timer.set(x);
                Ok(())
            },
            Instruction::SetSoundTimer { vx } => {
                let x = self.registers.get(vx);
                self.sound_timer.set(x);
                Ok(())
            },
            _ => Ok(()),
        }
    }

    /// Stores `V0`..`vx` in memory from the index register on.
    #[verifier::spinoff_prover]
    fn store_registers(&mut self, vx: Register) -> (res: Result<(), Chip8Error>)
        requires
            old(self).index + vx.spec_index() < RAM_SIZE,
        ensures
            executes_to(old(self)@, Instruction::StoreRegisters { vx }, 0, final(self)@, res),
    {
        proof {
            self.registers.lemma_len();
        }
        let last = vx.index();
        let base = self.index as usize;
        let ghost pre = self@;
        let mut i: usize = 0;
        while i <= last
            invariant
                last == vx.spec_index(),
                base == pre.index,
                base + last < RAM_SIZE,
                i <= last + 1,
                pre.registers.len() == 16,
                self.memory@.len() == RAM_SIZE,
                self@ == (MachineState { memory: self.memory@, ..pre }),
                forall|a: int| 0 <= a < RAM_SIZE ==> self.memory@[a] ==
                    if base <= a < base + i { pre.registers[a - base] } else { pre.memory[a] },
            decreases last + 1 - i,
        {
            let address = base + i;
            let register = match Register::from_index(i as u8) {
                Ok(r) => r,
                Err(e) => return Err(Chip8Error::Register(e)),
            };
            self.memory[address] = self.registers.get(register);
            i = i + 1;
        }
        assert(self.memory@ =~= Seq::new(pre.memory.len(), |a: int|
            if base <= a <= base + last { pre.registers[a - base] } else { pre.memory[a] }));
        Ok(())
    }

    /// Loads `V0`..`vx` from memory from the index register on.
    #[verifier::spinoff_prover]
    fn load_registers(&mut self, vx: Register) -> (res: Result<(), Chip8Error>)
        requires
            old(self).index + vx.spec_index() < RAM_SIZE,
        ensures
            executes_to(old(self)@, Instruction::LoadRegisters { vx }, 0, final(self)@, res),
    {
        proof {
            self.registers.lemma_len();
        }
        let last = vx.index();
        let base = self.index as usize;
        let ghost pre = self@;
        let mut i: usize = 0;
        while i <= last
            invariant
                last == vx.spec_index(),
                base == pre.index,
                base + last < RAM_SIZE,
                i <= last + 1,
                pre.registers.len() == 16,
                self.registers@.len() == 16,
                self@ == (MachineState { registers: self.registers@, ..pre }),
                forall|r: int| 0 <= r < 16 ==> self.registers@[r] ==
                    if r < i { pre.memory[base + r] } else { pre.registers[r] },
            decreases last + 1 - i,
        {
            let address = base + i;
            let register = match Register::from_index(i as u8) {
                Ok(r) => r,
                Err(e) => return Err(Chip8Error::Register(e)),
            };
            let value = self.memory[address];
            self.registers.set(register, value);
            i = i + 1;
        }
        assert(self.registers@ =~= Seq::new(pre.registers.len(), |r: int|
            if r <= last { pre.memory[base + r] } else { pre.registers[r] }));
        Ok(())
    }
}

} // verus!

verus! {

/// Whether `s` has the shape of a machine state: 4096 bytes of memory,
/// sixteen registers, sixteen stack slots, a 64 x 32 display, sixteen keys.
pub open spec fn well_shaped(s: MachineState) -> bool {
    &&& s.memory.len() == RAM_SIZE
    &&& s.registers.len() == 16
    &&& s.stack.slots.len() == STACK_SIZE
    &&& is_screen(s.pixels)
    &&& s.keys.len() == 16
}

impl Chip8 {
    /// The state of every machine has the shape of a machine state.
    pub proof fn lemma_well_shaped(&self)
        ensures
            well_shaped(self@),
    {
        self.registers.lemma_len();
        self.stack.lemma_slots_len();
        self.display.lemma_is_screen();
        self.keypad.lemma_len();
    }
}

/// The opcode at the program counter is the byte there followed by the next
/// byte, most significant first.
pub proof fn lemma_opcode_is_big_endian(s: MachineState)
    requires
        well_shaped(s),
        s.pc + 1 < RAM_SIZE,
    ensures
        opcode_at_pc(s) == ((s.memory[s.pc as int] as u16) << 8u16) | (s.memory[s.pc + 1] as u16),
{
    let hi = s.memory[s.pc as int] as u16;
    let lo = s.memory[s.pc + 1] as u16;
    assert(hi * 256 + lo == (hi << 8u16) | lo) by (bit_vector)
        requires
            hi < 256,
            lo < 256;
}

/// A machine cycle of a machine that is not waiting for a key reads the
/// big-endian opcode at the program counter, moves the program counter on by
/// 2, and then executes the instruction the opcode stands for; an opcode
/// outside the table is reported with the program counter moved on and
/// nothing else changed, and so is an instruction that fails.
pub proof fn lemma_tick_fetches_then_executes(s: MachineState, random: u8)
    requires
        well_shaped(s),
        s.waiting_for_key is None,
        s.pc + 1 < RAM_SIZE,
    ensures
        ({
            let op = ((s.memory[s.pc as int] as u16) << 8u16) | (s.memory[s.pc + 1] as u16);
            let moved = MachineState { pc: (s.pc + 2) as u16, ..s };
            &&& moved.pc == s.pc + 2
            &&& spec_tick(s, random) == match spec_decode(op) {
                Err(e) => (moved, Err::<(), Chip8Error>(Chip8Error::Decode(e))),
                Ok(i) => match spec_execute(moved, i, random) {
                    Ok(t) => (t, Ok::<(), Chip8Error>(())),
                    Err(e) => (moved, Err::<(), Chip8Error>(e)),
                },
            }
        }),
{
    lemma_opcode_is_big_endian(s);
}

/// A freshly built machine has the font in the first 80 bytes of memory and
/// zero above it, every register zero, an empty stack, a dark display, no
/// key held, both timers zero, no wait, the program counter at 0x200 and
/// the index register at zero.
pub proof fn lemma_initial_state()
    ensures
        ({
            let s = initial_state();
            &&& s.memory.len() == RAM_SIZE
            &&& forall|a: int| 0 <= a < 80 ==> #[trigger] s.memory[a] == FONT@[a]
            &&& forall|a: int| 80 <= a < RAM_SIZE ==> #[trigger] s.memory[a] == 0
            &&& s.registers.len() == 16 && forall|r: int| 0 <= r < 16 ==> #[trigger] s.registers[r] == 0
            &&& s.stack.depth == 0
            &&& forall|y: int, x: int| 0 <= y < HEIGHT && 0 <= x < WIDTH ==> !#[trigger] s.pixels[y][x]
            &&& s.keys.len() == 16 && forall|k: int| 0 <= k < 16 ==> !#[trigger] s.keys[k]
            &&& s.delay == 0 && s.sound == 0
            &&& s.waiting_for_key is None
            &&& s.pc == 0x200
            &&& s.index == 0
        }),
{
}

/// One 60 Hz tick counts each of the delay and sound timers down by one when
/// it is above zero and leaves it at zero otherwise; nothing else changes.
pub proof fn lemma_tick_timers_effect(s: MachineState)
    ensures
        ({
            let t = spec_tick_timers(s);
            &&& s.delay > 0 ==> t.delay == s.delay - 1
            &&& s.delay == 0 ==> t.delay == 0
            &&& s.sound > 0 ==> t.sound == s.sound - 1
            &&& s.sound == 0 ==> t.sound == 0
            &&& (MachineState { delay: s.delay, sound: s.sound, ..t }) == s
        }),
{
}

/// A call followed by a return comes back to the program counter the call
/// was made from, with the stack as deep as before.
#[verifier::spinoff_prover]
pub proof fn lemma_call_then_return(s: MachineState, address: u16, random: u8)
    requires
        well_shaped(s),
        s.stack.depth < STACK_SIZE,
    ensures
        spec_execute(s, Instruction::Call { address }, random) is Ok,
        spec_execute(s, Instruction::Call { address }, random)->Ok_0.pc == address,
        spec_execute(spec_execute(s, Instruction::Call { address }, random)->Ok_0, Instruction::Return, random)
            == Ok::<MachineState, Chip8Error>(MachineState {
                stack: StackView { slots: s.stack.slots.update(s.stack.depth as int, s.pc), depth: s.stack.depth },
                ..s
            }),
{
    crate::stack::lemma_push_then_pop(s.stack, s.pc);
}

/// Executing the same `DRW Vx, Vy, n` twice, with neither coordinate in
/// `VF`, gives back the display the machine had before the first: drawing
/// is an XOR.
#[verifier::spinoff_prover]
pub proof fn lemma_draw_twice_restores_display(s: MachineState, vx: Register, vy: Register, n: u8, random: u8)
    requires
        well_shaped(s),
        vx != Register::VF,
        vy != Register::VF,
        s.index + n <= RAM_SIZE,
    ensures
        spec_execute(s, Instruction::Draw { vx, vy, n }, random) is Ok,
        ({
            let t = spec_execute(s, Instruction::Draw { vx, vy, n }, random)->Ok_0;
            &&& spec_execute(t, Instruction::Draw { vx, vy, n }, random) is Ok
            &&& spec_execute(t, Instruction::Draw { vx, vy, n }, random)->Ok_0.pixels == s.pixels
        }),
{
    crate::registers::lemma_register_index_roundtrip(vx);
    crate::registers::lemma_register_index_roundtrip(vy);
    let sprite = s.memory.subrange(s.index as int, s.index + n);
    let t = spec_execute(s, Instruction::Draw { vx, vy, n }, random)->Ok_0;
    assert(reg(t, vx) == reg(s, vx));
    assert(reg(t, vy) == reg(s, vy));
    assert(t.memory.subrange(t.index as int, t.index + n) == sprite);
    crate::display::lemma_draw_twice_restores(s.pixels, reg(s, vx) as int, reg(s, vy) as int, sprite);
}

/// Every instruction that runs to a next state keeps the shape of the
/// machine state.
#[verifier::spinoff_prover]
pub proof fn lemma_execute_keeps_shape(s: MachineState, instr: Instruction, random: u8)
    requires
        well_shaped(s),
        can_execute(s, instr),
        spec_execute(s, instr, random) is Ok,
    ensures
        well_shaped(spec_execute(s, instr, random)->Ok_0),
{
    let t = spec_execute(s, instr, random)->Ok_0;
    match instr {
        Instruction::ClearDisplay => {
            assert forall|y: int| 0 <= y < HEIGHT implies #[trigger] blank_screen()[y].len() == WIDTH by {}
        },
        Instruction::Draw { vx, vy, n } => {
            let sprite = s.memory.subrange(s.index as int, s.index + n);
            lemma_draw_keeps_shape(s.pixels, reg(s, vx) as int, reg(s, vy) as int, sprite);
        },
        _ => {},
    }
}

/// Every machine cycle keeps the shape of the machine state.
pub proof fn lemma_tick_keeps_shape(s: MachineState, random: u8)
    requires
        well_shaped(s),
        tick_defined(s),
    ensures
        well_shaped(spec_tick(s, random).0),
{
    if s.waiting_for_key is None {
        if let Ok(i) = spec_decode(opcode_at_pc(s)) {
            if spec_execute(after_fetch(s), i, random) is Ok {
                lemma_execute_keeps_shape(after_fetch(s), i, random);
            }
        }
    }
}

/// Only `RandomAndImmediate` reads the drawn byte: every other instruction
/// has the same outcome whatever byte is drawn.
pub proof fn lemma_execute_ignores_random(s: MachineState, instr: Instruction, r1: u8, r2: u8)
    requires
        !(instr is RandomAndImmediate),
    ensures
        spec_execute(s, instr, r1) == spec_execute(s, instr, r2),
{
}

/// Whether `op` decodes to `RandomAndImmediate`.
pub open spec fn draws_random(op: u16) -> bool {
    match spec_decode(op) {
        Ok(Instruction::RandomAndImmediate { .. }) => true,
        _ => false,
    }
}

/// A machine cycle that does not execute `RandomAndImmediate` has the same
/// outcome whatever byte is drawn.
pub proof fn lemma_tick_ignores_random(s: MachineState, r1: u8, r2: u8)
    requires
        s.waiting_for_key is None ==> !draws_random(opcode_at_pc(s)),
    ensures
        spec_tick(s, r1) == spec_tick(s, r2),
{
    if s.waiting_for_key is None {
        if let Ok(i) = spec_decode(opcode_at_pc(s)) {
            lemma_execute_ignores_random(after_fetch(s), i, r1, r2);
        }
    }
}

/// `RandomAndImmediate` leaves no bit set in `Vx` outside the mask `kk`,
/// whatever byte is drawn.
pub proof fn lemma_random_respects_mask(s: MachineState, vx: Register, value: u8, random: u8)
    requires
        well_shaped(s),
    ensures
        reg(spec_execute(s, Instruction::RandomAndImmediate { vx, value }, random)->Ok_0, vx) & !value == 0,
{
    crate::registers::lemma_register_index_roundtrip(vx);
    assert((random & value) & !value == 0) by (bit_vector);
}

/// After `ADD Vx, Vy` with `Vx` other than `VF`, `VF` is 0 or 1 and
/// `256 * VF + Vx` is the full sum of the two operands.
#[verifier::spinoff_prover]
pub proof fn lemma_add_carry(s: MachineState, vx: Register, vy: Register, random: u8)
    requires
        well_shaped(s),
        vx != Register::VF,
    ensures
        ({
            let t = spec_execute(s, Instruction::AddVxVy { vx, vy }, random)->Ok_0;
            &&& reg(t, Register::VF) <= 1
            &&& 256 * reg(t, Register::VF) + reg(t, vx) == reg(s, vx) + reg(s, vy)
        }),
{
    crate::registers::lemma_register_index_roundtrip(vx);
    let (x, y) = (reg(s, vx), reg(s, vy));
    let sum = x + y;
    let t1 = with_reg(s, vx, (sum % 256) as u8);
    let t = with_reg(t1, Register::VF, flag(sum > 255));
    assert(spec_execute(s, Instruction::AddVxVy { vx, vy }, random) == Ok::<MachineState, Chip8Error>(t));
    assert(vx.spec_index() != 15);
    assert(reg(t, vx) == (sum % 256) as u8);
    assert(reg(t, Register::VF) == flag(sum > 255));
    if sum > 255 {
        assert(sum % 256 == sum - 256);
    } else {
        assert(sum % 256 == sum);
    }
}

/// After `SUB Vx, Vy` with `Vx` other than `VF`, `VF` is 1 when no borrow
/// was needed and 0 otherwise, and `Vx - 256 * (1 - VF)` is `Vx - Vy`.
#[verifier::spinoff_prover]
pub proof fn lemma_sub_borrow(s: MachineState, vx: Register, vy: Register, random: u8)
    requires
        well_shaped(s),
        vx != Register::VF,
    ensures
        ({
            let t = spec_execute(s, Instruction::SubVxVy { vx, vy }, random)->Ok_0;
            &&& reg(t, Register::VF) == flag(reg(s, vx) >= reg(s, vy))
            &&& reg(t, vx) - 256 * (1 - reg(t, Register::VF)) == reg(s, vx) - reg(s, vy)
        }),
{
    crate::registers::lemma_register_index_roundtrip(vx);
}

/// After `SUBN Vx, Vy` with `Vx` other than `VF`, `VF` is 1 when no borrow
/// was needed and 0 otherwise, and `Vx - 256 * (1 - VF)` is `Vy - Vx`.
#[verifier::spinoff_prover]
pub proof fn lemma_subn_borrow(s: MachineState, vx: Register, vy: Register, random: u8)
    requires
        well_shaped(s),
        vx != Register::VF,
    ensures
        ({
            let t = spec_execute(s, Instruction::SubnVxVy { vx, vy }, random)->Ok_0;
            &&& reg(t, Register::VF) == flag(reg(s, vy) >= reg(s, vx))
            &&& reg(t, vx) - 256 * (1 - reg(t, Register::VF)) == reg(s, vy) - reg(s, vx)
        }),
{
    crate::registers::lemma_register_index_roundtrip(vx);
}

/// After `SHR Vx` with `Vx` other than `VF`, `2 * Vx + VF` is the old `Vx`:
/// `VF` holds the bit shifted out.
#[verifier::spinoff_prover]
pub proof fn lemma_shift_right(s: MachineState, vx: Register, random: u8)
    requires
        well_shaped(s),
        vx != Register::VF,
    ensures
        ({
            let t = spec_execute(s, Instruction::ShrVx { vx }, random)->Ok_0;
            &&& reg(t, Register::VF) <= 1
            &&& 2 * reg(t, vx) + reg(t, Register::VF) == reg(s, vx)
        }),
{
    crate::registers::lemma_register_index_roundtrip(vx);
    let x = reg(s, vx);
    assert(2 * (x >> 1u8) + (x & 1u8) == x && x & 1u8 <= 1) by (bit_vector);
}

/// After `SHL Vx` with `Vx` other than `VF`, `Vx + 256 * VF` is twice the
/// old `Vx`: `VF` holds the bit shifted out.
#[verifier::spinoff_prover]
pub proof fn lemma_shift_left(s: MachineState, vx: Register, random: u8)
    requires
        well_shaped(s),
        vx != Register::VF,
    ensures
        ({
            let t = spec_execute(s, Instruction::ShlVx { vx }, random)->Ok_0;
            &&& reg(t, Register::VF) <= 1
            &&& reg(t, vx) + 256 * reg(t, Register::VF) == 2 * reg(s, vx)
        }),
{
    crate::registers::lemma_register_index_roundtrip(vx);
    let x = reg(s, vx);
    assert((x << 1u8) + 256 * (x >> 7u8) == 2 * x && x >> 7u8 <= 1) by (bit_vector);
}

/// `LD B, Vx` stores three decimal digits at `I`, `I + 1`, `I + 2` whose
/// value, read as a number, is `Vx`.
#[verifier::spinoff_prover]
pub proof fn lemma_bcd_digits(s: MachineState, vx: Register, random: u8)
    requires
        well_shaped(s),
        s.index + 2 < RAM_SIZE,
    ensures
        ({
            let m = spec_execute(s, Instruction::StoreBCD { vx }, random)->Ok_0.memory;
            let i = s.index as int;
            &&& m[i] < 10 && m[i + 1] < 10 && m[i + 2] < 10
            &&& 100 * m[i] + 10 * m[i + 1] + m[i + 2] == reg(s, vx)
        }),
{
}

/// Storing `V0`..`Vx` at `I` and loading them back from `I` leaves the
/// registers as they were.
#[verifier::spinoff_prover]
pub proof fn lemma_store_then_load(s: MachineState, vx: Register, random: u8)
    requires
        well_shaped(s),
        s.index + vx.spec_index() < RAM_SIZE,
    ensures
        spec_execute(s, Instruction::StoreRegisters { vx }, random) is Ok,
        ({
            let t = spec_execute(s, Instruction::StoreRegisters { vx }, random)->Ok_0;
            spec_execute(t, Instruction::LoadRegisters { vx }, random) == Ok::<MachineState, Chip8Error>(t)
        }),
        spec_execute(s, Instruction::StoreRegisters { vx }, random)->Ok_0.registers == s.registers,
{
    let t = spec_execute(s, Instruction::StoreRegisters { vx }, random)->Ok_0;
    let u = spec_execute(t, Instruction::LoadRegisters { vx }, random)->Ok_0;
    assert(u.registers =~= t.registers);
    assert(u == t);
}

/// A machine waiting for a key press while no key is held stays exactly as
/// it is: the program counter does not move.
pub proof fn lemma_wait_without_key(s: MachineState, random: u8)
    requires
        s.waiting_for_key is Some,
        forall|i: int| 0 <= i < s.keys.len() ==> !s.keys[i],
    ensures
        spec_tick(s, random) == (s, Ok::<(), Chip8Error>(())),
{
}

/// A machine waiting for a key press while a key is held stores that key's
/// digit (the lowest one held) in the awaited register and stops waiting,
/// without moving the program counter.
#[verifier::spinoff_prover]
pub proof fn lemma_wait_with_key(s: MachineState, random: u8, digit: int)
    requires
        well_shaped(s),
        s.waiting_for_key is Some,
        0 <= digit < 16,
        s.keys[digit],
        forall|i: int| 0 <= i < digit ==> !s.keys[i],
    ensures
        ({
            let (t, res) = spec_tick(s, random);
            &&& res is Ok
            &&& t.waiting_for_key is None
            &&& t.pc == s.pc
            &&& reg(t, s.waiting_for_key->Some_0) == digit
            &&& t.memory == s.memory
        }),
{
    let w = choose|w: int| 0 <= w < s.keys.len() && s.keys[w] && forall|j: int| 0 <= j < w ==> !s.keys[j];
    assert(s.keys[digit]);
    if w < digit {
        assert(!s.keys[w]);
    } else if w > digit {
        assert(!s.keys[digit]);
    }
    crate::keypad::lemma_key_from_index_roundtrip(digit);
    crate::registers::lemma_register_index_roundtrip(s.waiting_for_key->Some_0);
}

} // verus!
