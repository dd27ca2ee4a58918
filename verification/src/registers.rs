//! The sixteen 8-bit general-purpose registers `V0`..`VF`.

use vstd::prelude::*;

verus! {

/// Number of general-purpose registers.
pub const NUM_REGS: usize = 16;

/// Names of the general-purpose registers.
#[derive(Debug, Clone, Copy, PartialEq, Eq, Structural)]
pub enum Register {
    V0,
    V1,
    V2,
    V3,
    V4,
    V5,
    V6,
    V7,
    V8,
    V9,
    VA,
    VB,
    VC,
    VD,
    VE,
    VF,
}

/// Error raised when a number does not name a register.
#[derive(Debug, Clone, Copy, PartialEq, Eq, Structural)]
pub enum RegisterError {
    InvalidIndex(u8),
}

impl Register {
    /// The position of the register in the register file: `Vn` has index `n`.
    pub open spec fn spec_index(self) -> nat {
        match self {
            Register::V0 => 0,
            Register::V1 => 1,
            Register::V2 => 2,
            Register::V3 => 3,
            Register::V4 => 4,
            Register::V5 => 5,
            Register::V6 => 6,
            Register::V7 => 7,
            Register::V8 => 8,
            Register::V9 => 9,
            Register::VA => 10,
            Register::VB => 11,
            Register::VC => 12,
            Register::VD => 13,
            Register::VE => 14,
            Register::VF => 15,
        }
    }

    /// The register whose index is `i`, for `i < 16`.
    pub open spec fn spec_from_index(i: int) -> Register {
        if i == 0 {
            Register::V0
        } else if i == 1 {
            Register::V1
        } else if i == 2 {
            Register::V2
        } else if i == 3 {
            Register::V3
        } else if i == 4 {
            Register::V4
        } else if i == 5 {
            Register::V5
        } else if i == 6 {
            Register::V6
        } else if i == 7 {
            Register::V7
        } else if i == 8 {
            Register::V8
        } else if i == 9 {
            Register::V9
        } else if i == 10 {
            Register::VA
        } else if i == 11 {
            Register::VB
        } else if i == 12 {
            Register::VC
        } else if i == 13 {
            Register::VD
        } else if i == 14 {
            Register::VE
        } else {
            Register::VF
        }
    }

    pub fn index(&self) -> (i: usize)
        ensures
            i == self.spec_index(),
            i < NUM_REGS,
    {
        match self {
            Register::V0 => 0,
            Register::V1 => 1,
            Register::V2 => 2,
            Register::V3 => 3,
            Register::V4 => 4,
            Register::V5 => 5,
            Register::V6 => 6,
            Register::V7 => 7,
            Register::V8 => 8,
            Register::V9 => 9,
            Register::VA => 10,
            Register::VB => 11,
            Register::VC => 12,
            Register::VD => 13,
            Register::VE => 14,
            Register::VF => 15,
        }
    }

    /// The register with the given index; indices from 16 on are refused.
    pub fn from_index(index: u8) -> (res: Result<Register, RegisterError>)
        ensures
            index < 16 ==> res == Ok::<Register, RegisterError>(Register::spec_from_index(index as int)),
            index >= 16 ==> res == Err::<Register, RegisterError>(RegisterError::InvalidIndex(index)),
            res matches Ok(r) ==> r.spec_index() == index,
    {
        match index {
            0 => Ok(Register::V0),
            1 => Ok(Register::V1),
            2 => Ok(Register::V2),
            3 => Ok(Register::V3),
            4 => Ok(Register::V4),
            5 => Ok(Register::V5),
            6 => Ok(Register::V6),
            7 => Ok(Register::V7),
            8 => Ok(Register::V8),
            9 => Ok(Register::V9),
            10 => Ok(Register::VA),
            11 => Ok(Register::VB),
            12 => Ok(Register::VC),
            13 => Ok(Register::VD),
            14 => Ok(Register::VE),
            15 => Ok(Register::VF),
            _ => Err(RegisterError::InvalidIndex(index)),
        }
    }
}

/// Every register has an index below 16, and the register with that index is
/// the register itself.
pub proof fn lemma_register_index_roundtrip(r: Register)
    ensures
        r.spec_index() < 16,
        Register::spec_from_index(r.spec_index() as int) == r,
{
}

/// Each register's index is the hexadecimal digit in its name.
pub proof fn lemma_register_numbers()
    ensures
        Register::V0.spec_index() == 0 && Register::V1.spec_index() == 1 && Register::V2.spec_index() == 2,
        Register::V3.spec_index() == 3 && Register::V4.spec_index() == 4 && Register::V5.spec_index() == 5,
        Register::V6.spec_index() == 6 && Register::V7.spec_index() == 7 && Register::V8.spec_index() == 8,
        Register::V9.spec_index() == 9 && Register::VA.spec_index() == 10 && Register::VB.spec_index() == 11,
        Register::VC.spec_index() == 12 && Register::VD.spec_index() == 13 && Register::VE.spec_index() == 14,
        Register::VF.spec_index() == 15,
{
}

/// Every index below 16 names a register whose index is that number.
pub proof fn lemma_register_from_index_roundtrip(i: int)
    requires
        0 <= i < 16,
    ensures
        Register::spec_from_index(i).spec_index() == i,
{
}

/// The register file.
pub struct Registers {
    values: [u8; NUM_REGS],
}

impl View for Registers {
    type V = Seq<u8>;

    closed spec fn view(&self) -> Seq<u8> {
        self.values@
    }
}

impl Registers {
    /// The length of the view is the number of registers.
    pub proof fn lemma_len(&self)
        ensures
            self@.len() == NUM_REGS,
    {
    }

    /// A register file with every register at zero.
    pub fn new() -> (r: Self)
        ensures
            r@ == Seq::new(NUM_REGS as nat, |i: int| 0u8),
    {
        let r = Registers { values: [0; NUM_REGS] };
        assert(r@ =~= Seq::new(NUM_REGS as nat, |i: int| 0u8));
        r
    }

    /// The value held by `register`.
    pub fn get(&self, register: Register) -> (v: u8)
        ensures
            v == self@[register.spec_index() as int],
    {
        self.values[register.index()]
    }

    /// Stores `val` in `register`, leaving the other registers as they were.
    pub fn set(&mut self, register: Register, val: u8)
        ensures
            final(self)@ == old(self)@.update(register.spec_index() as int, val),
    {
        self.values[register.index()] = val;
    }
}

} // verus!
