//! The registers of the ARM instruction set, and the numbers that stand for
//! them.

use vstd::prelude::*;

verus! {

/// Registers for the ARM instruction set.
#[derive(Debug, Clone, Copy, PartialEq, Eq, Structural)]
pub enum ArmRegs {
    R0,
    R1,
    R2,
    R3,
    R4,
    R5,
    R6,
    R7,
    R8,
    R9,
    R10,
    R11,
    R12,
    R13,
    R14,
    R15,
}

/// The number of registers.
pub const REGISTERS: usize = 16;

impl ArmRegs {
    /// The stack pointer.
    pub const SP: ArmRegs = ArmRegs::R13;

    /// The link register.
    pub const LR: ArmRegs = ArmRegs::R14;

    /// The program counter.
    pub const PC: ArmRegs = ArmRegs::R15;

    /// The static base.
    pub const SB: ArmRegs = ArmRegs::R9;

    /// The stack limit.
    pub const SL: ArmRegs = ArmRegs::R10;

    /// The frame pointer.
    pub const FP: ArmRegs = ArmRegs::R11;

    /// The scratch register for calls between procedures.
    pub const IP: ArmRegs = ArmRegs::R12;

    /// The number of the register.
    pub open spec fn number(self) -> int {
        match self {
            ArmRegs::R0 => 0,
            ArmRegs::R1 => 1,
            ArmRegs::R2 => 2,
            ArmRegs::R3 => 3,
            ArmRegs::R4 => 4,
            ArmRegs::R5 => 5,
            ArmRegs::R6 => 6,
            ArmRegs::R7 => 7,
            ArmRegs::R8 => 8,
            ArmRegs::R9 => 9,
            ArmRegs::R10 => 10,
            ArmRegs::R11 => 11,
            ArmRegs::R12 => 12,
            ArmRegs::R13 => 13,
            ArmRegs::R14 => 14,
            ArmRegs::R15 => 15,
        }
    }

    /// The number of the register.
    pub fn into_primitive(self) -> (r: i32)
        ensures
            r == self.number(),
    {
        match self {
            ArmRegs::R0 => 0,
            ArmRegs::R1 => 1,
            ArmRegs::R2 => 2,
            ArmRegs::R3 => 3,
            ArmRegs::R4 => 4,
            ArmRegs::R5 => 5,
            ArmRegs::R6 => 6,
            ArmRegs::R7 => 7,
            ArmRegs::R8 => 8,
            ArmRegs::R9 => 9,
            ArmRegs::R10 => 10,
            ArmRegs::R11 => 11,
            ArmRegs::R12 => 12,
            ArmRegs::R13 => 13,
            ArmRegs::R14 => 14,
            ArmRegs::R15 => 15,
        }
    }

    /// The register with the number `n`, if there is one.
    pub fn try_from_primitive(n: i32) -> (r: Option<Self>)
        ensures
            r is Some <==> 0 <= n < REGISTERS,
            r matches Some(reg) ==> reg.number() == n,
    {
        match n {
            0 => Some(ArmRegs::R0),
            1 => Some(ArmRegs::R1),
            2 => Some(ArmRegs::R2),
            3 => Some(ArmRegs::R3),
            4 => Some(ArmRegs::R4),
            5 => Some(ArmRegs::R5),
            6 => Some(ArmRegs::R6),
            7 => Some(ArmRegs::R7),
            8 => Some(ArmRegs::R8),
            9 => Some(ArmRegs::R9),
            10 => Some(ArmRegs::R10),
            11 => Some(ArmRegs::R11),
            12 => Some(ArmRegs::R12),
            13 => Some(ArmRegs::R13),
            14 => Some(ArmRegs::R14),
            15 => Some(ArmRegs::R15),
            _ => None,
        }
    }

    /// Every register, by its number.
    pub fn iter() -> (r: Vec<ArmRegs>)
        ensures
            r@.len() == REGISTERS,
            forall|i: int| 0 <= i < REGISTERS ==> (#[trigger] r@[i]).number() == i,
    {
        let mut all: Vec<ArmRegs> = Vec::new();
        let mut n: i32 = 0;
        while n < 16
            invariant
                0 <= n <= 16,
                all@.len() == n,
                forall|i: int| 0 <= i < n ==> (#[trigger] all@[i]).number() == i,
            decreases 16 - n,
        {
            match ArmRegs::try_from_primitive(n) {
                Some(reg) => {
                    all.push(reg);
                },
                None => {},
            }
            n = n + 1;
        }
        all
    }
}

} // verus!
