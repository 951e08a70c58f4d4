//! The registers of x86-64 that the backend names.

use crate::codegen::register::Reg;
use vstd::prelude::*;

verus! {

/// The register classes.
#[derive(Clone, Copy, Debug, PartialEq, Eq, Structural)]
pub enum RegClass {
    GR32,
    GR64,
}

/// The 32-bit general-purpose registers, in encoding order.
#[derive(Clone, Copy, Debug, PartialEq, Eq, Structural)]
pub enum GR32 {
    EAX,
    ECX,
    EDX,
    EBX,
    ESP,
    EBP,
    ESI,
    EDI,
}

/// The 64-bit general-purpose registers, in encoding order.
#[derive(Clone, Copy, Debug, PartialEq, Eq, Structural)]
pub enum GR64 {
    RAX,
    RCX,
    RDX,
    RBX,
    RSP,
    RBP,
    RSI,
    RDI,
}

/// The register in which a function returns a 32-bit value.
pub open spec fn return_register() -> Reg {
    Reg(0, 0)
}

impl RegClass {
    /// The number that stands for the class in a `Reg`.
    pub open spec fn number(self) -> u16 {
        match self {
            RegClass::GR32 => 0,
            RegClass::GR64 => 1,
        }
    }
}

impl GR32 {
    /// The register's number within its class.
    pub open spec fn number(self) -> u16 {
        match self {
            GR32::EAX => 0,
            GR32::ECX => 1,
            GR32::EDX => 2,
            GR32::EBX => 3,
            GR32::ESP => 4,
            GR32::EBP => 5,
            GR32::ESI => 6,
            GR32::EDI => 7,
        }
    }

    /// The register as class and number.
    pub fn reg(self) -> (reg: Reg)
        ensures
            reg == Reg(RegClass::GR32.number(), self.number()),
    {
        match self {
            GR32::EAX => Reg(0, 0),
            GR32::ECX => Reg(0, 1),
            GR32::EDX => Reg(0, 2),
            GR32::EBX => Reg(0, 3),
            GR32::ESP => Reg(0, 4),
            GR32::EBP => Reg(0, 5),
            GR32::ESI => Reg(0, 6),
            GR32::EDI => Reg(0, 7),
        }
    }
}

impl GR64 {
    /// The register's number within its class.
    pub open spec fn number(self) -> u16 {
        match self {
            GR64::RAX => 0,
            GR64::RCX => 1,
            GR64::RDX => 2,
            GR64::RBX => 3,
            GR64::RSP => 4,
            GR64::RBP => 5,
            GR64::RSI => 6,
            GR64::RDI => 7,
        }
    }

    /// The register as class and number.
    pub fn reg(self) -> (reg: Reg)
        ensures
            reg == Reg(RegClass::GR64.number(), self.number()),
    {
        match self {
            GR64::RAX => Reg(1, 0),
            GR64::RCX => Reg(1, 1),
            GR64::RDX => Reg(1, 2),
            GR64::RBX => Reg(1, 3),
            GR64::RSP => Reg(1, 4),
            GR64::RBP => Reg(1, 5),
            GR64::RSI => Reg(1, 6),
            GR64::RDI => Reg(1, 7),
        }
    }
}

} // verus!
