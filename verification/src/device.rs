//! Accesses to memory-mapped registers.

use vstd::prelude::*;

verus! {

/// One access to a 32-bit device register.
#[derive(Clone, Copy, PartialEq, Eq, Debug, Structural)]
pub enum RegisterOp {
    /// The register becomes `value`.
    Write { address: usize, value: u32 },
    /// The bits of `clear` go to zero, then those of `set` to one.
    Modify { address: usize, clear: u32, set: u32 },
}

impl RegisterOp {
    pub open spec fn target(self) -> usize {
        match self {
            RegisterOp::Write { address, .. } => address,
            RegisterOp::Modify { address, .. } => address,
        }
    }

    /// What the register holds afterwards, where it held `current` before.
    pub open spec fn result(self, current: u32) -> u32 {
        match self {
            RegisterOp::Write { value, .. } => value,
            RegisterOp::Modify { clear, set, .. } => (current & !clear) | set,
        }
    }

    pub fn address(&self) -> (address: usize)
        ensures
            address == self.target(),
    {
        match self {
            RegisterOp::Write { address, .. } => *address,
            RegisterOp::Modify { address, .. } => *address,
        }
    }

    /// Whether the register has to be read first.
    pub fn reads(&self) -> (reads: bool)
        ensures
            reads == (self is Modify),
    {
        match self {
            RegisterOp::Write { .. } => false,
            RegisterOp::Modify { .. } => true,
        }
    }

    /// What has to be written, where the register holds `current`.
    pub fn apply(&self, current: u32) -> (value: u32)
        ensures
            value == self.result(current),
    {
        match self {
            RegisterOp::Write { value, .. } => *value,
            RegisterOp::Modify { clear, set, .. } => (current & !*clear) | *set,
        }
    }
}

/// A modification leaves every bit outside its two masks, and puts its set bits in.
pub proof fn modify_touches_its_field(address: usize, clear: u32, set: u32, current: u32)
    requires
        set & !clear == 0,
    ensures
        ({
            let after = (RegisterOp::Modify { address, clear, set }).result(current);
            &&& after & !clear == current & !clear
            &&& after & clear == set
        }),
{
    assert(((current & !clear) | set) & !clear == current & !clear && ((current & !clear) | set)
        & clear == set) by (bit_vector)
        requires
            set & !clear == 0,
    ;
}

} // verus!
