//! Values returned by the processor identification instruction.
//!
//! Only the register layout lives here; issuing the instruction needs
//! inline machine code and stays at the unverified edge of the kernel.

use vstd::prelude::*;

verus! {

/// The four registers one identification query fills.
#[derive(Debug, Clone, Copy, PartialEq, Eq, Structural)]
pub struct CpuidRegisters {
    pub eax: u32,
    pub ebx: u32,
    pub ecx: u32,
    pub edx: u32,
}

} // verus!
