//! Core of a RISC-V virtual machine: bounds-checked flat memory with page
//! flags and a load reservation slot, and the execution-context chain that
//! lets a host attach syscalls, a debugger and an instruction cost function.
use vstd::prelude::*;

pub mod context;
pub mod error;
pub mod register;
pub mod endian;
pub mod buffer;
pub mod flat;

verus! {

/// Size in bytes of one page, the unit of flag bookkeeping.
pub const RISCV_PAGESIZE: usize = 4096;

/// Number of bits to shift an address right to obtain its page index.
pub const RISCV_PAGE_SHIFTS: usize = 12;

/// Largest supported address-space size in bytes.
pub const RISCV_MAX_MEMORY: usize = 4194304;

/// Page flag bit set by every store that touches the page.
pub const FLAG_DIRTY: u8 = 4;

} // verus!
