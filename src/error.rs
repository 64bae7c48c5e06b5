use vstd::prelude::*;

verus! {

/// Errors surfaced by the memory subsystem and the context chain.
#[derive(Debug, Clone, Copy, PartialEq, Eq, Structural)]
pub enum Error {
    /// An address or page index lies outside the declared memory.
    MemOutOfBound,
}

} // verus!
