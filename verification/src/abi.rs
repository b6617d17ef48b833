//! Register roles of the PowerPC Linux kernel-entry convention.
//!
//! Register r0 carries the syscall identifier; r3 through r8 carry arguments
//! one through six in order; r3 also carries the primary return value (the
//! kernel overwrites the first argument in place). The kernel entry path may
//! overwrite r0, r3 through r12, and condition-register field 0 (cr0), whose
//! summary-overflow bit is the trap's native failure signal.

use vstd::prelude::*;

verus! {

/// Number of general-purpose registers on the architecture.
pub const GPR_COUNT: usize = 32;

/// The register that carries the syscall identifier into the kernel (r0).
pub const NUMBER_REGISTER: usize = 0;

/// The register that carries the primary return value out of the kernel (r3).
pub const RETURN_REGISTER: usize = 3;

/// The register that carries the first argument (r3); arguments occupy
/// consecutive registers from here.
pub const FIRST_ARGUMENT_REGISTER: usize = 3;

/// The highest general-purpose register the kernel entry path may overwrite
/// (r12); r0 and r3 through r12 form the clobber set.
pub const LAST_CLOBBERED_REGISTER: usize = 12;

/// The largest number of argument words one invocation can carry.
pub const MAX_ARITY: usize = 6;

/// The register assigned to argument `k` (zero-based): arguments sit in
/// consecutive registers starting at the first argument register.
pub open spec fn argument_register(k: int) -> int {
    FIRST_ARGUMENT_REGISTER + k
}

/// Whether the kernel entry path may overwrite general-purpose register `r`.
/// The clobber set is r0 and r3 through r12 (cr0 is clobbered as well, and is
/// modeled separately as the summary-overflow bit).
pub open spec fn clobbered(r: int) -> bool {
    r == NUMBER_REGISTER || FIRST_ARGUMENT_REGISTER <= r <= LAST_CLOBBERED_REGISTER
}

/// The register assigned to argument `k`, as executable code.
pub fn argument_register_index(k: usize) -> (r: usize)
    requires
        k < MAX_ARITY,
    ensures
        r == argument_register(k as int),
{
    FIRST_ARGUMENT_REGISTER + k
}

/// Whether register `r` lies in the clobber set, as executable code.
pub fn is_clobbered(r: usize) -> (b: bool)
    ensures
        b == clobbered(r as int),
{
    r == NUMBER_REGISTER || (FIRST_ARGUMENT_REGISTER <= r && r <= LAST_CLOBBERED_REGISTER)
}

/// Every register an invocation writes before the trap — the number register
/// and the registers of the arguments it carries — lies inside the clobber
/// set, so binding them can never disturb a register the convention promises
/// to preserve.
pub proof fn lemma_bound_registers_are_clobbered()
    ensures
        clobbered(NUMBER_REGISTER as int),
        forall|k: int| 0 <= k < MAX_ARITY ==> clobbered(argument_register(k)),
{
}

} // verus!

