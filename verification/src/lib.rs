//! A verified model of the PowerPC Linux kernel-entry convention: the register
//! roles and clobber set of the `sc` trap instruction, the binding of a syscall
//! identifier and up to six raw argument words into their convention registers,
//! and the normalization of the kernel's raw return word — negated on failure,
//! unchanged on success — so that callers see a single sign convention instead
//! of a hardware flag.
//!
//! The kernel itself is outside the model: each invoker takes the kernel's
//! outcome as an input and is verified for every possible outcome.

pub mod abi;
pub mod invoke;
pub mod machine;
pub mod word;
