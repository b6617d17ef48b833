//! The machine as the invoker sees it, and the two halves of an invocation.
//!
//! An invocation has three steps: bind the syscall identifier and the argument
//! words into their convention registers, execute the trap, and normalize the
//! raw word the kernel left in the return register. The kernel itself is
//! outside the model: what it does to the clobbered registers, what raw word
//! it returns, and whether it signals failure arrive as a [`KernelReply`], and
//! everything here is verified for every possible reply.

use vstd::prelude::*;

use crate::abi::{
    argument_register, clobbered, FIRST_ARGUMENT_REGISTER, GPR_COUNT, LAST_CLOBBERED_REGISTER,
    MAX_ARITY, NUMBER_REGISTER, RETURN_REGISTER,
};
use crate::word::{normalize_return, normalized_word};

verus! {

/// The register state an invocation touches: the general-purpose registers and
/// the summary-overflow bit of condition-register field 0, which the trap uses
/// to signal failure.
pub struct MachineState {
    /// The general-purpose registers, indexed by register number.
    pub gprs: Vec<usize>,
    /// The summary-overflow bit of condition-register field 0.
    pub summary_overflow: bool,
}

/// Mathematical view of a [`MachineState`].
#[verifier::ext_equal]
pub struct MachineView {
    pub gprs: Seq<usize>,
    pub summary_overflow: bool,
}

impl MachineView {
    /// A well-formed machine holds one word per general-purpose register.
    pub open spec fn wf(self) -> bool {
        self.gprs.len() == GPR_COUNT
    }
}

impl View for MachineState {
    type V = MachineView;

    open spec fn view(&self) -> MachineView {
        MachineView { gprs: self.gprs@, summary_overflow: self.summary_overflow }
    }
}

impl MachineState {
    /// A well-formed machine holds one word per general-purpose register.
    pub open spec fn wf(self) -> bool {
        self@.wf()
    }
}

/// One kernel outcome: whether the trap's summary-overflow bit signals
/// failure, the raw word the kernel left in the return register, and the words
/// it left in the clobbered registers (indexed by register number; entries of
/// registers outside the clobber set are never read). The kernel alone decides
/// these values; the invoker takes them as given.
pub struct KernelReply {
    /// The trap's native failure signal.
    pub failed: bool,
    /// The raw word the kernel left in the return register, before
    /// normalization.
    pub result: usize,
    /// The words the kernel left in the clobbered registers, indexed by
    /// register number.
    pub scratch: Vec<usize>,
}

/// Mathematical view of a [`KernelReply`].
#[verifier::ext_equal]
pub struct ReplyView {
    pub failed: bool,
    pub result: usize,
    pub scratch: Seq<usize>,
}

impl ReplyView {
    /// A well-formed reply carries one scratch word per general-purpose
    /// register.
    pub open spec fn wf(self) -> bool {
        self.scratch.len() == GPR_COUNT
    }
}

impl View for KernelReply {
    type V = ReplyView;

    open spec fn view(&self) -> ReplyView {
        ReplyView { failed: self.failed, result: self.result, scratch: self.scratch@ }
    }
}

impl KernelReply {
    /// A well-formed reply carries one scratch word per general-purpose
    /// register.
    pub open spec fn wf(self) -> bool {
        self@.wf()
    }
}

/// Register `r` at the instant the trap executes: the syscall identifier in
/// the number register, each carried argument word in its assigned register,
/// and the caller's value everywhere else.
pub open spec fn entry_gpr(pre: MachineView, n: usize, args: Seq<usize>, r: int) -> usize {
    if r == NUMBER_REGISTER {
        n
    } else if FIRST_ARGUMENT_REGISTER <= r < FIRST_ARGUMENT_REGISTER + args.len() {
        args[r - FIRST_ARGUMENT_REGISTER]
    } else {
        pre.gprs[r]
    }
}

/// The machine at the instant the trap executes.
pub open spec fn entry_view(pre: MachineView, n: usize, args: Seq<usize>) -> MachineView {
    MachineView {
        gprs: Seq::new(GPR_COUNT as nat, |r: int| entry_gpr(pre, n, args, r)),
        summary_overflow: pre.summary_overflow,
    }
}

/// Register `r` after the kernel has answered: the normalized result in the
/// return register, the kernel's scratch word in every other clobbered
/// register, and the entry value everywhere else.
pub open spec fn after_gpr(entry: MachineView, reply: ReplyView, r: int) -> usize {
    if r == RETURN_REGISTER {
        normalized_word(reply.result, reply.failed)
    } else if clobbered(r) {
        reply.scratch[r]
    } else {
        entry.gprs[r]
    }
}

/// The machine after the kernel has answered; the summary-overflow bit holds
/// the trap's failure signal.
pub open spec fn after_view(entry: MachineView, reply: ReplyView) -> MachineView {
    MachineView {
        gprs: Seq::new(GPR_COUNT as nat, |r: int| after_gpr(entry, reply, r)),
        summary_overflow: reply.failed,
    }
}

/// The whole invocation: bind the identifier and the argument words, trap, let
/// the kernel answer with `reply`, and normalize the result.
pub open spec fn machine_after(
    pre: MachineView,
    n: usize,
    args: Seq<usize>,
    reply: ReplyView,
) -> MachineView {
    after_view(entry_view(pre, n, args), reply)
}

/// The normalized word an invocation returns, written as a function of all of
/// the invocation's inputs: it depends on the kernel's reply alone.
pub open spec fn invocation_return(
    pre: MachineView,
    n: usize,
    args: Seq<usize>,
    reply: ReplyView,
) -> usize {
    normalized_word(reply.result, reply.failed)
}

/// Places the syscall identifier and the argument words into the registers the
/// convention assigns them, leaving every other register untouched.
pub fn load_kernel_entry(m: &mut MachineState, n: usize, args: &Vec<usize>)
    requires
        old(m).wf(),
        args@.len() <= MAX_ARITY,
    ensures
        final(m).wf(),
        final(m)@ == entry_view(old(m)@, n, args@),
{
    m.gprs[NUMBER_REGISTER] = n;
    let mut k: usize = 0;
    while k < args.len()
        invariant
            old(m).wf(),
            args@.len() <= MAX_ARITY,
            k <= args@.len(),
            m.gprs@.len() == GPR_COUNT,
            m.summary_overflow == old(m).summary_overflow,
            forall|r: int|
                0 <= r < GPR_COUNT ==> m.gprs@[r] == (if r == NUMBER_REGISTER {
                    n
                } else if FIRST_ARGUMENT_REGISTER <= r < FIRST_ARGUMENT_REGISTER + k {
                    args@[r - FIRST_ARGUMENT_REGISTER]
                } else {
                    old(m).gprs@[r]
                }),
        decreases args@.len() - k,
    {
        m.gprs[FIRST_ARGUMENT_REGISTER + k] = args[k];
        k = k + 1;
    }
    proof {
        assert(m@.gprs =~= entry_view(old(m)@, n, args@).gprs);
        assert(m@ =~= entry_view(old(m)@, n, args@));
    }
}

/// Completes an invocation once the kernel has answered: writes the kernel's
/// scratch words into the clobbered registers, the normalized result into the
/// return register, the failure signal into the summary-overflow bit, and
/// returns the normalized word. Every register outside the clobber set keeps
/// the value it held at the trap.
pub fn apply_kernel_reply(m: &mut MachineState, reply: &KernelReply) -> (ret: usize)
    requires
        old(m).wf(),
        reply.wf(),
    ensures
        final(m).wf(),
        final(m)@ == after_view(old(m)@, reply@),
        ret == normalized_word(reply.result, reply.failed),
{
    let ret = normalize_return(reply.result, reply.failed);
    m.gprs[NUMBER_REGISTER] = reply.scratch[NUMBER_REGISTER];
    let mut r: usize = FIRST_ARGUMENT_REGISTER;
    while r <= LAST_CLOBBERED_REGISTER
        invariant
            old(m).wf(),
            reply.wf(),
            FIRST_ARGUMENT_REGISTER <= r <= LAST_CLOBBERED_REGISTER + 1,
            m.gprs@.len() == GPR_COUNT,
            m.summary_overflow == old(m).summary_overflow,
            forall|j: int|
                0 <= j < GPR_COUNT ==> m.gprs@[j] == (if j == NUMBER_REGISTER {
                    reply.scratch@[j]
                } else if FIRST_ARGUMENT_REGISTER <= j < r {
                    reply.scratch@[j]
                } else {
                    old(m).gprs@[j]
                }),
        decreases LAST_CLOBBERED_REGISTER + 1 - r,
    {
        m.gprs[r] = reply.scratch[r];
        r = r + 1;
    }
    m.gprs[RETURN_REGISTER] = ret;
    m.summary_overflow = reply.failed;
    proof {
        assert(m@.gprs =~= after_view(old(m)@, reply@).gprs);
        assert(m@ =~= after_view(old(m)@, reply@));
    }
    ret
}

/// What the kernel receives is determined by the identifier and the argument
/// words alone: at the trap, the number register holds the identifier, each
/// carried argument sits in its assigned register, the registers of arguments
/// the invocation does not carry still hold the caller's values — the binding
/// never reads or writes them — and so does every register the binding does
/// not name.
pub proof fn lemma_entry_register_binding(pre: MachineView, n: usize, args: Seq<usize>)
    requires
        pre.wf(),
        args.len() <= MAX_ARITY,
    ensures
        entry_view(pre, n, args).gprs[NUMBER_REGISTER as int] == n,
        forall|k: int|
            0 <= k < args.len() ==> entry_view(pre, n, args).gprs[argument_register(k)]
                == args[k],
        forall|k: int|
            args.len() <= k < MAX_ARITY ==> entry_view(pre, n, args).gprs[argument_register(k)]
                == pre.gprs[argument_register(k)],
        forall|r: int|
            0 <= r < GPR_COUNT && r != NUMBER_REGISTER && !(FIRST_ARGUMENT_REGISTER <= r
                < FIRST_ARGUMENT_REGISTER + args.len()) ==> entry_view(pre, n, args).gprs[r]
                == pre.gprs[r],
{
}

/// Register preservation: a register outside the clobber set holds, after the
/// invocation, exactly the value it held before — whatever the kernel
/// answered.
pub proof fn lemma_unclobbered_register_preserved(
    pre: MachineView,
    n: usize,
    args: Seq<usize>,
    reply: ReplyView,
    r: int,
)
    requires
        pre.wf(),
        args.len() <= MAX_ARITY,
        0 <= r < GPR_COUNT,
        !clobbered(r),
    ensures
        machine_after(pre, n, args, reply).gprs[r] == pre.gprs[r],
{
    // Binding touches only registers inside the clobber set, so an
    // unclobbered register is neither written before the trap nor
    // overwritten by the kernel's answer.
    crate::abi::lemma_bound_registers_are_clobbered();
}

/// Repeatability of an idempotent service: no state this layer keeps can make
/// a second invocation answer differently. When the kernel answers a repeated
/// invocation exactly as it answered the first — as a side-effect-free kernel
/// service does — the normalized word is the same, although the first
/// invocation changed the machine's registers.
pub proof fn lemma_repeated_invocation_same_result(
    pre: MachineView,
    n: usize,
    args: Seq<usize>,
    reply: ReplyView,
)
    ensures
        invocation_return(machine_after(pre, n, args, reply), n, args, reply)
            == invocation_return(pre, n, args, reply),
{
}

} // verus!
