//! The trap invokers, one per arity from zero to six.
//!
//! Each invoker binds the syscall identifier and exactly its arity's argument
//! words into their convention registers, executes the trap — whose outcome
//! the caller supplies as a [`KernelReply`], the kernel being outside the
//! model — and returns the normalized word: the kernel's raw result, negated
//! when the trap signaled failure. Every register outside the clobber set is
//! preserved, whatever the kernel answered.

use vstd::prelude::*;

use crate::abi::{clobbered, GPR_COUNT, RETURN_REGISTER};
use crate::machine::{
    apply_kernel_reply, lemma_unclobbered_register_preserved, load_kernel_entry, machine_after,
    KernelReply, MachineState,
};
use crate::word::normalized_word;

verus! {

/// Invokes kernel service `n` with no argument words.
pub fn syscall0(m: &mut MachineState, n: usize, reply: &KernelReply) -> (ret: usize)
    requires
        old(m).wf(),
        reply.wf(),
    ensures
        final(m).wf(),
        ret == normalized_word(reply.result, reply.failed),
        final(m)@ == machine_after(old(m)@, n, Seq::<usize>::empty(), reply@),
        forall|r: int|
            0 <= r < GPR_COUNT && !clobbered(r) ==> final(m).gprs@[r] == old(m).gprs@[r],
        final(m).gprs@[RETURN_REGISTER as int] == ret,
        final(m).summary_overflow == reply.failed,
{
    let args: Vec<usize> = Vec::new();
    proof {
        assert(args@ =~= Seq::<usize>::empty());
    }
    load_kernel_entry(m, n, &args);
    let ret = apply_kernel_reply(m, reply);
    proof {
        assert forall|r: int| 0 <= r < GPR_COUNT && !clobbered(r) implies m.gprs@[r] == old(
            m,
        ).gprs@[r] by {
            lemma_unclobbered_register_preserved(old(m)@, n, args@, reply@, r);
        }
    }
    ret
}

/// Invokes kernel service `n` with one argument word.
pub fn syscall1(m: &mut MachineState, n: usize, arg1: usize, reply: &KernelReply) -> (ret: usize)
    requires
        old(m).wf(),
        reply.wf(),
    ensures
        final(m).wf(),
        ret == normalized_word(reply.result, reply.failed),
        final(m)@ == machine_after(old(m)@, n, seq![arg1], reply@),
        forall|r: int|
            0 <= r < GPR_COUNT && !clobbered(r) ==> final(m).gprs@[r] == old(m).gprs@[r],
        final(m).gprs@[RETURN_REGISTER as int] == ret,
        final(m).summary_overflow == reply.failed,
{
    let mut args: Vec<usize> = Vec::new();
    args.push(arg1);
    proof {
        assert(args@ =~= seq![arg1]);
    }
    load_kernel_entry(m, n, &args);
    let ret = apply_kernel_reply(m, reply);
    proof {
        assert forall|r: int| 0 <= r < GPR_COUNT && !clobbered(r) implies m.gprs@[r] == old(
            m,
        ).gprs@[r] by {
            lemma_unclobbered_register_preserved(old(m)@, n, args@, reply@, r);
        }
    }
    ret
}

/// Invokes kernel service `n` with two argument words.
pub fn syscall2(
    m: &mut MachineState,
    n: usize,
    arg1: usize,
    arg2: usize,
    reply: &KernelReply,
) -> (ret: usize)
    requires
        old(m).wf(),
        reply.wf(),
    ensures
        final(m).wf(),
        ret == normalized_word(reply.result, reply.failed),
        final(m)@ == machine_after(old(m)@, n, seq![arg1, arg2], reply@),
        forall|r: int|
            0 <= r < GPR_COUNT && !clobbered(r) ==> final(m).gprs@[r] == old(m).gprs@[r],
        final(m).gprs@[RETURN_REGISTER as int] == ret,
        final(m).summary_overflow == reply.failed,
{
    let mut args: Vec<usize> = Vec::new();
    args.push(arg1);
    args.push(arg2);
    proof {
        assert(args@ =~= seq![arg1, arg2]);
    }
    load_kernel_entry(m, n, &args);
    let ret = apply_kernel_reply(m, reply);
    proof {
        assert forall|r: int| 0 <= r < GPR_COUNT && !clobbered(r) implies m.gprs@[r] == old(
            m,
        ).gprs@[r] by {
            lemma_unclobbered_register_preserved(old(m)@, n, args@, reply@, r);
        }
    }
    ret
}

/// Invokes kernel service `n` with three argument words.
pub fn syscall3(
    m: &mut MachineState,
    n: usize,
    arg1: usize,
    arg2: usize,
    arg3: usize,
    reply: &KernelReply,
) -> (ret: usize)
    requires
        old(m).wf(),
        reply.wf(),
    ensures
        final(m).wf(),
        ret == normalized_word(reply.result, reply.failed),
        final(m)@ == machine_after(old(m)@, n, seq![arg1, arg2, arg3], reply@),
        forall|r: int|
            0 <= r < GPR_COUNT && !clobbered(r) ==> final(m).gprs@[r] == old(m).gprs@[r],
        final(m).gprs@[RETURN_REGISTER as int] == ret,
        final(m).summary_overflow == reply.failed,
{
    let mut args: Vec<usize> = Vec::new();
    args.push(arg1);
    args.push(arg2);
    args.push(arg3);
    proof {
        assert(args@ =~= seq![arg1, arg2, arg3]);
    }
    load_kernel_entry(m, n, &args);
    let ret = apply_kernel_reply(m, reply);
    proof {
        assert forall|r: int| 0 <= r < GPR_COUNT && !clobbered(r) implies m.gprs@[r] == old(
            m,
        ).gprs@[r] by {
            lemma_unclobbered_register_preserved(old(m)@, n, args@, reply@, r);
        }
    }
    ret
}

/// Invokes kernel service `n` with four argument words.
pub fn syscall4(
    m: &mut MachineState,
    n: usize,
    arg1: usize,
    arg2: usize,
    arg3: usize,
    arg4: usize,
    reply: &KernelReply,
) -> (ret: usize)
    requires
        old(m).wf(),
        reply.wf(),
    ensures
        final(m).wf(),
        ret == normalized_word(reply.result, reply.failed),
        final(m)@ == machine_after(old(m)@, n, seq![arg1, arg2, arg3, arg4], reply@),
        forall|r: int|
            0 <= r < GPR_COUNT && !clobbered(r) ==> final(m).gprs@[r] == old(m).gprs@[r],
        final(m).gprs@[RETURN_REGISTER as int] == ret,
        final(m).summary_overflow == reply.failed,
{
    let mut args: Vec<usize> = Vec::new();
    args.push(arg1);
    args.push(arg2);
    args.push(arg3);
    args.push(arg4);
    proof {
        assert(args@ =~= seq![arg1, arg2, arg3, arg4]);
    }
    load_kernel_entry(m, n, &args);
    let ret = apply_kernel_reply(m, reply);
    proof {
        assert forall|r: int| 0 <= r < GPR_COUNT && !clobbered(r) implies m.gprs@[r] == old(
            m,
        ).gprs@[r] by {
            lemma_unclobbered_register_preserved(old(m)@, n, args@, reply@, r);
        }
    }
    ret
}

/// Invokes kernel service `n` with five argument words.
pub fn syscall5(
    m: &mut MachineState,
    n: usize,
    arg1: usize,
    arg2: usize,
    arg3: usize,
    arg4: usize,
    arg5: usize,
    reply: &KernelReply,
) -> (ret: usize)
    requires
        old(m).wf(),
        reply.wf(),
    ensures
        final(m).wf(),
        ret == normalized_word(reply.result, reply.failed),
        final(m)@ == machine_after(old(m)@, n, seq![arg1, arg2, arg3, arg4, arg5], reply@),
        forall|r: int|
            0 <= r < GPR_COUNT && !clobbered(r) ==> final(m).gprs@[r] == old(m).gprs@[r],
        final(m).gprs@[RETURN_REGISTER as int] == ret,
        final(m).summary_overflow == reply.failed,
{
    let mut args: Vec<usize> = Vec::new();
    args.push(arg1);
    args.push(arg2);
    args.push(arg3);
    args.push(arg4);
    args.push(arg5);
    proof {
        assert(args@ =~= seq![arg1, arg2, arg3, arg4, arg5]);
    }
    load_kernel_entry(m, n, &args);
    let ret = apply_kernel_reply(m, reply);
    proof {
        assert forall|r: int| 0 <= r < GPR_COUNT && !clobbered(r) implies m.gprs@[r] == old(
            m,
        ).gprs@[r] by {
            lemma_unclobbered_register_preserved(old(m)@, n, args@, reply@, r);
        }
    }
    ret
}

/// Invokes kernel service `n` with six argument words.
pub fn syscall6(
    m: &mut MachineState,
    n: usize,
    arg1: usize,
    arg2: usize,
    arg3: usize,
    arg4: usize,
    arg5: usize,
    arg6: usize,
    reply: &KernelReply,
) -> (ret: usize)
    requires
        old(m).wf(),
        reply.wf(),
    ensures
        final(m).wf(),
        ret == normalized_word(reply.result, reply.failed),
        final(m)@ == machine_after(old(m)@, n, seq![arg1, arg2, arg3, arg4, arg5, arg6], reply@),
        forall|r: int|
            0 <= r < GPR_COUNT && !clobbered(r) ==> final(m).gprs@[r] == old(m).gprs@[r],
        final(m).gprs@[RETURN_REGISTER as int] == ret,
        final(m).summary_overflow == reply.failed,
{
    let mut args: Vec<usize> = Vec::new();
    args.push(arg1);
    args.push(arg2);
    args.push(arg3);
    args.push(arg4);
    args.push(arg5);
    args.push(arg6);
    proof {
        assert(args@ =~= seq![arg1, arg2, arg3, arg4, arg5, arg6]);
    }
    load_kernel_entry(m, n, &args);
    let ret = apply_kernel_reply(m, reply);
    proof {
        assert forall|r: int| 0 <= r < GPR_COUNT && !clobbered(r) implies m.gprs@[r] == old(
            m,
        ).gprs@[r] by {
            lemma_unclobbered_register_preserved(old(m)@, n, args@, reply@, r);
        }
    }
    ret
}

} // verus!
