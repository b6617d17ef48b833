use syscalls::invoke::{syscall0, syscall1, syscall2, syscall3, syscall4, syscall5, syscall6};
use syscalls::machine::{apply_kernel_reply, load_kernel_entry, KernelReply, MachineState};

/// A machine whose register `r` holds the sentinel `1000 + r`.
fn sentinel_machine() -> MachineState {
    let gprs: Vec<usize> = (0..32).map(|r| 1000 + r).collect();
    MachineState { gprs, summary_overflow: false }
}

/// A kernel reply that leaves `7000 + r` in each clobbered register.
fn reply(failed: bool, result: usize) -> KernelReply {
    let scratch: Vec<usize> = (0..32).map(|r| 7000 + r).collect();
    KernelReply { failed, result, scratch }
}

#[test]
fn binding_loads_identifier_and_arguments() {
    let mut m = sentinel_machine();
    let args: Vec<usize> = vec![501, 502, 503];
    load_kernel_entry(&mut m, 64, &args);
    assert_eq!(m.gprs[0], 64);
    assert_eq!(m.gprs[3], 501);
    assert_eq!(m.gprs[4], 502);
    assert_eq!(m.gprs[5], 503);
    for r in 6..32usize {
        assert_eq!(m.gprs[r], 1000 + r);
    }
    for r in 1..3usize {
        assert_eq!(m.gprs[r], 1000 + r);
    }
}

#[test]
fn binding_leaves_unused_argument_registers_alone() {
    let mut m = sentinel_machine();
    let args: Vec<usize> = vec![501, 502];
    load_kernel_entry(&mut m, 64, &args);
    // Arguments three through six were not carried, so r5 through r8 still
    // hold the caller's values at the instant of the trap.
    for r in 5..9usize {
        assert_eq!(m.gprs[r], 1000 + r);
    }
}

#[test]
fn reply_fills_clobbered_registers_and_normalizes() {
    let mut m = sentinel_machine();
    let rep = reply(true, 9);
    let ret = apply_kernel_reply(&mut m, &rep);
    assert_eq!(ret, 9usize.wrapping_neg());
    assert_eq!(m.gprs[3], ret);
    assert_eq!(m.gprs[0], 7000);
    for r in 4..13usize {
        assert_eq!(m.gprs[r], 7000 + r);
    }
    for r in 13..32usize {
        assert_eq!(m.gprs[r], 1000 + r);
    }
    assert!(m.summary_overflow);
}

#[test]
fn get_process_id_twice_returns_same_positive_value() {
    // A known-idempotent service: querying the current process identifier.
    // The kernel answers identically on both invocations, so both return the
    // same positive value.
    let mut m = sentinel_machine();
    let rep = reply(false, 4242);
    let first = syscall0(&mut m, 20, &rep);
    let second = syscall0(&mut m, 20, &rep);
    assert_eq!(first, 4242);
    assert_eq!(second, first);
    assert!((first as isize) > 0);
}

#[test]
fn close_bad_descriptor_returns_negative_ebadf() {
    // A descriptor-closing service rejecting an invalid descriptor: the kernel
    // signals failure with raw error word 9 ("bad file descriptor"), and the
    // caller sees its negation.
    let mut m = sentinel_machine();
    let rep = reply(true, 9);
    let ret = syscall1(&mut m, 6, 9999, &rep);
    assert!((ret as isize) < 0);
    assert_eq!(ret.wrapping_neg(), 9);
    assert_eq!(m.gprs[3], ret);
    assert!(m.summary_overflow);
}

#[test]
fn unclobbered_registers_survive_a_full_arity_invocation() {
    let mut m = sentinel_machine();
    let rep = reply(false, 1);
    let ret = syscall6(&mut m, 4, 11, 22, 33, 44, 55, 66, &rep);
    assert_eq!(ret, 1);
    // r1, r2, and r13 through r31 lie outside the clobber set and keep their
    // sentinels; everything the kernel may touch holds its reply.
    assert_eq!(m.gprs[1], 1001);
    assert_eq!(m.gprs[2], 1002);
    for r in 13..32usize {
        assert_eq!(m.gprs[r], 1000 + r);
    }
    assert_eq!(m.gprs[0], 7000);
    assert_eq!(m.gprs[3], 1);
    for r in 4..13usize {
        assert_eq!(m.gprs[r], 7000 + r);
    }
    assert!(!m.summary_overflow);
}

#[test]
fn every_arity_normalizes_success_and_failure_alike() {
    let ok = reply(false, 77);
    let err = reply(true, 22);
    let expected_err = 22usize.wrapping_neg();

    let mut m = sentinel_machine();
    assert_eq!(syscall0(&mut m, 1, &ok), 77);
    assert_eq!(syscall1(&mut m, 1, 10, &ok), 77);
    assert_eq!(syscall2(&mut m, 1, 10, 20, &ok), 77);
    assert_eq!(syscall3(&mut m, 1, 10, 20, 30, &ok), 77);
    assert_eq!(syscall4(&mut m, 1, 10, 20, 30, 40, &ok), 77);
    assert_eq!(syscall5(&mut m, 1, 10, 20, 30, 40, 50, &ok), 77);
    assert_eq!(syscall6(&mut m, 1, 10, 20, 30, 40, 50, 60, &ok), 77);

    assert_eq!(syscall0(&mut m, 1, &err), expected_err);
    assert_eq!(syscall1(&mut m, 1, 10, &err), expected_err);
    assert_eq!(syscall2(&mut m, 1, 10, 20, &err), expected_err);
    assert_eq!(syscall3(&mut m, 1, 10, 20, 30, &err), expected_err);
    assert_eq!(syscall4(&mut m, 1, 10, 20, 30, 40, &err), expected_err);
    assert_eq!(syscall5(&mut m, 1, 10, 20, 30, 40, 50, &err), expected_err);
    assert_eq!(syscall6(&mut m, 1, 10, 20, 30, 40, 50, 60, &err), expected_err);
}

#[test]
fn summary_overflow_reflects_the_failure_signal() {
    let mut m = sentinel_machine();
    syscall0(&mut m, 20, &reply(true, 1));
    assert!(m.summary_overflow);
    syscall0(&mut m, 20, &reply(false, 1));
    assert!(!m.summary_overflow);
}
