//! The host side of a test: how QEMU's exit status becomes the status the
//! cargo test runner sees.
use vstd::prelude::*;
use crate::QemuExitCode;

verus! {

/// The status QEMU exits with when the kernel writes `value` to the
/// `isa-debug-exit` device: `(value << 1) | 1`.
pub open spec fn qemu_status(value: u32) -> int {
    2 * value + 1
}

/// The status of a QEMU whose test kernel reported success: `(0x10 << 1) | 1`.
pub const QEMU_TEST_SUCCESS: i32 = 33;

/// The status QEMU exits with when the kernel writes `value` to the exit device.
pub fn qemu_exit_status(value: u32) -> (r: i32)
    requires
        value < 0x4000_0000,
    ensures
        r == qemu_status(value),
{
    let v = value as i32;
    assert((v << 1) | 1 == 2 * v + 1) by (bit_vector)
        requires
            0 <= v < 0x4000_0000,
    ;
    (v << 1) | 1
}

/// The status the runner exits with, given whether it booted a test binary
/// and the status QEMU exited with (`None` when QEMU was killed by a
/// signal, which counts as status 1). For a test binary, 0 means that the
/// kernel reported success and 1 anything else; otherwise QEMU's status
/// is passed on.
pub fn runner_exit_code(is_test: bool, qemu: Option<i32>) -> (r: i32)
    ensures
        r == (if is_test {
            if qemu == Some(QEMU_TEST_SUCCESS) { 0i32 } else { 1i32 }
        } else {
            match qemu {
                Some(code) => code,
                None => 1i32,
            }
        }),
{
    let code = match qemu {
        Some(c) => c,
        None => 1,
    };
    if is_test {
        if code == QEMU_TEST_SUCCESS {
            0
        } else {
            1
        }
    } else {
        code
    }
}

/// A test binary passes, as cargo sees it, exactly when the kernel shut
/// QEMU down with the success code.
pub proof fn lemma_test_outcome_reaches_cargo(exit: QemuExitCode)
    ensures
        qemu_status(exit.code()) == QEMU_TEST_SUCCESS <==> exit == QemuExitCode::Success,
        (if qemu_status(exit.code()) == QEMU_TEST_SUCCESS { 0i32 } else { 1i32 }) == (if exit == QemuExitCode::Success { 0i32 } else { 1i32 }),
{
}

} // verus!
