//! The verified core of a small x86_64 kernel: the boot-time physical frame
//! allocator, the software text console drawn on a pixel framebuffer, the
//! interrupt bookkeeping and the test harness protocol.
pub mod memory;
pub mod framebuffer;
pub mod interrupts;
pub mod runner;

use vstd::prelude::*;
use crate::interrupts::{IdtEntry, idt_entries, init_idt, PIC_1_OFFSET, PIC_2_OFFSET};
use crate::memory::{BootInfoFrameAllocator, MemoryRegion, memory_map_valid};

verus! {

/// The I/O port of QEMU's `isa-debug-exit` device.
pub const QEMU_EXIT_PORT: u16 = 0xf4;

/// The outcome a test kernel reports to QEMU when it shuts the machine down.
#[derive(Clone, Copy, PartialEq, Eq, Structural, Debug)]
pub enum QemuExitCode {
    Success,
    Failed,
}

impl QemuExitCode {
    /// The value written to the exit device.
    pub open spec fn code(self) -> u32 {
        match self {
            QemuExitCode::Success => 0x10,
            QemuExitCode::Failed => 0x11,
        }
    }

    /// The value written to the exit device.
    pub fn as_u32(self) -> (r: u32)
        ensures
            r == self.code(),
    {
        match self {
            QemuExitCode::Success => 0x10,
            QemuExitCode::Failed => 0x11,
        }
    }
}

/// A 32-bit write to an I/O port.
#[derive(Clone, Copy, PartialEq, Eq, Structural, Debug)]
pub struct PortWrite {
    pub port: u16,
    pub value: u32,
}

/// The port write that makes QEMU exit with `exit_code`, standing in for a
/// shutdown in tests.
pub fn exit_qemu(exit_code: QemuExitCode) -> (w: PortWrite)
    ensures
        w == (PortWrite { port: QEMU_EXIT_PORT, value: exit_code.code() }),
{
    PortWrite { port: QEMU_EXIT_PORT, value: exit_code.as_u32() }
}

/// A step of bringing up the kernel.
#[derive(Debug)]
pub enum InitStep {
    /// Load the segment descriptors and the task state segment, whose
    /// interrupt stack the double fault handler runs on.
    LoadGdt,
    /// Install the interrupt descriptor table with these entries.
    LoadIdt(Vec<IdtEntry>),
    /// Initialize the two chained interrupt controllers, remapping their
    /// lines to the vectors from these offsets on.
    InitPics { primary_offset: u8, secondary_offset: u8 },
    /// Make this allocator the global frame allocator.
    InstallFrameAllocator(BootInfoFrameAllocator),
    /// Let the CPU take hardware interrupts.
    EnableInterrupts,
}

/// The bring-up steps, in order: the descriptor table needs the segments;
/// the interrupt controllers are remapped onto the vectors the table
/// routes; the global frame allocator is set up over the boot memory map;
/// and only then are hardware interrupts let in.
pub open spec fn init_plan_ok(steps: Seq<InitStep>, memory_map: Seq<MemoryRegion>) -> bool {
    &&& steps.len() == 5
    &&& steps[0] is LoadGdt
    &&& steps[1] matches InitStep::LoadIdt(entries) && entries@ == idt_entries()
    &&& steps[2] == (InitStep::InitPics { primary_offset: PIC_1_OFFSET, secondary_offset: PIC_2_OFFSET })
    &&& steps[3] matches InitStep::InstallFrameAllocator(a) && a.wf() && a.regions() == memory_map
        && a.cursor() == 0
    &&& steps[4] is EnableInterrupts
}

/// Brings up what the kernel needs before anything else can run safely:
/// segment and task state descriptors first, then the interrupt handlers
/// that depend on them, the interrupt controllers, the global frame
/// allocator over `memory_map`, and finally hardware interrupts.
pub fn init(memory_map: Vec<MemoryRegion>) -> (steps: Vec<InitStep>)
    requires
        memory_map_valid(memory_map@),
    ensures
        init_plan_ok(steps@, memory_map@),
{
    let ghost map = memory_map@;
    let mut steps: Vec<InitStep> = Vec::new();
    steps.push(InitStep::LoadGdt);
    steps.push(InitStep::LoadIdt(init_idt()));
    steps.push(InitStep::InitPics { primary_offset: PIC_1_OFFSET, secondary_offset: PIC_2_OFFSET });
    steps.push(InitStep::InstallFrameAllocator(BootInfoFrameAllocator::init(memory_map)));
    steps.push(InitStep::EnableInterrupts);
    proof {
        assert(steps@[2] == (InitStep::InitPics { primary_offset: PIC_1_OFFSET, secondary_offset: PIC_2_OFFSET }));
    }
    steps
}

/// A step of a test run.
#[derive(Clone, Copy, PartialEq, Eq, Structural, Debug)]
pub enum HarnessAction {
    /// Report how many tests will run.
    Announce(usize),
    /// Run the test at this index, reporting its name and then `[ok]`.
    Run(usize),
    /// Report that the running test failed.
    ReportFailure,
    /// Shut QEMU down with this outcome.
    Exit(QemuExitCode),
}

/// A run of `n` tests: the count, each test once in order, then success.
pub open spec fn test_plan(n: usize) -> Seq<HarnessAction> {
    seq![HarnessAction::Announce(n)] + Seq::new(n as nat, |i: int| HarnessAction::Run(i as usize))
        + seq![HarnessAction::Exit(QemuExitCode::Success)]
}

/// What happens when a test panics: the failure is reported and QEMU is
/// shut down with the failure code.
pub open spec fn panic_plan() -> Seq<HarnessAction> {
    seq![HarnessAction::ReportFailure, HarnessAction::Exit(QemuExitCode::Failed)]
}

/// The test runner: announces the number of tests, runs every test once in
/// order, then shuts QEMU down with the success code (there is no OS
/// underneath to return to).
pub fn test_runner(test_count: usize) -> (plan: Vec<HarnessAction>)
    requires
        test_count < usize::MAX - 1,
    ensures
        plan@ == test_plan(test_count),
{
    let mut plan: Vec<HarnessAction> = Vec::new();
    plan.push(HarnessAction::Announce(test_count));
    let mut i: usize = 0;
    while i < test_count
        invariant
            0 <= i <= test_count,
            plan@ == seq![HarnessAction::Announce(test_count)] + Seq::new(i as nat, |k: int| HarnessAction::Run(k as usize)),
        decreases test_count - i,
    {
        plan.push(HarnessAction::Run(i));
        proof {
            assert(seq![HarnessAction::Announce(test_count)] + Seq::new((i + 1) as nat, |k: int| HarnessAction::Run(k as usize))
                =~= (seq![HarnessAction::Announce(test_count)] + Seq::new(i as nat, |k: int| HarnessAction::Run(k as usize))).push(HarnessAction::Run(i)));
        }
        i = i + 1;
    }
    plan.push(HarnessAction::Exit(QemuExitCode::Success));
    proof {
        assert(plan@ =~= test_plan(test_count));
    }
    plan
}

/// The panic handler of test builds: reports the failure and shuts QEMU
/// down with the failure code, so that the test run is seen to fail.
pub fn test_panic_handler() -> (plan: Vec<HarnessAction>)
    ensures
        plan@ == panic_plan(),
{
    let mut plan: Vec<HarnessAction> = Vec::new();
    plan.push(HarnessAction::ReportFailure);
    plan.push(HarnessAction::Exit(QemuExitCode::Failed));
    proof {
        assert(plan@ =~= panic_plan());
    }
    plan
}

/// In a run of `n` tests every test runs exactly once, in order, after the
/// announcement, and the run ends by exiting with success.
pub proof fn lemma_test_plan_runs_each_test_once(n: usize, t: usize)
    requires
        t < n,
    ensures
        test_plan(n).len() == n + 2,
        test_plan(n)[0] == HarnessAction::Announce(n),
        test_plan(n)[t + 1] == HarnessAction::Run(t),
        test_plan(n).last() == HarnessAction::Exit(QemuExitCode::Success),
        forall|k: int| 0 <= k < test_plan(n).len() && k != t + 1 ==> test_plan(n)[k] != HarnessAction::Run(t),
{
    assert(test_plan(n)[t + 1] == HarnessAction::Run(t));
    assert forall|k: int| 0 <= k < test_plan(n).len() && k != t + 1 implies test_plan(n)[k] != HarnessAction::Run(t) by {
        if 1 <= k <= n {
            assert(test_plan(n)[k] == HarnessAction::Run((k - 1) as usize));
        }
    }
}

} // verus!
