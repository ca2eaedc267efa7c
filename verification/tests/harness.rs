use kernel::interrupts::init_idt;
use kernel::memory::{Frame, MemoryRegion, MemoryRegionKind};
use kernel::runner::{qemu_exit_status, runner_exit_code, QEMU_TEST_SUCCESS};
use kernel::{exit_qemu, init, test_panic_handler, test_runner, HarnessAction, InitStep, PortWrite, QemuExitCode};

#[test]
fn trivial_assertion() {
    assert_eq!(1, 1);
}

#[test]
fn exit_codes_and_port() {
    assert_eq!(QemuExitCode::Success.as_u32(), 0x10);
    assert_eq!(QemuExitCode::Failed.as_u32(), 0x11);
    assert_eq!(exit_qemu(QemuExitCode::Failed), PortWrite { port: 0xf4, value: 0x11 });
}

#[test]
fn qemu_status_of_success_is_33() {
    assert_eq!(qemu_exit_status(QemuExitCode::Success.as_u32()), 33);
    assert_eq!(qemu_exit_status(QemuExitCode::Failed.as_u32()), 35);
    assert_eq!(QEMU_TEST_SUCCESS, 33);
}

#[test]
fn runner_maps_test_outcome() {
    assert_eq!(runner_exit_code(true, Some(33)), 0);
    assert_eq!(runner_exit_code(true, Some(35)), 1);
    assert_eq!(runner_exit_code(true, None), 1);
    assert_eq!(runner_exit_code(false, Some(7)), 7);
    assert_eq!(runner_exit_code(false, None), 1);
}

#[test]
fn test_runner_runs_each_test_in_order() {
    let plan = test_runner(3);
    assert_eq!(
        plan,
        vec![
            HarnessAction::Announce(3),
            HarnessAction::Run(0),
            HarnessAction::Run(1),
            HarnessAction::Run(2),
            HarnessAction::Exit(QemuExitCode::Success),
        ]
    );
    assert_eq!(test_runner(0), vec![HarnessAction::Announce(0), HarnessAction::Exit(QemuExitCode::Success)]);
}

#[test]
fn panic_reports_failure() {
    assert_eq!(test_panic_handler(), vec![HarnessAction::ReportFailure, HarnessAction::Exit(QemuExitCode::Failed)]);
}

#[test]
fn init_brings_up_in_order() {
    let map = vec![
        MemoryRegion { start: 0x0, end: 0x1000, kind: MemoryRegionKind::Bootloader },
        MemoryRegion { start: 0x1000, end: 0x3000, kind: MemoryRegionKind::Usable },
    ];
    let steps = init(map);
    assert_eq!(steps.len(), 5);
    assert!(matches!(steps[0], InitStep::LoadGdt));
    match &steps[1] {
        InitStep::LoadIdt(entries) => assert_eq!(entries, &init_idt()),
        other => panic!("unexpected {:?}", other),
    }
    assert!(matches!(steps[2], InitStep::InitPics { primary_offset: 32, secondary_offset: 40 }));
    match &steps[3] {
        InitStep::InstallFrameAllocator(allocator) => {
            assert_eq!(allocator.allocated(), 0);
            assert_eq!(allocator.nth_usable_frame(0), Some(Frame { start: 0x1000 }));
            assert_eq!(allocator.nth_usable_frame(2), None);
        }
        other => panic!("unexpected {:?}", other),
    }
    assert!(matches!(steps[4], InitStep::EnableInterrupts));
}
