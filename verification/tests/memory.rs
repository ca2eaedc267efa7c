use kernel::memory::{BootInfoFrameAllocator, Frame, MemoryRegion, MemoryRegionKind};

fn region(start: u64, end: u64, kind: MemoryRegionKind) -> MemoryRegion {
    MemoryRegion { start, end, kind }
}

/// A map shaped like one from the bootloader: reserved areas between two
/// usable regions, the first of which starts off a frame boundary.
fn sample_map() -> Vec<MemoryRegion> {
    vec![
        region(0x0, 0x1000, MemoryRegionKind::Bootloader),
        region(0x1234, 0x5000, MemoryRegionKind::Usable),
        region(0x5000, 0x8000, MemoryRegionKind::UnknownUefi(7)),
        region(0x8000, 0x2_0000, MemoryRegionKind::Usable),
        region(0x2_0000, 0x3_0000, MemoryRegionKind::UnknownBios(2)),
    ]
}

#[test]
fn test_allocate_frames_distinct_and_aligned() {
    const N: usize = 16;
    let mut allocator = BootInfoFrameAllocator::init(sample_map());
    let mut frames: Vec<Frame> = Vec::new();
    for _ in 0..N {
        frames.push(allocator.allocate_frame().expect("ran out of usable frames"));
    }
    for (i, frame) in frames.iter().enumerate() {
        assert_eq!(frame.start_address() % 4096, 0);
        assert!(!frames[..i].contains(frame), "frame {:?} was handed out twice", frame);
    }
}

#[test]
fn test_allocate_across_region_boundary() {
    let memory_map = sample_map();
    let mut usable_regions = memory_map.iter().filter(|r| r.kind == MemoryRegionKind::Usable);
    let first_region = *usable_regions.next().expect("no usable region in memory map");
    let second_region = *usable_regions.next().expect("need at least two usable regions");

    let first_region_frame_count = {
        let aligned_start = first_region.start.next_multiple_of(4096);
        (first_region.end - aligned_start) / 4096
    };

    let mut allocator = BootInfoFrameAllocator::init(memory_map);
    let mut crossed_into_second_region = false;
    for _ in 0..=first_region_frame_count {
        let addr = allocator
            .allocate_frame()
            .expect("ran out of usable frames before crossing the region boundary")
            .start_address();
        assert!(
            (first_region.start..first_region.end).contains(&addr)
                || (second_region.start..second_region.end).contains(&addr),
            "frame {:#x} came from neither the first nor second usable region",
            addr
        );
        crossed_into_second_region |= (second_region.start..second_region.end).contains(&addr);
    }
    assert!(crossed_into_second_region, "expected the bump cursor to cross into the second usable region");
}

#[test]
fn frames_come_in_map_order() {
    let mut allocator = BootInfoFrameAllocator::init(sample_map());
    let expected: Vec<u64> = vec![0x2000, 0x3000, 0x4000, 0x8000, 0x9000];
    for addr in expected {
        assert_eq!(allocator.allocate_frame(), Some(Frame { start: addr }));
    }
    assert_eq!(allocator.allocated(), 5);
}

#[test]
fn exhausted_map_yields_none_and_cursor_still_moves() {
    let map = vec![region(0x1000, 0x2800, MemoryRegionKind::Usable)];
    let mut allocator = BootInfoFrameAllocator::init(map);
    assert_eq!(allocator.allocate_frame(), Some(Frame { start: 0x1000 }));
    // The region ends inside its second frame: that frame is not whole, so
    // it is not handed out.
    assert_eq!(allocator.allocate_frame(), None);
    assert_eq!(allocator.allocate_frame(), None);
    assert_eq!(allocator.allocated(), 3);
}

#[test]
fn only_usable_regions_give_frames() {
    let map = vec![
        region(0x0, 0x10_0000, MemoryRegionKind::Bootloader),
        region(0x10_0000, 0x20_0000, MemoryRegionKind::UnknownUefi(3)),
    ];
    let mut allocator = BootInfoFrameAllocator::init(map);
    assert_eq!(allocator.allocate_frame(), None);
}

#[test]
fn empty_and_inverted_regions_give_no_frames() {
    let map = vec![
        region(0x5000, 0x5000, MemoryRegionKind::Usable),
        region(0x9001, 0x9002, MemoryRegionKind::Usable),
        region(0x8000, 0x7000, MemoryRegionKind::Usable),
        region(0xa000, 0xb000, MemoryRegionKind::Usable),
    ];
    let allocator = BootInfoFrameAllocator::init(map);
    assert_eq!(allocator.nth_usable_frame(0), Some(Frame { start: 0xa000 }));
    assert_eq!(allocator.nth_usable_frame(1), None);
}

#[test]
fn partial_frame_at_region_end_is_skipped() {
    let map = vec![
        region(0x1000, 0x2800, MemoryRegionKind::Usable),
        region(0x2800, 0x3000, MemoryRegionKind::Bootloader),
        region(0x3000, 0x5000, MemoryRegionKind::Usable),
    ];
    let mut allocator = BootInfoFrameAllocator::init(map);
    assert_eq!(allocator.allocate_frame(), Some(Frame { start: 0x1000 }));
    assert_eq!(allocator.allocate_frame(), Some(Frame { start: 0x3000 }));
    assert_eq!(allocator.allocate_frame(), Some(Frame { start: 0x4000 }));
    assert_eq!(allocator.allocate_frame(), None);
}
