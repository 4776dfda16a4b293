use microvm::guest_memory::{
    create_guest_memory, guest_memory_from_uffd, GuestMemoryFromUffdError, GuestRegion,
    GuestRegionUffdMapping, UffdAction, UffdEvent, UffdOptions, UffdPhase,
};
use microvm::vm_state::{GuestMemoryRegionState, GuestMemoryState, HugePageConfig};

/// The regions as they would be mapped, one behind the other.
fn mapped(mem_state: &GuestMemoryState) -> Vec<GuestRegion> {
    mem_state
        .regions
        .iter()
        .map(|region| GuestRegion {
            host_virt_addr: 0x7f00_0000_0000 + region.base_address,
            size: region.size,
        })
        .collect()
}

#[test]
fn test_create_guest_memory() {
    let mem_state = GuestMemoryState {
        regions: vec![GuestMemoryRegionState {
            base_address: 0,
            size: 0x20000,
        }],
    };

    let (_, uffd_regions) =
        create_guest_memory(Ok(mapped(&mem_state)), HugePageConfig::NoHugePages).unwrap();

    assert_eq!(uffd_regions.len(), 1);
    assert_eq!(uffd_regions[0].size, 0x20000);
    assert_eq!(uffd_regions[0].offset, 0);
    assert_eq!(uffd_regions[0].page_size, HugePageConfig::NoHugePages.page_size());
}

fn two_regions() -> Vec<GuestRegion> {
    vec![
        GuestRegion { host_virt_addr: 0x1000, size: 0x3000 },
        GuestRegion { host_virt_addr: 0x9000, size: 0x2000 },
    ]
}

fn two_mappings(page_size: usize) -> Vec<GuestRegionUffdMapping> {
    vec![
        GuestRegionUffdMapping {
            base_host_virt_addr: 0x1000,
            size: 0x3000,
            offset: 0,
            page_size,
            page_size_kib: page_size,
        },
        GuestRegionUffdMapping {
            base_host_virt_addr: 0x9000,
            size: 0x2000,
            offset: 0x3000,
            page_size,
            page_size_kib: page_size,
        },
    ]
}

#[test]
fn regions_follow_one_another_in_the_backend() {
    let (regions, mappings) =
        create_guest_memory(Ok(two_regions()), HugePageConfig::Hugetlbfs2M).unwrap();
    assert_eq!(regions, two_regions());
    assert_eq!(mappings, two_mappings(2 * 1024 * 1024));
}

#[test]
fn memory_that_cannot_be_mapped_is_reported() {
    assert_eq!(
        create_guest_memory(Err("no memory".to_string()), HugePageConfig::NoHugePages),
        Err(GuestMemoryFromUffdError::Restore("no memory".to_string()))
    );
}

fn wanted() -> GuestMemoryState {
    GuestMemoryState {
        regions: vec![
            GuestMemoryRegionState { base_address: 0, size: 0x3000 },
            GuestMemoryRegionState { base_address: 0x8000, size: 0x2000 },
        ],
    }
}

fn step(phase: UffdPhase, event: UffdEvent) -> (UffdPhase, UffdAction) {
    let socket = "/uffd.sock".to_string();
    guest_memory_from_uffd(phase, event, &socket, &wanted(), true, HugePageConfig::NoHugePages)
}

/// Runs a loading in which the work at index `failing` fails.
fn run(failing: usize) -> (Vec<String>, Result<Vec<GuestRegion>, GuestMemoryFromUffdError>) {
    let (mut phase, mut action) = step(UffdPhase::Idle, UffdEvent::Requested);
    let mut done = Vec::new();
    loop {
        let outcome = if done.len() == failing {
            Err("failed".to_string())
        } else {
            Ok(())
        };
        let event = match action {
            UffdAction::MapMemory { regions, track_dirty_pages, huge_pages } => {
                assert_eq!(regions, wanted().regions);
                assert!(track_dirty_pages);
                assert_eq!(huge_pages, HugePageConfig::NoHugePages);
                done.push("map".to_string());
                UffdEvent::MemoryMapped(outcome.map(|_| two_regions()))
            }
            UffdAction::CreateUffd(options) => {
                assert_eq!(
                    options,
                    UffdOptions {
                        event_remove: true,
                        close_on_exec: true,
                        non_blocking: true,
                        user_mode_only: false,
                    }
                );
                done.push("create".to_string());
                UffdEvent::Done(outcome)
            }
            UffdAction::Register(region) => {
                done.push(format!("register {:#x}", region.host_virt_addr));
                UffdEvent::Done(outcome)
            }
            UffdAction::Connect { path } => {
                done.push(format!("connect {path}"));
                UffdEvent::Done(outcome)
            }
            UffdAction::Send(mappings) => {
                assert_eq!(mappings, two_mappings(4096));
                done.push("send".to_string());
                UffdEvent::Done(outcome)
            }
            UffdAction::Finish(outcome) => return (done, outcome),
        };
        let next = step(phase, event);
        phase = next.0;
        action = next.1;
    }
}

#[test]
fn handler_is_told_after_every_region_is_registered() {
    let (done, outcome) = run(usize::MAX);
    assert_eq!(
        done,
        vec!["map", "create", "register 0x1000", "register 0x9000", "connect /uffd.sock", "send"]
    );
    assert_eq!(outcome, Ok(two_regions()));
}

#[test]
fn each_failure_of_a_loading_has_its_error() {
    let text = || "failed".to_string();
    let expected = vec![
        GuestMemoryFromUffdError::Restore(text()),
        GuestMemoryFromUffdError::Create(text()),
        GuestMemoryFromUffdError::Register(text()),
        GuestMemoryFromUffdError::Register(text()),
        GuestMemoryFromUffdError::Connect(text()),
        GuestMemoryFromUffdError::Send(text()),
    ];
    for (failing, error) in expected.into_iter().enumerate() {
        let (done, outcome) = run(failing);
        assert_eq!(done.len(), failing + 1);
        assert_eq!(outcome, Err(error));
    }
}

#[test]
fn loading_without_regions_goes_on_to_the_handler() {
    let (phase, _) = step(UffdPhase::MappingMemory, UffdEvent::MemoryMapped(Ok(vec![])));
    let (_, action) = step(phase, UffdEvent::Done(Ok(())));
    assert!(matches!(action, UffdAction::Connect { .. }));
}
