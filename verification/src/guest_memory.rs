//! Guest memory that a userfaultfd handler populates on demand.

use crate::vm_state::{copy_regions, GuestMemoryRegionState, GuestMemoryState, HugePageConfig};
use vstd::prelude::*;

verus! {

/// A region of guest memory as it is mapped in the host process.
#[derive(Debug, Clone, Copy, PartialEq, Eq, Structural)]
pub struct GuestRegion {
    /// The host virtual address at which the region starts.
    pub host_virt_addr: u64,
    /// The size of the region in bytes.
    pub size: usize,
}

/// The mapping between a host virtual address and the offset in the buffer or file backend for a
/// guest memory region. It tells an external process where to populate the guest memory data.
///
/// The contents of a region of `size` bytes are in the backend at `offset` bytes from the
/// beginning, and are copied to `base_host_virt_addr`.
#[derive(Debug, Clone, Copy, PartialEq, Eq, Structural)]
pub struct GuestRegionUffdMapping {
    /// Base host virtual address where the guest memory contents for this region are copied.
    pub base_host_virt_addr: u64,
    /// Region size.
    pub size: usize,
    /// Offset in the backend file or buffer where the region contents are.
    pub offset: u64,
    /// The configured page size for this memory region.
    pub page_size: usize,
    /// The configured page size in bytes for this memory region, under a deprecated name.
    pub page_size_kib: usize,
}

/// Error type for `guest_memory_from_uffd`. The texts describe the cause.
#[derive(Debug, PartialEq, Eq)]
pub enum GuestMemoryFromUffdError {
    /// Failed to restore guest memory.
    Restore(String),
    /// Failed to create the userfaultfd object.
    Create(String),
    /// Failed to register a memory address range with the userfaultfd object.
    Register(String),
    /// Failed to connect to the Unix stream.
    Connect(String),
    /// Failed to send the file descriptor.
    Send(String),
}

/// The total size of the first `n` regions.
pub open spec fn size_before(regions: Seq<GuestRegion>, n: int) -> nat
    decreases n,
{
    if n <= 0 {
        0
    } else {
        size_before(regions, n - 1) + regions[n - 1].size as nat
    }
}

/// The mapping of the region at index `i`: its contents follow those of the regions before it.
pub open spec fn region_mapping(
    regions: Seq<GuestRegion>,
    huge_pages: HugePageConfig,
    i: int,
) -> GuestRegionUffdMapping {
    GuestRegionUffdMapping {
        base_host_virt_addr: regions[i].host_virt_addr,
        size: regions[i].size,
        offset: size_before(regions, i) as u64,
        page_size: huge_pages.spec_page_size(),
        page_size_kib: huge_pages.spec_page_size(),
    }
}

/// The mappings of all regions, in order.
pub open spec fn region_mappings(
    regions: Seq<GuestRegion>,
    huge_pages: HugePageConfig,
) -> Seq<GuestRegionUffdMapping> {
    Seq::new(regions.len(), |i: int| region_mapping(regions, huge_pages, i))
}

/// Describes mapped guest memory to the process that will populate it. `guest_memory` is the
/// outcome of mapping the regions, with a text that describes a failure.
pub fn create_guest_memory(
    guest_memory: Result<Vec<GuestRegion>, String>,
    huge_pages: HugePageConfig,
) -> (res: Result<(Vec<GuestRegion>, Vec<GuestRegionUffdMapping>), GuestMemoryFromUffdError>)
    requires
        guest_memory matches Ok(regions) ==> size_before(regions@, regions@.len() as int)
            <= u64::MAX,
    ensures
        match guest_memory {
            Ok(regions) => res matches Ok(pair) && pair.0 == regions && pair.1@ == region_mappings(
                regions@,
                huge_pages,
            ),
            Err(e) => res == Err::<(Vec<GuestRegion>, Vec<GuestRegionUffdMapping>), _>(
                GuestMemoryFromUffdError::Restore(e),
            ),
        },
{
    match guest_memory {
        Ok(regions) => {
            let mut backend_mappings: Vec<GuestRegionUffdMapping> = Vec::with_capacity(
                regions.len(),
            );
            let mut offset: u64 = 0;
            let mut i: usize = 0;
            while i < regions.len()
                invariant
                    0 <= i <= regions@.len(),
                    offset == size_before(regions@, i as int),
                    size_before(regions@, regions@.len() as int) <= u64::MAX,
                    backend_mappings@.len() == i,
                    forall|k: int|
                        0 <= k < i ==> #[trigger] backend_mappings@[k] == region_mapping(
                            regions@,
                            huge_pages,
                            k,
                        ),
                decreases regions@.len() - i,
            {
                let region: GuestRegion = regions[i];
                proof {
                    lemma_size_monotonic(regions@, i + 1, regions@.len() as int);
                }
                backend_mappings.push(
                    GuestRegionUffdMapping {
                        base_host_virt_addr: region.host_virt_addr,
                        size: region.size,
                        offset,
                        page_size: huge_pages.page_size(),
                        page_size_kib: huge_pages.page_size(),
                    },
                );
                offset = offset + region.size as u64;
                i = i + 1;
            }
            assert(backend_mappings@ =~= region_mappings(regions@, huge_pages));
            Ok((regions, backend_mappings))
        },
        Err(e) => Err(GuestMemoryFromUffdError::Restore(e)),
    }
}

proof fn lemma_size_monotonic(regions: Seq<GuestRegion>, m: int, n: int)
    requires
        m <= n,
    ensures
        size_before(regions, m) <= size_before(regions, n),
    decreases n - m,
{
    if m < n {
        lemma_size_monotonic(regions, m, n - 1);
    }
}

/// The regions lie in the backend one after the other, without gap and without overlap: the
/// first starts at offset zero, each next one where the one before ends.
pub proof fn law_mappings_are_contiguous(regions: Seq<GuestRegion>, huge_pages: HugePageConfig)
    requires
        size_before(regions, regions.len() as int) <= u64::MAX,
    ensures
        ({
            let mappings = region_mappings(regions, huge_pages);
            &&& regions.len() > 0 ==> mappings[0].offset == 0
            &&& forall|i: int, j: int|
                0 <= i < mappings.len() && j == i + 1 && j < mappings.len() ==> (
                #[trigger] mappings[j]).offset == (#[trigger] mappings[i]).offset
                    + mappings[i].size
            &&& forall|i: int, j: int|
                0 <= i < j < mappings.len() ==> (#[trigger] mappings[i]).offset
                    + mappings[i].size <= (#[trigger] mappings[j]).offset
        }),
{
    let mappings = region_mappings(regions, huge_pages);
    let n = regions.len() as int;
    assert forall|i: int, j: int|
        0 <= i < mappings.len() && j == i + 1 && j < mappings.len() implies (
    #[trigger] mappings[j]).offset == (#[trigger] mappings[i]).offset + mappings[i].size by {
        lemma_size_monotonic(regions, i, n);
        lemma_size_monotonic(regions, j, n);
    }
    assert forall|i: int, j: int| 0 <= i < j < mappings.len() implies (
    #[trigger] mappings[i]).offset + mappings[i].size <= (#[trigger] mappings[j]).offset by {
        lemma_size_monotonic(regions, i + 1, j);
        lemma_size_monotonic(regions, i, n);
        lemma_size_monotonic(regions, j, n);
    }
}

/// Every byte of the backend below the total size belongs to a region.
pub proof fn law_mappings_cover_the_backend(
    regions: Seq<GuestRegion>,
    huge_pages: HugePageConfig,
    position: int,
) -> (i: int)
    requires
        size_before(regions, regions.len() as int) <= u64::MAX,
        0 <= position < size_before(regions, regions.len() as int),
    ensures
        0 <= i < region_mappings(regions, huge_pages).len(),
        region_mappings(regions, huge_pages)[i].offset <= position,
        position < region_mappings(regions, huge_pages)[i].offset + region_mappings(
            regions,
            huge_pages,
        )[i].size,
{
    let i = lemma_position_in(regions, regions.len() as int, position);
    lemma_size_monotonic(regions, i, regions.len() as int);
    i
}

proof fn lemma_position_in(regions: Seq<GuestRegion>, n: int, position: int) -> (i: int)
    requires
        0 <= n <= regions.len(),
        0 <= position < size_before(regions, n),
    ensures
        0 <= i < n,
        size_before(regions, i) <= position < size_before(regions, i + 1),
    decreases n,
{
    if position >= size_before(regions, n - 1) {
        n - 1
    } else {
        lemma_position_in(regions, n - 1, position)
    }
}

/// The options that the userfaultfd object is created with.
#[derive(Debug, Clone, Copy, PartialEq, Eq, Structural)]
pub struct UffdOptions {
    /// Require events for removed memory. Only balloon devices cause them.
    pub event_remove: bool,
    /// Close the descriptor on exec.
    pub close_on_exec: bool,
    /// Make reads of events non-blocking.
    pub non_blocking: bool,
    /// Serve only faults that come from user mode.
    pub user_mode_only: bool,
}

/// Where the loading of guest memory through userfaultfd stands.
#[derive(Debug)]
pub enum UffdPhase {
    /// Nothing has been done.
    Idle,
    /// Anonymous memory is being mapped.
    MappingMemory,
    /// The userfaultfd object is being created.
    CreatingUffd {
        /// The mapped regions.
        regions: Vec<GuestRegion>,
        /// Their description.
        mappings: Vec<GuestRegionUffdMapping>,
    },
    /// The regions are being registered with the userfaultfd object.
    Registering {
        /// The mapped regions.
        regions: Vec<GuestRegion>,
        /// Their description.
        mappings: Vec<GuestRegionUffdMapping>,
        /// Which of them is being registered.
        next: usize,
    },
    /// The handler is being connected to.
    Connecting {
        /// The mapped regions.
        regions: Vec<GuestRegion>,
        /// Their description.
        mappings: Vec<GuestRegionUffdMapping>,
    },
    /// The description and the descriptor are being sent.
    Sending {
        /// The mapped regions.
        regions: Vec<GuestRegion>,
    },
    /// Loading is over.
    Finished,
}

/// What a piece of work gave.
#[derive(Debug)]
pub enum UffdEvent {
    /// Loading has been requested.
    Requested,
    /// Memory has been mapped, or could not be.
    MemoryMapped(Result<Vec<GuestRegion>, String>),
    /// Other work has ended.
    Done(Result<(), String>),
}

/// A piece of work to do next.
#[derive(Debug)]
pub enum UffdAction {
    /// Map anonymous memory for the regions of the guest.
    MapMemory {
        /// The regions to map.
        regions: Vec<GuestMemoryRegionState>,
        /// Whether dirty pages are tracked.
        track_dirty_pages: bool,
        /// The huge page configuration.
        huge_pages: HugePageConfig,
    },
    /// Create the userfaultfd object.
    CreateUffd(UffdOptions),
    /// Register a region with the userfaultfd object.
    Register(GuestRegion),
    /// Connect to the handler.
    Connect {
        /// The path of its socket.
        path: String,
    },
    /// Send the description of the regions together with the descriptor.
    Send(Vec<GuestRegionUffdMapping>),
    /// Report the outcome.
    Finish(Result<Vec<GuestRegion>, GuestMemoryFromUffdError>),
}

/// The options for creating the userfaultfd object.
pub open spec fn uffd_options() -> UffdOptions {
    UffdOptions {
        event_remove: true,
        close_on_exec: true,
        non_blocking: true,
        user_mode_only: false,
    }
}

impl UffdPhase {
    /// The index of a phase points into its regions.
    pub open spec fn well_formed(self) -> bool {
        self matches UffdPhase::Registering { regions, next, .. } ==> next < regions@.len()
    }

    /// Whether `event` is the kind of outcome that this phase waits for.
    pub open spec fn awaits(self, event: UffdEvent) -> bool {
        match self {
            UffdPhase::Idle => event is Requested,
            UffdPhase::MappingMemory => event matches UffdEvent::MemoryMapped(outcome) && (
            outcome matches Ok(regions) ==> size_before(regions@, regions@.len() as int)
                <= u64::MAX),
            UffdPhase::Finished => false,
            _ => event is Done,
        }
    }

    /// How many kinds of work are still ahead at most.
    pub open spec fn stages_left(self) -> nat {
        match self {
            UffdPhase::Idle => 6,
            UffdPhase::MappingMemory => 5,
            UffdPhase::CreatingUffd { .. } => 4,
            UffdPhase::Registering { .. } => 3,
            UffdPhase::Connecting { .. } => 2,
            UffdPhase::Sending { .. } => 1,
            UffdPhase::Finished => 0,
        }
    }

    /// How many regions are still to be registered.
    pub open spec fn regions_left(self) -> int {
        match self {
            UffdPhase::Registering { regions, next, .. } => regions@.len() - next,
            _ => 0,
        }
    }
}

/// The end of a loading that fails with `error`.
pub open spec fn uffd_failed(error: GuestMemoryFromUffdError) -> (UffdPhase, UffdAction) {
    (UffdPhase::Finished, UffdAction::Finish(Err(error)))
}

/// The step that registers the region at index `next`, or the step after the last region.
pub open spec fn registering_step(
    regions: Vec<GuestRegion>,
    mappings: Vec<GuestRegionUffdMapping>,
    next: int,
    mem_uds_path: String,
) -> (UffdPhase, UffdAction) {
    if next < regions@.len() {
        (
            UffdPhase::Registering { regions, mappings, next: next as usize },
            UffdAction::Register(regions@[next]),
        )
    } else {
        (
            UffdPhase::Connecting { regions, mappings },
            UffdAction::Connect { path: mem_uds_path },
        )
    }
}

/// `step` is what follows when `event` ends the work of `phase`.
pub open spec fn uffd_step(
    phase: UffdPhase,
    event: UffdEvent,
    mem_uds_path: String,
    mem_state: GuestMemoryState,
    track_dirty_pages: bool,
    huge_pages: HugePageConfig,
    step: (UffdPhase, UffdAction),
) -> bool {
    match (phase, event) {
        (UffdPhase::Idle, UffdEvent::Requested) => {
            &&& step.0 == UffdPhase::MappingMemory
            &&& step.1 matches UffdAction::MapMemory {
                regions,
                track_dirty_pages: track,
                huge_pages: pages,
            } && regions@ == mem_state.regions@ && track == track_dirty_pages && pages
                == huge_pages
        },
        (UffdPhase::MappingMemory, UffdEvent::MemoryMapped(Ok(regions))) => {
            &&& step.0 matches UffdPhase::CreatingUffd { regions: kept, mappings } && kept
                == regions && mappings@ == region_mappings(regions@, huge_pages)
            &&& step.1 == UffdAction::CreateUffd(uffd_options())
        },
        (UffdPhase::MappingMemory, UffdEvent::MemoryMapped(Err(e))) => step == uffd_failed(
            GuestMemoryFromUffdError::Restore(e),
        ),
        (UffdPhase::CreatingUffd { regions, mappings }, UffdEvent::Done(Ok(_))) => step
            == registering_step(regions, mappings, 0, mem_uds_path),
        (UffdPhase::CreatingUffd { .. }, UffdEvent::Done(Err(e))) => step == uffd_failed(
            GuestMemoryFromUffdError::Create(e),
        ),
        (UffdPhase::Registering { regions, mappings, next }, UffdEvent::Done(Ok(_))) => step
            == registering_step(regions, mappings, next + 1, mem_uds_path),
        (UffdPhase::Registering { .. }, UffdEvent::Done(Err(e))) => step == uffd_failed(
            GuestMemoryFromUffdError::Register(e),
        ),
        (UffdPhase::Connecting { regions, mappings }, UffdEvent::Done(Ok(_))) => step == (
            UffdPhase::Sending { regions },
            UffdAction::Send(mappings),
        ),
        (UffdPhase::Connecting { .. }, UffdEvent::Done(Err(e))) => step == uffd_failed(
            GuestMemoryFromUffdError::Connect(e),
        ),
        (UffdPhase::Sending { regions }, UffdEvent::Done(Ok(_))) => step == (
            UffdPhase::Finished,
            UffdAction::Finish(Ok(regions)),
        ),
        (UffdPhase::Sending { .. }, UffdEvent::Done(Err(e))) => step == uffd_failed(
            GuestMemoryFromUffdError::Send(e),
        ),
        (_, _) => false,
    }
}

fn uffd_fail(error: GuestMemoryFromUffdError) -> (step: (UffdPhase, UffdAction))
    ensures
        step == uffd_failed(error),
{
    (UffdPhase::Finished, UffdAction::Finish(Err(error)))
}

fn register_or_connect(
    regions: Vec<GuestRegion>,
    mappings: Vec<GuestRegionUffdMapping>,
    next: usize,
    mem_uds_path: &String,
) -> (step: (UffdPhase, UffdAction))
    ensures
        step == registering_step(regions, mappings, next as int, *mem_uds_path),
        step.0.well_formed(),
{
    if next < regions.len() {
        let region: GuestRegion = regions[next];
        (UffdPhase::Registering { regions, mappings, next }, UffdAction::Register(region))
    } else {
        (
            UffdPhase::Connecting { regions, mappings },
            UffdAction::Connect { path: mem_uds_path.clone() },
        )
    }
}

/// Loads guest memory through userfaultfd: given what the work of `phase` gave, says what to do
/// next. Every region is registered before the handler is told of the regions.
pub fn guest_memory_from_uffd(
    phase: UffdPhase,
    event: UffdEvent,
    mem_uds_path: &String,
    mem_state: &GuestMemoryState,
    track_dirty_pages: bool,
    huge_pages: HugePageConfig,
) -> (step: (UffdPhase, UffdAction))
    requires
        phase.well_formed(),
        phase.awaits(event),
    ensures
        uffd_step(
            phase,
            event,
            *mem_uds_path,
            *mem_state,
            track_dirty_pages,
            huge_pages,
            step,
        ),
        step.0.well_formed(),
{
    match event {
        UffdEvent::Requested => (
            UffdPhase::MappingMemory,
            UffdAction::MapMemory {
                regions: copy_regions(&mem_state.regions),
                track_dirty_pages,
                huge_pages,
            },
        ),
        UffdEvent::MemoryMapped(outcome) => match create_guest_memory(outcome, huge_pages) {
            Ok((regions, mappings)) => (
                UffdPhase::CreatingUffd { regions, mappings },
                UffdAction::CreateUffd(
                    UffdOptions {
                        event_remove: true,
                        close_on_exec: true,
                        non_blocking: true,
                        user_mode_only: false,
                    },
                ),
            ),
            Err(e) => uffd_fail(e),
        },
        UffdEvent::Done(Ok(_)) => match phase {
            UffdPhase::CreatingUffd { regions, mappings } => register_or_connect(
                regions,
                mappings,
                0,
                mem_uds_path,
            ),
            UffdPhase::Registering { regions, mappings, next } => {
                assert(regions.len() == regions@.len());
                register_or_connect(regions, mappings, next + 1, mem_uds_path)
            },
            UffdPhase::Connecting { regions, mappings } => (
                UffdPhase::Sending { regions },
                UffdAction::Send(mappings),
            ),
            UffdPhase::Sending { regions } => (
                UffdPhase::Finished,
                UffdAction::Finish(Ok(regions)),
            ),
            _ => vstd::pervasive::unreached(),
        },
        UffdEvent::Done(Err(e)) => match phase {
            UffdPhase::CreatingUffd { .. } => uffd_fail(GuestMemoryFromUffdError::Create(e)),
            UffdPhase::Registering { .. } => uffd_fail(GuestMemoryFromUffdError::Register(e)),
            UffdPhase::Connecting { .. } => uffd_fail(GuestMemoryFromUffdError::Connect(e)),
            _ => uffd_fail(GuestMemoryFromUffdError::Send(e)),
        },
    }
}

/// Every loading ends: each step leaves fewer kinds of work ahead, or fewer regions to register.
pub proof fn law_uffd_loading_ends(
    phase: UffdPhase,
    event: UffdEvent,
    mem_uds_path: String,
    mem_state: GuestMemoryState,
    track_dirty_pages: bool,
    huge_pages: HugePageConfig,
    step: (UffdPhase, UffdAction),
)
    requires
        phase.well_formed(),
        uffd_step(
            phase,
            event,
            mem_uds_path,
            mem_state,
            track_dirty_pages,
            huge_pages,
            step,
        ),
    ensures
        step.0.stages_left() < phase.stages_left() || (step.0.stages_left() == phase.stages_left()
            && 0 <= step.0.regions_left() < phase.regions_left()),
{
    if let UffdPhase::Registering { regions, mappings, next } = phase {
        assert(regions.len() == regions@.len());
    }
}

/// The handler is sent the mappings of just the regions that were mapped, and the loading gives
/// these regions back: no step changes the regions or their description.
pub proof fn law_uffd_regions_are_kept(
    phase: UffdPhase,
    event: UffdEvent,
    mem_uds_path: String,
    mem_state: GuestMemoryState,
    track_dirty_pages: bool,
    huge_pages: HugePageConfig,
    step: (UffdPhase, UffdAction),
    regions: Seq<GuestRegion>,
)
    requires
        uffd_step(
            phase,
            event,
            mem_uds_path,
            mem_state,
            track_dirty_pages,
            huge_pages,
            step,
        ),
        describes(phase, regions, huge_pages),
        event matches UffdEvent::MemoryMapped(Ok(mapped)) ==> mapped@ == regions,
    ensures
        describes(step.0, regions, huge_pages),
        step.1 matches UffdAction::Send(mappings) ==> mappings@ == region_mappings(
            regions,
            huge_pages,
        ),
        step.1 matches UffdAction::Finish(Ok(kept)) ==> kept@ == regions,
{
}

/// Whatever regions and mappings `phase` holds are `regions` and the mappings of them.
pub open spec fn describes(
    phase: UffdPhase,
    regions: Seq<GuestRegion>,
    huge_pages: HugePageConfig,
) -> bool {
    match phase {
        UffdPhase::CreatingUffd { regions: kept, mappings } => kept@ == regions && mappings@
            == region_mappings(regions, huge_pages),
        UffdPhase::Registering { regions: kept, mappings, .. } => kept@ == regions && mappings@
            == region_mappings(regions, huge_pages),
        UffdPhase::Connecting { regions: kept, mappings } => kept@ == regions && mappings@
            == region_mappings(regions, huge_pages),
        UffdPhase::Sending { regions: kept } => kept@ == regions,
        _ => true,
    }
}

/// The handler is told of guest memory as it is mapped: there is a mapping for each region, in
/// order, with the address and the size of the region, and with the page size of the guest, 4 KiB
/// or 2 MiB.
pub proof fn law_mappings_are_where_the_regions_are(
    regions: Seq<GuestRegion>,
    huge_pages: HugePageConfig,
)
    ensures
        region_mappings(regions, huge_pages).len() == regions.len(),
        forall|i: int|
            0 <= i < regions.len() ==> {
                let mapping = #[trigger] region_mappings(regions, huge_pages)[i];
                &&& mapping.base_host_virt_addr == regions[i].host_virt_addr
                &&& mapping.size == regions[i].size
                &&& mapping.page_size == if huge_pages is Hugetlbfs2M {
                    2097152int
                } else {
                    4096
                }
                &&& mapping.page_size_kib == mapping.page_size
            },
{
}

/// Every address of a region lies in the mapping of that region, at the same distance from its
/// start, and no mapping reaches an address outside of its region.
pub proof fn law_address_is_found_in_its_mapping(
    regions: Seq<GuestRegion>,
    huge_pages: HugePageConfig,
    i: int,
    address: int,
)
    requires
        0 <= i < regions.len(),
    ensures
        regions[i].host_virt_addr <= address < regions[i].host_virt_addr + regions[i].size <==> ({
            let mapping = region_mappings(regions, huge_pages)[i];
            mapping.base_host_virt_addr <= address < mapping.base_host_virt_addr + mapping.size
        }),
        address - regions[i].host_virt_addr == address - region_mappings(
            regions,
            huge_pages,
        )[i].base_host_virt_addr,
{
}

/// What a loading asks for first, and what it asks for when the work that it asked for has
/// succeeded: memory is mapped as requested, the userfaultfd object reports removed memory, closes
/// on exec, does not block and serves faults of the kernel too, and the handler is reached at the
/// requested path.
pub proof fn law_uffd_loading_goes_on(
    phase: UffdPhase,
    event: UffdEvent,
    step: (UffdPhase, UffdAction),
    next_event: UffdEvent,
    next_step: (UffdPhase, UffdAction),
    mem_uds_path: String,
    mem_state: GuestMemoryState,
    track_dirty_pages: bool,
    huge_pages: HugePageConfig,
)
    requires
        uffd_step(
            phase,
            event,
            mem_uds_path,
            mem_state,
            track_dirty_pages,
            huge_pages,
            step,
        ),
        uffd_step(
            step.0,
            next_event,
            mem_uds_path,
            mem_state,
            track_dirty_pages,
            huge_pages,
            next_step,
        ),
        !(next_event matches UffdEvent::MemoryMapped(Err(_))),
        !(next_event matches UffdEvent::Done(Err(_))),
    ensures
        event is Requested ==> phase is Idle && (step.1 matches UffdAction::MapMemory {
            regions,
            track_dirty_pages: track,
            huge_pages: pages,
        } && regions@ == mem_state.regions@ && track == track_dirty_pages && pages == huge_pages),
        step.1 is MapMemory ==> next_event is MemoryMapped && (next_step.1
            matches UffdAction::CreateUffd(options) && options.event_remove
            && options.close_on_exec && options.non_blocking && !options.user_mode_only),
        step.1 is CreateUffd ==> event is MemoryMapped && next_event is Done && next_step.1
            == if event->MemoryMapped_0->Ok_0@.len() > 0 {
            UffdAction::Register(event->MemoryMapped_0->Ok_0@[0])
        } else {
            UffdAction::Connect { path: mem_uds_path }
        },
        step.1 is Register ==> next_event is Done && (next_step.1 is Register || next_step.1
            == (UffdAction::Connect { path: mem_uds_path })),
        step.1 is Connect ==> next_event is Done && next_step.1 is Send,
        step.1 is Send ==> next_event is Done && (next_step.1 matches UffdAction::Finish(outcome)
            && outcome is Ok),
        !(step.1 is Finish),
{
}

/// The error of a loading tells what failed and why: it names the work that was asked for, and
/// carries just what that work reported.
pub proof fn law_uffd_error_tells_the_failed_work(
    phase: UffdPhase,
    event: UffdEvent,
    step: (UffdPhase, UffdAction),
    text: String,
    next_event: UffdEvent,
    next_step: (UffdPhase, UffdAction),
    mem_uds_path: String,
    mem_state: GuestMemoryState,
    track_dirty_pages: bool,
    huge_pages: HugePageConfig,
)
    requires
        uffd_step(
            phase,
            event,
            mem_uds_path,
            mem_state,
            track_dirty_pages,
            huge_pages,
            step,
        ),
        uffd_step(
            step.0,
            next_event,
            mem_uds_path,
            mem_state,
            track_dirty_pages,
            huge_pages,
            next_step,
        ),
        next_event == UffdEvent::MemoryMapped(Err(text)) || next_event == UffdEvent::Done(
            Err(text),
        ),
    ensures
        next_step.1 == UffdAction::Finish(
            Err(
                match step.1 {
                    UffdAction::MapMemory { .. } => GuestMemoryFromUffdError::Restore(text),
                    UffdAction::CreateUffd(_) => GuestMemoryFromUffdError::Create(text),
                    UffdAction::Register(_) => GuestMemoryFromUffdError::Register(text),
                    UffdAction::Connect { .. } => GuestMemoryFromUffdError::Connect(text),
                    _ => GuestMemoryFromUffdError::Send(text),
                },
            ),
        ),
{
}

/// Work that was asked for is waited for, whatever it gives; but the mapped regions must have a
/// total size that can be counted.
pub proof fn law_outcome_of_uffd_work_is_awaited(
    phase: UffdPhase,
    event: UffdEvent,
    step: (UffdPhase, UffdAction),
    outcome: UffdEvent,
    mem_uds_path: String,
    mem_state: GuestMemoryState,
    track_dirty_pages: bool,
    huge_pages: HugePageConfig,
)
    requires
        uffd_step(
            phase,
            event,
            mem_uds_path,
            mem_state,
            track_dirty_pages,
            huge_pages,
            step,
        ),
    ensures
        UffdPhase::Idle.awaits(outcome) <==> outcome is Requested,
        step.0.awaits(outcome) <==> match step.1 {
            UffdAction::MapMemory { .. } => outcome is MemoryMapped && (outcome->MemoryMapped_0
                is Ok ==> size_before(
                outcome->MemoryMapped_0->Ok_0@,
                outcome->MemoryMapped_0->Ok_0@.len() as int,
            ) <= u64::MAX),
            UffdAction::Finish(_) => false,
            _ => outcome is Done,
        },
{
}

/// The total size of regions is that of all but the last and that of the last.
pub proof fn law_sizes_add_up(regions: Seq<GuestRegion>, more: GuestRegion)
    ensures
        size_before(regions, 0) == 0,
        size_before(regions.push(more), regions.len() as int + 1) == size_before(
            regions,
            regions.len() as int,
        ) + more.size,
{
    lemma_size_of_prefix(regions, more, regions.len() as int);
}

proof fn lemma_size_of_prefix(regions: Seq<GuestRegion>, more: GuestRegion, n: int)
    requires
        n <= regions.len(),
    ensures
        size_before(regions.push(more), n) == size_before(regions, n),
    decreases n,
{
    if n > 0 {
        lemma_size_of_prefix(regions, more, n - 1);
    }
}

/// A loading whose work all succeeds registers every mapped region, one after the other and just as
/// it is mapped, then connects to the handler, sends it a mapping for each of the regions that were
/// registered, with the same address and size, and gives the regions back.
pub proof fn law_every_region_is_registered_and_described(
    steps: Seq<(UffdPhase, UffdAction)>,
    mapped: Vec<GuestRegion>,
    mem_uds_path: String,
    mem_state: GuestMemoryState,
    track_dirty_pages: bool,
    huge_pages: HugePageConfig,
    n: int,
)
    requires
        0 <= n < steps.len(),
        uffd_step(
            UffdPhase::MappingMemory,
            UffdEvent::MemoryMapped(Ok(mapped)),
            mem_uds_path,
            mem_state,
            track_dirty_pages,
            huge_pages,
            steps[0],
        ),
        forall|i: int, j: int|
            0 <= i < steps.len() && j == i + 1 && j < steps.len() ==> uffd_step(
                (#[trigger] steps[i]).0,
                UffdEvent::Done(Ok(())),
                mem_uds_path,
                mem_state,
                track_dirty_pages,
                huge_pages,
                #[trigger] steps[j],
            ),
    ensures
        n == 0 ==> steps[n].1 is CreateUffd,
        0 < n <= mapped@.len() ==> steps[n].1 == UffdAction::Register(mapped@[n - 1]),
        n == mapped@.len() + 1 ==> steps[n].1 == (UffdAction::Connect { path: mem_uds_path }),
        n == mapped@.len() + 2 ==> (steps[n].1 matches UffdAction::Send(mappings) && mappings@.len()
            == mapped@.len() && forall|i: int|
            0 <= i < mapped@.len() ==> (#[trigger] mappings@[i]).base_host_virt_addr
                == mapped@[i].host_virt_addr && mappings@[i].size == mapped@[i].size),
        n == mapped@.len() + 3 ==> steps[n].1 == UffdAction::Finish(Ok(mapped)),
        n <= mapped@.len() + 3,
{
    lemma_registering_run(
        steps,
        mapped,
        mem_uds_path,
        mem_state,
        track_dirty_pages,
        huge_pages,
        n,
    );
    law_mappings_are_where_the_regions_are(mapped@, huge_pages);
    if n > 0 {
        lemma_registering_run(
            steps,
            mapped,
            mem_uds_path,
            mem_state,
            track_dirty_pages,
            huge_pages,
            n - 1,
        );
        assert(uffd_step(
            steps[n - 1].0,
            UffdEvent::Done(Ok(())),
            mem_uds_path,
            mem_state,
            track_dirty_pages,
            huge_pages,
            steps[n],
        ));
    }
}

/// Which phase such a loading is in after `n` pieces of work.
proof fn lemma_registering_run(
    steps: Seq<(UffdPhase, UffdAction)>,
    mapped: Vec<GuestRegion>,
    mem_uds_path: String,
    mem_state: GuestMemoryState,
    track_dirty_pages: bool,
    huge_pages: HugePageConfig,
    n: int,
)
    requires
        0 <= n < steps.len(),
        uffd_step(
            UffdPhase::MappingMemory,
            UffdEvent::MemoryMapped(Ok(mapped)),
            mem_uds_path,
            mem_state,
            track_dirty_pages,
            huge_pages,
            steps[0],
        ),
        forall|i: int, j: int|
            0 <= i < steps.len() && j == i + 1 && j < steps.len() ==> uffd_step(
                (#[trigger] steps[i]).0,
                UffdEvent::Done(Ok(())),
                mem_uds_path,
                mem_state,
                track_dirty_pages,
                huge_pages,
                #[trigger] steps[j],
            ),
    ensures
        n <= mapped@.len() + 3,
        ({
            let count = mapped@.len();
            if n == 0 {
                steps[n].0 matches UffdPhase::CreatingUffd { regions, mappings } && regions
                    == mapped && mappings@ == region_mappings(mapped@, huge_pages)
            } else if n <= count {
                steps[n].0 matches UffdPhase::Registering { regions, mappings, next } && regions
                    == mapped && mappings@ == region_mappings(mapped@, huge_pages) && next == n - 1
            } else if n == count + 1 {
                steps[n].0 matches UffdPhase::Connecting { regions, mappings } && regions == mapped
                    && mappings@ == region_mappings(mapped@, huge_pages)
            } else if n == count + 2 {
                steps[n].0 matches UffdPhase::Sending { regions } && regions == mapped
            } else {
                steps[n].0 is Finished
            }
        }),
    decreases n,
{
    assert(mapped.len() == mapped@.len());
    if n > 0 {
        lemma_registering_run(
            steps,
            mapped,
            mem_uds_path,
            mem_state,
            track_dirty_pages,
            huge_pages,
            n - 1,
        );
        assert(uffd_step(
            steps[n - 1].0,
            UffdEvent::Done(Ok(())),
            mem_uds_path,
            mem_state,
            track_dirty_pages,
            huge_pages,
            steps[n],
        ));
    }
}

} // verus!
