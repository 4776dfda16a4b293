//! Creating a microVM snapshot.
//!
//! Creation alternates work on the microVM and on files with decisions. The decisions are one
//! step function, `create_snapshot`: it takes what the last piece of work gave and says which
//! piece comes next. Whoever drives it performs each action and hands back its outcome.

use crate::free_pages::{create_free_pages_bitmap, FreePagesError, FreePagesbitmap};
use crate::vm_state::{MicrovmState, VmInfo};
use crate::zeroing::{plan_zero_free_pages, ZeroPlan, ZeroRun};
use std::collections::HashSet;
use vstd::prelude::*;

verus! {

broadcast use vstd::std_specs::hash::group_hash_axioms;

/// The virtio device type of a balloon.
pub const TYPE_BALLOON: u32 = 5;

/// The page size that free pages are counted in.
pub const FREE_PAGE_SIZE: u32 = 4096;

/// The version of the snapshot format, as major, minor and patch number.
pub open spec fn spec_snapshot_version() -> (u64, u64, u64) {
    (7, 0, 0)
}

/// Returns the version of the snapshot format, as major, minor and patch number.
pub fn snapshot_version() -> (version: (u64, u64, u64))
    ensures
        version == spec_snapshot_version(),
        version.0 == 7 && version.1 == 0 && version.2 == 0,
{
    (7, 0, 0)
}

/// Errors related to saving and restoring microVM state. The texts describe the cause.
#[derive(Debug, PartialEq, Eq)]
pub enum MicrovmStateError {
    /// Operation not allowed.
    NotAllowed(String),
    /// Cannot restore devices.
    RestoreDevices(String),
    /// Cannot save Vcpu state.
    SaveVcpuState(String),
    /// Cannot save Vm state.
    SaveVmState(String),
    /// Cannot signal Vcpu.
    SignalVcpu(String),
    /// Vcpu is in unexpected state.
    UnexpectedVcpuResponse,
}

/// An operation on a file that backs a snapshot.
#[derive(Debug, Clone, Copy, PartialEq, Eq, Structural)]
pub enum FileOperation {
    /// Opening the file.
    Open,
    /// Moving to an offset.
    Seek,
    /// Writing to the file.
    Write,
    /// Flushing what is buffered.
    Flush,
    /// Syncing the file to disk.
    SyncAll,
}

/// Error definitions for the snapshot creation. The texts describe the cause.
#[derive(Debug, PartialEq, Eq)]
pub enum CreateSnapshotError {
    /// Cannot get dirty bitmap.
    DirtyBitmap(String),
    /// Cannot write memory file.
    Memory(String),
    /// Cannot perform an operation on the memory backing file.
    MemoryBackingFile(FileOperation, String),
    /// Cannot save the microVM state.
    MicrovmState(MicrovmStateError),
    /// Cannot serialize the microVM state.
    SerializeMicrovmState(String),
    /// Cannot perform an operation on the snapshot backing file.
    SnapshotBackingFile(FileOperation, String),
    /// Cannot create free pages bitmap.
    FreePagesbitmap(FreePagesError),
}

/// How much of guest memory a snapshot holds.
#[derive(Debug, Clone, Copy, PartialEq, Eq, Structural)]
pub enum SnapshotType {
    /// The pages that changed since the last snapshot.
    Diff,
    /// All pages.
    Full,
}

/// The parameters of a snapshot creation.
#[derive(Debug)]
pub struct CreateSnapshotParams {
    /// How much of guest memory goes into the snapshot.
    pub snapshot_type: SnapshotType,
    /// The path of the file that receives the microVM state.
    pub snapshot_path: String,
    /// The path of the file that receives guest memory.
    pub mem_file_path: String,
}

/// A virtio device, as far as the creation of a snapshot looks at it.
#[derive(Debug)]
pub struct VirtioDevice {
    /// The virtio device type.
    pub device_type: u32,
    /// The pages that it has inflated, where the device is a balloon.
    pub inflated_pages: Option<HashSet<u32>>,
    /// Whether the guest has activated the device.
    pub activated: bool,
}

impl VirtioDevice {
    /// Whether this is a balloon that has inflated `page`.
    pub open spec fn has_inflated(self, page: u32) -> bool {
        &&& self.device_type == TYPE_BALLOON
        &&& self.inflated_pages matches Some(pages) && pages@.contains(page)
    }
}

/// The pages that the balloons among `devices` have inflated.
pub open spec fn inflated_by(devices: Seq<VirtioDevice>) -> Set<u32> {
    Set::new(
        |page: u32|
            exists|i: int| 0 <= i < devices.len() && (#[trigger] devices[i]).has_inflated(page),
    )
}

/// The indices of the activated devices, in order.
pub open spec fn activated_devices(devices: Seq<VirtioDevice>) -> Seq<usize>
    decreases devices.len(),
{
    if devices.len() == 0 {
        Seq::empty()
    } else if devices.last().activated {
        activated_devices(devices.drop_last()).push((devices.len() - 1) as usize)
    } else {
        activated_devices(devices.drop_last())
    }
}

/// Returns the indices of the activated devices, in order.
fn list_activated(devices: &Vec<VirtioDevice>) -> (indices: Vec<usize>)
    ensures
        indices@ == activated_devices(devices@),
{
    let mut indices: Vec<usize> = Vec::new();
    let mut i: usize = 0;
    assert(devices@.take(0) =~= Seq::<VirtioDevice>::empty());
    while i < devices.len()
        invariant
            i <= devices@.len(),
            indices@ == activated_devices(devices@.take(i as int)),
        decreases devices@.len() - i,
    {
        assert(devices@.take(i + 1).drop_last() =~= devices@.take(i as int));
        if devices[i].activated {
            indices.push(i);
        }
        i = i + 1;
    }
    assert(devices@.take(i as int) =~= devices@);
    indices
}

/// How many pages of 4 KiB the memory of a VM has.
pub open spec fn memory_pages(vm_info: VmInfo) -> int {
    vm_info.mem_size_mib * 1024 * 1024 / FREE_PAGE_SIZE as int
}

/// The memory size in bytes fits a `u64`, and a bitmap with a bit for each page fits in memory.
pub open spec fn memory_size_fits(vm_info: VmInfo) -> bool {
    &&& vm_info.mem_size_mib * 1024 * 1024 <= u64::MAX
    &&& (memory_pages(vm_info) + 7) / 8 <= usize::MAX
}

/// Collects the free pages of a VM from its balloon devices.
pub fn collect_free_pages_for_zeroing(devices: &Vec<VirtioDevice>, vm_info: &VmInfo) -> (res:
    Result<FreePagesbitmap, CreateSnapshotError>)
    requires
        memory_size_fits(*vm_info),
    ensures
        match res {
            Ok(bitmap) => {
                &&& bitmap.represents(inflated_by(devices@))
                &&& bitmap.total_pages == memory_pages(*vm_info)
                &&& bitmap.page_size == FREE_PAGE_SIZE
                &&& bitmap.marked_pages().len() == inflated_by(devices@).len() <= usize::MAX
                &&& forall|p: u32|
                    inflated_by(devices@).contains(p) ==> p < memory_pages(*vm_info)
            },
            Err(e) => free_pages_refused(e, inflated_by(devices@), memory_pages(*vm_info)),
        },
        res is Ok <==> forall|page: u32| #[trigger]
            is_ballooned(devices@, page) ==> !is_outside_memory(*vm_info, page),
        res matches Ok(bitmap) ==> bitmap.total_pages * 4096 == vm_info.mem_size_mib * 1048576
            && bitmap.page_size == 4096,
        res matches Ok(bitmap) ==> forall|page: u32| #[trigger]
            bitmap.marks(page as int) <==> is_ballooned(devices@, page),
{
    let mut all_inflated_pages: HashSet<u32> = HashSet::new();
    let mut i: usize = 0;
    proof {
        assert(all_inflated_pages@ =~= inflated_by(devices@.take(0)));
    }
    while i < devices.len()
        invariant
            0 <= i <= devices@.len(),
            all_inflated_pages@ == inflated_by(devices@.take(i as int)),
        decreases devices@.len() - i,
    {
        let device = &devices[i];
        let ghost before = all_inflated_pages@;
        let ghost mut added: Set<u32> = Set::empty();
        if device.device_type == TYPE_BALLOON {
            if let Some(inflated_pages) = &device.inflated_pages {
                for page in it: inflated_pages.iter()
                    invariant
                        it.seq().unref().to_set() == inflated_pages@,
                        added == it.seq().unref().take(it.index()).to_set(),
                        it.index() == it.seq().len() ==> added == inflated_pages@,
                        all_inflated_pages@ == before.union(added),
                {
                    let ghost pages = it.seq().unref();
                    let ghost index = it.index();
                    all_inflated_pages.insert(*page);
                    proof {
                        added = added.insert(*page);
                        assert(pages.take(index + 1) =~= pages.take(index).push(*page));
                        assert(added =~= pages.take(index + 1).to_set()) by {
                            assert forall|p: u32| added.contains(p) <==> pages.take(
                                index + 1,
                            ).to_set().contains(p) by {
                                crate::free_pages::lemma_contains_push(
                                    pages.take(index),
                                    *page,
                                    p,
                                );
                            }
                        }
                        assert(index + 1 == pages.len() ==> pages.take(index + 1) =~= pages);
                        assert(all_inflated_pages@ =~= before.union(added));
                    }
                }
            }
        }
        proof {
            let done = devices@.take(i as int);
            let more = devices@.take(i + 1);
            assert forall|p: u32| all_inflated_pages@.contains(p) <==> inflated_by(more).contains(
                p,
            ) by {
                assert(more[i as int] == *device);
                if inflated_by(done).contains(p) {
                    let j = choose|j: int|
                        0 <= j < done.len() && (#[trigger] done[j]).has_inflated(p);
                    assert(more[j].has_inflated(p));
                }
                if inflated_by(more).contains(p) {
                    let j = choose|j: int|
                        0 <= j < more.len() && (#[trigger] more[j]).has_inflated(p);
                    if j < i {
                        assert(done[j].has_inflated(p));
                    }
                }
            }
            assert(all_inflated_pages@ =~= inflated_by(more));
        }
        i = i + 1;
    }
    proof {
        assert(devices@.take(devices@.len() as int) =~= devices@);
    }
    let total_memory_bytes: u64 = vm_info.mem_size_mib * 1024 * 1024;
    let total_pages: u64 = total_memory_bytes / FREE_PAGE_SIZE as u64;
    proof {
        law_collected_pages_are_ballooned(devices@);
        law_pages_make_up_the_memory(*vm_info);
        assert forall|page: u32| is_outside_memory(*vm_info, page) <==> page
            >= total_pages by {}
    }
    match create_free_pages_bitmap(&all_inflated_pages, total_pages, FREE_PAGE_SIZE) {
        Ok(bitmap) => {
            assert(all_inflated_pages.len() == all_inflated_pages@.len());
            proof {
                assert forall|page: u32| #[trigger]
                    bitmap.marks(page as int) <==> is_ballooned(devices@, page) by {
                    crate::free_pages::law_free_means_member(
                        bitmap,
                        inflated_by(devices@),
                        page,
                    );
                }
                assert forall|page: u32| #[trigger]
                    is_ballooned(devices@, page) implies !is_outside_memory(*vm_info, page) by {
                    assert(inflated_by(devices@).contains(page));
                }
            }
            Ok(bitmap)
        },
        Err(e) => {
            proof {
                let FreePagesError::InvalidPageNumber(page, _) = e;
                assert(is_ballooned(devices@, page) && is_outside_memory(*vm_info, page));
            }
            Err(CreateSnapshotError::FreePagesbitmap(e))
        },
    }
}

/// `error` reports a page of `pages` that is not below `total`.
pub open spec fn free_pages_refused(
    error: CreateSnapshotError,
    pages: Set<u32>,
    total: int,
) -> bool {
    match error {
        CreateSnapshotError::FreePagesbitmap(FreePagesError::InvalidPageNumber(page, limit)) => {
            &&& pages.contains(page)
            &&& page >= total
            &&& limit == total
        },
        _ => false,
    }
}

/// What the snapshot is made of and where its creation stands.
#[derive(Debug)]
pub enum SnapshotPhase {
    /// Nothing has been done.
    Idle,
    /// The microVM is being asked for its state.
    SavingState,
    /// The snapshot file is being opened.
    OpeningStateFile {
        /// The state that goes into it.
        state: MicrovmState,
    },
    /// The state is being written to the snapshot file.
    SerializingState,
    /// The snapshot file is being flushed.
    FlushingStateFile,
    /// The snapshot file is being synced.
    SyncingStateFile,
    /// Guest memory is being written to the memory file.
    WritingMemory,
    /// The virtio devices are being listed.
    ListingDevices,
    /// The memory file is being opened again.
    OpeningMemoryFile {
        /// The stretches of it to overwrite.
        runs: Vec<ZeroRun>,
    },
    /// The start of a stretch is being looked up in the memory file.
    SeekingMemoryFile {
        /// The stretches to overwrite.
        runs: Vec<ZeroRun>,
        /// Which of them is next.
        next: usize,
    },
    /// Zero pages are being written to the memory file.
    WritingZeros {
        /// The stretches to overwrite.
        runs: Vec<ZeroRun>,
        /// Which of them is being overwritten.
        next: usize,
    },
    /// The memory file is being flushed.
    FlushingMemoryFile,
    /// The virtio devices are being listed once more, to find those that are activated.
    ListingActivated,
    /// The queue memory of activated devices is being marked dirty.
    MarkingQueues,
    /// Creation is over.
    Finished,
}

/// What a piece of work gave.
#[derive(Debug)]
pub enum SnapshotEvent {
    /// A snapshot has been requested.
    Requested,
    /// The microVM has answered with its state.
    StateSaved(Result<MicrovmState, MicrovmStateError>),
    /// A file operation has ended.
    FileOperationDone(Result<(), String>),
    /// The state has been written to the snapshot file, or could not be serialized.
    StateSerialized(Result<(), String>),
    /// Guest memory has been written to the memory file, or could not be.
    MemoryWritten(Result<(), CreateSnapshotError>),
    /// The virtio devices.
    DevicesListed(Vec<VirtioDevice>),
    /// Queue memory has been marked dirty.
    QueuesMarked,
}

/// A piece of work to do next.
#[derive(Debug)]
pub enum SnapshotAction {
    /// Ask the microVM for its state.
    SaveState,
    /// Create or truncate the snapshot file and open it for writing.
    OpenStateFile {
        /// The path of the file.
        path: String,
    },
    /// Write the state to the snapshot file.
    SerializeState {
        /// The state.
        state: MicrovmState,
        /// The version that is written before it.
        version: (u64, u64, u64),
    },
    /// Flush the snapshot file.
    FlushStateFile,
    /// Sync the snapshot file to disk.
    SyncStateFile,
    /// Write guest memory to the memory file.
    WriteMemory {
        /// The path of the file.
        path: String,
        /// Which pages go into it.
        snapshot_type: SnapshotType,
    },
    /// List the virtio devices.
    ListDevices,
    /// Open the memory file for reading and writing.
    OpenMemoryFile {
        /// The path of the file.
        path: String,
        /// How many pages of it will be zeroed.
        pages_zeroed: usize,
        /// How many bytes that are.
        bytes_zeroed: u64,
    },
    /// Move to an offset in the memory file.
    SeekMemoryFile {
        /// The offset.
        offset: u64,
    },
    /// Write zero pages to the memory file where it stands.
    WriteZeroPages {
        /// How many.
        page_count: u64,
    },
    /// Flush the memory file.
    FlushMemoryFile,
    /// Mark the queue memory of devices dirty, once for each, and of no others.
    MarkQueuesDirty {
        /// The indices of these devices in the list of all.
        devices: Vec<usize>,
    },
    /// Report the outcome.
    Finish(Result<(), CreateSnapshotError>),
}

impl SnapshotPhase {
    /// The indices of a phase point into its stretches.
    pub open spec fn well_formed(self) -> bool {
        match self {
            SnapshotPhase::OpeningMemoryFile { runs } => runs@.len() > 0,
            SnapshotPhase::SeekingMemoryFile { runs, next } => next < runs@.len(),
            SnapshotPhase::WritingZeros { runs, next } => next < runs@.len(),
            _ => true,
        }
    }

    /// Whether `event` is the kind of outcome that this phase waits for.
    pub open spec fn awaits(self, event: SnapshotEvent) -> bool {
        match self {
            SnapshotPhase::Idle => event is Requested,
            SnapshotPhase::SavingState => event is StateSaved,
            SnapshotPhase::OpeningStateFile { .. } => event is FileOperationDone,
            SnapshotPhase::SerializingState => event is StateSerialized,
            SnapshotPhase::FlushingStateFile => event is FileOperationDone,
            SnapshotPhase::SyncingStateFile => event is FileOperationDone,
            SnapshotPhase::WritingMemory => event is MemoryWritten,
            SnapshotPhase::ListingDevices => event is DevicesListed,
            SnapshotPhase::OpeningMemoryFile { .. } => event is FileOperationDone,
            SnapshotPhase::SeekingMemoryFile { .. } => event is FileOperationDone,
            SnapshotPhase::WritingZeros { .. } => event is FileOperationDone,
            SnapshotPhase::FlushingMemoryFile => event is FileOperationDone,
            SnapshotPhase::ListingActivated => event is DevicesListed,
            SnapshotPhase::MarkingQueues => event is QueuesMarked,
            SnapshotPhase::Finished => false,
        }
    }
}

/// The end of a creation that fails with `error`.
pub open spec fn failed(error: CreateSnapshotError) -> (SnapshotPhase, SnapshotAction) {
    (SnapshotPhase::Finished, SnapshotAction::Finish(Err(error)))
}

/// `step` is what follows when the devices have been listed: the pages that balloons have
/// inflated are refused, or planned for zeroing, or there are none.
pub open spec fn step_after_listing(
    devices: Seq<VirtioDevice>,
    vm_info: VmInfo,
    params: CreateSnapshotParams,
    step: (SnapshotPhase, SnapshotAction),
) -> bool {
    let pages = inflated_by(devices);
    let total = memory_pages(vm_info);
    if exists|p: u32| pages.contains(p) && p >= total {
        &&& step.0 is Finished
        &&& step.1 matches SnapshotAction::Finish(Err(e)) && free_pages_refused(e, pages, total)
    } else if exists|p: u32| pages.contains(p) {
        &&& step.0 matches SnapshotPhase::OpeningMemoryFile { runs }
            && crate::zeroing::planned_runs(runs@, pages, total)
        &&& step.1 matches SnapshotAction::OpenMemoryFile { path, pages_zeroed, bytes_zeroed }
            && path == params.mem_file_path && pages_zeroed == pages.len() && bytes_zeroed
            == pages.len() * FREE_PAGE_SIZE
    } else {
        step == (SnapshotPhase::ListingActivated, SnapshotAction::ListDevices)
    }
}

/// `step` is what follows when `event` ends the work of `phase`.
pub open spec fn snapshot_step(
    phase: SnapshotPhase,
    event: SnapshotEvent,
    vm_info: VmInfo,
    params: CreateSnapshotParams,
    step: (SnapshotPhase, SnapshotAction),
) -> bool {
    match (phase, event) {
        (SnapshotPhase::Idle, SnapshotEvent::Requested) => step == (
            SnapshotPhase::SavingState,
            SnapshotAction::SaveState,
        ),
        (SnapshotPhase::SavingState, SnapshotEvent::StateSaved(Ok(state))) => step == (
            SnapshotPhase::OpeningStateFile { state },
            SnapshotAction::OpenStateFile { path: params.snapshot_path },
        ),
        (SnapshotPhase::SavingState, SnapshotEvent::StateSaved(Err(e))) => step == failed(
            CreateSnapshotError::MicrovmState(e),
        ),
        (
            SnapshotPhase::OpeningStateFile { state },
            SnapshotEvent::FileOperationDone(Ok(_)),
        ) => step == (
            SnapshotPhase::SerializingState,
            SnapshotAction::SerializeState { state, version: spec_snapshot_version() },
        ),
        (
            SnapshotPhase::OpeningStateFile { .. },
            SnapshotEvent::FileOperationDone(Err(e)),
        ) => step == failed(CreateSnapshotError::SnapshotBackingFile(FileOperation::Open, e)),
        (SnapshotPhase::SerializingState, SnapshotEvent::StateSerialized(Ok(_))) => step == (
            SnapshotPhase::FlushingStateFile,
            SnapshotAction::FlushStateFile,
        ),
        (SnapshotPhase::SerializingState, SnapshotEvent::StateSerialized(Err(e))) => step
            == failed(CreateSnapshotError::SerializeMicrovmState(e)),
        (SnapshotPhase::FlushingStateFile, SnapshotEvent::FileOperationDone(Ok(_))) => step == (
            SnapshotPhase::SyncingStateFile,
            SnapshotAction::SyncStateFile,
        ),
        (SnapshotPhase::FlushingStateFile, SnapshotEvent::FileOperationDone(Err(e))) => step
            == failed(CreateSnapshotError::SnapshotBackingFile(FileOperation::Flush, e)),
        (SnapshotPhase::SyncingStateFile, SnapshotEvent::FileOperationDone(Ok(_))) => step == (
            SnapshotPhase::WritingMemory,
            SnapshotAction::WriteMemory {
                path: params.mem_file_path,
                snapshot_type: params.snapshot_type,
            },
        ),
        (SnapshotPhase::SyncingStateFile, SnapshotEvent::FileOperationDone(Err(e))) => step
            == failed(CreateSnapshotError::SnapshotBackingFile(FileOperation::SyncAll, e)),
        (SnapshotPhase::WritingMemory, SnapshotEvent::MemoryWritten(Ok(_))) => step
            == match params.snapshot_type {
            SnapshotType::Full => (SnapshotPhase::ListingDevices, SnapshotAction::ListDevices),
            SnapshotType::Diff => (SnapshotPhase::ListingActivated, SnapshotAction::ListDevices),
        },
        (SnapshotPhase::WritingMemory, SnapshotEvent::MemoryWritten(Err(e))) => step == failed(e),
        (SnapshotPhase::ListingDevices, SnapshotEvent::DevicesListed(devices)) => {
            step_after_listing(devices@, vm_info, params, step)
        },
        (
            SnapshotPhase::OpeningMemoryFile { runs },
            SnapshotEvent::FileOperationDone(Ok(_)),
        ) => step == (
            SnapshotPhase::SeekingMemoryFile { runs, next: 0 },
            SnapshotAction::SeekMemoryFile { offset: runs@[0].start_offset },
        ),
        (
            SnapshotPhase::OpeningMemoryFile { .. },
            SnapshotEvent::FileOperationDone(Err(e)),
        ) => step == failed(CreateSnapshotError::MemoryBackingFile(FileOperation::Open, e)),
        (
            SnapshotPhase::SeekingMemoryFile { runs, next },
            SnapshotEvent::FileOperationDone(Ok(_)),
        ) => step == (
            SnapshotPhase::WritingZeros { runs, next },
            SnapshotAction::WriteZeroPages { page_count: runs@[next as int].page_count },
        ),
        (
            SnapshotPhase::SeekingMemoryFile { .. },
            SnapshotEvent::FileOperationDone(Err(e)),
        ) => step == failed(CreateSnapshotError::MemoryBackingFile(FileOperation::Seek, e)),
        (
            SnapshotPhase::WritingZeros { runs, next },
            SnapshotEvent::FileOperationDone(Ok(_)),
        ) => step == if next + 1 < runs@.len() {
            (
                SnapshotPhase::SeekingMemoryFile { runs, next: (next + 1) as usize },
                SnapshotAction::SeekMemoryFile { offset: runs@[next + 1].start_offset },
            )
        } else {
            (SnapshotPhase::FlushingMemoryFile, SnapshotAction::FlushMemoryFile)
        },
        (
            SnapshotPhase::WritingZeros { .. },
            SnapshotEvent::FileOperationDone(Err(e)),
        ) => step == failed(CreateSnapshotError::MemoryBackingFile(FileOperation::Write, e)),
        (SnapshotPhase::FlushingMemoryFile, SnapshotEvent::FileOperationDone(Ok(_))) => step == (
            SnapshotPhase::ListingActivated,
            SnapshotAction::ListDevices,
        ),
        (SnapshotPhase::FlushingMemoryFile, SnapshotEvent::FileOperationDone(Err(e))) => step
            == failed(CreateSnapshotError::MemoryBackingFile(FileOperation::Flush, e)),
        (SnapshotPhase::ListingActivated, SnapshotEvent::DevicesListed(devices)) => {
            &&& step.0 == SnapshotPhase::MarkingQueues
            &&& step.1 matches SnapshotAction::MarkQueuesDirty { devices: indices } && indices@
                == activated_devices(devices@)
        },
        (SnapshotPhase::MarkingQueues, SnapshotEvent::QueuesMarked) => step == (
            SnapshotPhase::Finished,
            SnapshotAction::Finish(Ok(())),
        ),
        (_, _) => false,
    }
}

fn fail(error: CreateSnapshotError) -> (step: (SnapshotPhase, SnapshotAction))
    ensures
        step == failed(error),
{
    (SnapshotPhase::Finished, SnapshotAction::Finish(Err(error)))
}

/// Decides what follows when the devices have been listed.
fn plan_zeroing(
    devices: &Vec<VirtioDevice>,
    vm_info: &VmInfo,
    params: &CreateSnapshotParams,
) -> (step: (SnapshotPhase, SnapshotAction))
    requires
        memory_size_fits(*vm_info),
    ensures
        step_after_listing(devices@, *vm_info, *params, step),
        step.0.well_formed(),
{
    let ghost pages = inflated_by(devices@);
    match collect_free_pages_for_zeroing(devices, vm_info) {
        Ok(bitmap) => {
            proof {
                crate::free_pages::law_marked_count_is_set_size(bitmap, pages);
                if pages.len() == 0 {
                    assert(pages =~= Set::empty());
                } else {
                    assert(pages.contains(pages.choose()));
                }
            }
            if bitmap.free_page_count() > 0 {
                proof {
                    crate::zeroing::law_pages_to_zero_are_the_set(bitmap, pages);
                }
                let plan: ZeroPlan = plan_zero_free_pages(&bitmap);
                let runs: Vec<ZeroRun> = plan.runs();
                proof {
                    assert(crate::zeroing::planned_runs(runs@, pages, memory_pages(*vm_info)));
                    crate::zeroing::lemma_flat_runs_nonempty(
                        plan.batches@,
                        crate::zeroing::pages_to_zero(bitmap),
                    );
                }
                (
                    SnapshotPhase::OpeningMemoryFile { runs },
                    SnapshotAction::OpenMemoryFile {
                        path: params.mem_file_path.clone(),
                        pages_zeroed: plan.pages_zeroed,
                        bytes_zeroed: plan.bytes_zeroed,
                    },
                )
            } else {
                (SnapshotPhase::ListingActivated, SnapshotAction::ListDevices)
            }
        },
        Err(e) => fail(e),
    }
}

/// Creates a microVM snapshot: given what the work of `phase` gave, says what to do next.
pub fn create_snapshot(
    phase: SnapshotPhase,
    event: SnapshotEvent,
    vm_info: &VmInfo,
    params: &CreateSnapshotParams,
) -> (step: (SnapshotPhase, SnapshotAction))
    requires
        phase.well_formed(),
        phase.awaits(event),
        phase is ListingDevices ==> memory_size_fits(*vm_info),
    ensures
        snapshot_step(phase, event, *vm_info, *params, step),
        step.0.well_formed(),
{
    match (phase, event) {
        (SnapshotPhase::Idle, SnapshotEvent::Requested) => (
            SnapshotPhase::SavingState,
            SnapshotAction::SaveState,
        ),
        (SnapshotPhase::SavingState, SnapshotEvent::StateSaved(Ok(state))) => (
            SnapshotPhase::OpeningStateFile { state },
            SnapshotAction::OpenStateFile { path: params.snapshot_path.clone() },
        ),
        (SnapshotPhase::SavingState, SnapshotEvent::StateSaved(Err(e))) => fail(
            CreateSnapshotError::MicrovmState(e),
        ),
        (SnapshotPhase::OpeningStateFile { state }, SnapshotEvent::FileOperationDone(Ok(_))) => (
            SnapshotPhase::SerializingState,
            SnapshotAction::SerializeState { state, version: snapshot_version() },
        ),
        (SnapshotPhase::OpeningStateFile { .. }, SnapshotEvent::FileOperationDone(Err(e))) => fail(
            CreateSnapshotError::SnapshotBackingFile(FileOperation::Open, e),
        ),
        (SnapshotPhase::SerializingState, SnapshotEvent::StateSerialized(Ok(_))) => (
            SnapshotPhase::FlushingStateFile,
            SnapshotAction::FlushStateFile,
        ),
        (SnapshotPhase::SerializingState, SnapshotEvent::StateSerialized(Err(e))) => fail(
            CreateSnapshotError::SerializeMicrovmState(e),
        ),
        (SnapshotPhase::FlushingStateFile, SnapshotEvent::FileOperationDone(Ok(_))) => (
            SnapshotPhase::SyncingStateFile,
            SnapshotAction::SyncStateFile,
        ),
        (SnapshotPhase::FlushingStateFile, SnapshotEvent::FileOperationDone(Err(e))) => fail(
            CreateSnapshotError::SnapshotBackingFile(FileOperation::Flush, e),
        ),
        (SnapshotPhase::SyncingStateFile, SnapshotEvent::FileOperationDone(Ok(_))) => (
            SnapshotPhase::WritingMemory,
            SnapshotAction::WriteMemory {
                path: params.mem_file_path.clone(),
                snapshot_type: params.snapshot_type,
            },
        ),
        (SnapshotPhase::SyncingStateFile, SnapshotEvent::FileOperationDone(Err(e))) => fail(
            CreateSnapshotError::SnapshotBackingFile(FileOperation::SyncAll, e),
        ),
        (SnapshotPhase::WritingMemory, SnapshotEvent::MemoryWritten(Ok(_))) => {
            match params.snapshot_type {
                SnapshotType::Full => (SnapshotPhase::ListingDevices, SnapshotAction::ListDevices),
                SnapshotType::Diff => (
                    SnapshotPhase::ListingActivated,
                    SnapshotAction::ListDevices,
                ),
            }
        },
        (SnapshotPhase::WritingMemory, SnapshotEvent::MemoryWritten(Err(e))) => fail(e),
        (SnapshotPhase::ListingDevices, SnapshotEvent::DevicesListed(devices)) => {
            plan_zeroing(&devices, vm_info, params)
        },
        (SnapshotPhase::OpeningMemoryFile { runs }, SnapshotEvent::FileOperationDone(Ok(_))) => {
            let offset: u64 = runs[0].start_offset;
            (
                SnapshotPhase::SeekingMemoryFile { runs, next: 0 },
                SnapshotAction::SeekMemoryFile { offset },
            )
        },
        (SnapshotPhase::OpeningMemoryFile { .. }, SnapshotEvent::FileOperationDone(Err(e))) => fail(
            CreateSnapshotError::MemoryBackingFile(FileOperation::Open, e),
        ),
        (
            SnapshotPhase::SeekingMemoryFile { runs, next },
            SnapshotEvent::FileOperationDone(Ok(_)),
        ) => {
            let page_count: u64 = runs[next].page_count;
            (
                SnapshotPhase::WritingZeros { runs, next },
                SnapshotAction::WriteZeroPages { page_count },
            )
        },
        (SnapshotPhase::SeekingMemoryFile { .. }, SnapshotEvent::FileOperationDone(Err(e))) => fail(
            CreateSnapshotError::MemoryBackingFile(FileOperation::Seek, e),
        ),
        (SnapshotPhase::WritingZeros { runs, next }, SnapshotEvent::FileOperationDone(Ok(_))) => {
            if next < runs.len() - 1 {
                let offset: u64 = runs[next + 1].start_offset;
                (
                    SnapshotPhase::SeekingMemoryFile { runs, next: next + 1 },
                    SnapshotAction::SeekMemoryFile { offset },
                )
            } else {
                (SnapshotPhase::FlushingMemoryFile, SnapshotAction::FlushMemoryFile)
            }
        },
        (SnapshotPhase::WritingZeros { .. }, SnapshotEvent::FileOperationDone(Err(e))) => fail(
            CreateSnapshotError::MemoryBackingFile(FileOperation::Write, e),
        ),
        (SnapshotPhase::FlushingMemoryFile, SnapshotEvent::FileOperationDone(Ok(_))) => (
            SnapshotPhase::ListingActivated,
            SnapshotAction::ListDevices,
        ),
        (SnapshotPhase::FlushingMemoryFile, SnapshotEvent::FileOperationDone(Err(e))) => fail(
            CreateSnapshotError::MemoryBackingFile(FileOperation::Flush, e),
        ),
        (SnapshotPhase::ListingActivated, SnapshotEvent::DevicesListed(devices)) => (
            SnapshotPhase::MarkingQueues,
            SnapshotAction::MarkQueuesDirty { devices: list_activated(&devices) },
        ),
        (SnapshotPhase::MarkingQueues, SnapshotEvent::QueuesMarked) => (
            SnapshotPhase::Finished,
            SnapshotAction::Finish(Ok(())),
        ),
        (_, _) => vstd::pervasive::unreached(),
    }
}

impl SnapshotPhase {
    /// How many kinds of work are still ahead at most.
    pub open spec fn stages_left(self) -> nat {
        match self {
            SnapshotPhase::Idle => 13,
            SnapshotPhase::SavingState => 12,
            SnapshotPhase::OpeningStateFile { .. } => 11,
            SnapshotPhase::SerializingState => 10,
            SnapshotPhase::FlushingStateFile => 9,
            SnapshotPhase::SyncingStateFile => 8,
            SnapshotPhase::WritingMemory => 7,
            SnapshotPhase::ListingDevices => 6,
            SnapshotPhase::OpeningMemoryFile { .. } => 5,
            SnapshotPhase::SeekingMemoryFile { .. } => 4,
            SnapshotPhase::WritingZeros { .. } => 4,
            SnapshotPhase::FlushingMemoryFile => 3,
            SnapshotPhase::ListingActivated => 2,
            SnapshotPhase::MarkingQueues => 1,
            SnapshotPhase::Finished => 0,
        }
    }

    /// How many pieces of work of the same kind are still ahead.
    pub open spec fn work_left(self) -> int {
        match self {
            SnapshotPhase::SeekingMemoryFile { runs, next } => 2 * (runs@.len() - next),
            SnapshotPhase::WritingZeros { runs, next } => 2 * (runs@.len() - next) - 1,
            _ => 0,
        }
    }

    /// Whether the memory file is being zeroed, or its zeroing prepared.
    pub open spec fn concerns_zeroing(self) -> bool {
        match self {
            SnapshotPhase::ListingDevices => true,
            SnapshotPhase::OpeningMemoryFile { .. } => true,
            SnapshotPhase::SeekingMemoryFile { .. } => true,
            SnapshotPhase::WritingZeros { .. } => true,
            SnapshotPhase::FlushingMemoryFile => true,
            _ => false,
        }
    }
}

impl SnapshotEvent {
    /// Whether the event reports a failure.
    pub open spec fn is_failure(self) -> bool {
        match self {
            SnapshotEvent::StateSaved(outcome) => outcome is Err,
            SnapshotEvent::FileOperationDone(outcome) => outcome is Err,
            SnapshotEvent::StateSerialized(outcome) => outcome is Err,
            SnapshotEvent::MemoryWritten(outcome) => outcome is Err,
            _ => false,
        }
    }
}

/// Every snapshot creation ends: each step leaves fewer kinds of work ahead, or less work of the
/// same kind.
pub proof fn law_creation_ends(
    phase: SnapshotPhase,
    event: SnapshotEvent,
    vm_info: VmInfo,
    params: CreateSnapshotParams,
    step: (SnapshotPhase, SnapshotAction),
)
    requires
        phase.well_formed(),
        snapshot_step(phase, event, vm_info, params, step),
    ensures
        step.0.stages_left() < phase.stages_left() || (step.0.stages_left() == phase.stages_left()
            && 0 <= step.0.work_left() < phase.work_left()),
{
    if let SnapshotPhase::WritingZeros { runs, next } = phase {
        assert(runs.len() == runs@.len());
    }
}

/// The first failure ends the creation with an error, and creation ends only by reporting an
/// outcome.
pub proof fn law_failure_ends_creation(
    phase: SnapshotPhase,
    event: SnapshotEvent,
    vm_info: VmInfo,
    params: CreateSnapshotParams,
    step: (SnapshotPhase, SnapshotAction),
)
    requires
        snapshot_step(phase, event, vm_info, params, step),
    ensures
        event.is_failure() ==> step.0 is Finished && step.1->Finish_0 is Err,
        step.0 is Finished <==> step.1 is Finish,
{
}

/// A creation succeeds exactly when the queues of the devices have been marked dirty: marking is
/// asked for once, success follows it, and no error does.
pub proof fn law_success_follows_queue_marking(
    phase: SnapshotPhase,
    event: SnapshotEvent,
    vm_info: VmInfo,
    params: CreateSnapshotParams,
    step: (SnapshotPhase, SnapshotAction),
)
    requires
        snapshot_step(phase, event, vm_info, params, step),
    ensures
        step.1 matches SnapshotAction::Finish(Ok(_)) ==> phase is MarkingQueues && event
            is QueuesMarked,
        step.0 is MarkingQueues <==> step.1 is MarkQueuesDirty,
        step.0 is MarkingQueues ==> phase is ListingActivated,
        phase is MarkingQueues ==> step == (
            SnapshotPhase::Finished,
            SnapshotAction::Finish(Ok(())),
        ),
{
}

/// The devices whose queues are marked are exactly the activated ones, each of them once, in the
/// order in which they are listed.
pub proof fn law_activated_devices_are_marked(
    devices: Vec<VirtioDevice>,
    vm_info: VmInfo,
    params: CreateSnapshotParams,
    step: (SnapshotPhase, SnapshotAction),
)
    requires
        snapshot_step(
            SnapshotPhase::ListingActivated,
            SnapshotEvent::DevicesListed(devices),
            vm_info,
            params,
            step,
        ),
    ensures
        step.1 matches SnapshotAction::MarkQueuesDirty { devices: indices } && indices@
            .no_duplicates() && forall|i: usize| #[trigger]
            indices@.contains(i) <==> i < devices@.len() && devices@[i as int].activated,
        step.1 matches SnapshotAction::MarkQueuesDirty { devices: indices } && forall|
            i: int,
            j: int,
        |
            0 <= i < j < indices@.len() ==> #[trigger] indices@[i] < #[trigger] indices@[j],
{
    assert(devices.len() == devices@.len());
    lemma_activated_devices(devices@);
}

proof fn lemma_activated_devices(devices: Seq<VirtioDevice>)
    requires
        devices.len() <= usize::MAX,
    ensures
        activated_devices(devices).no_duplicates(),
        forall|i: usize| #[trigger]
            activated_devices(devices).contains(i) <==> i < devices.len()
                && devices[i as int].activated,
        forall|i: int, j: int|
            0 <= i < j < activated_devices(devices).len() ==> #[trigger] activated_devices(
                devices,
            )[i] < #[trigger] activated_devices(devices)[j],
    decreases devices.len(),
{
    if devices.len() > 0 {
        let rest = devices.drop_last();
        let last = (devices.len() - 1) as usize;
        lemma_activated_devices(rest);
        assert forall|i: usize| #[trigger]
            activated_devices(devices).contains(i) <==> i < devices.len()
                && devices[i as int].activated by {
            assert(activated_devices(rest).contains(i) <==> i < rest.len()
                && rest[i as int].activated);
            if devices.last().activated {
                crate::free_pages::lemma_contains_push(activated_devices(rest), last, i);
            }
        }
        assert(!activated_devices(rest).contains(last));
        if devices.last().activated {
            assert forall|i: int, j: int|
                0 <= i < j < activated_devices(devices).len() implies activated_devices(devices)[i]
                != activated_devices(devices)[j] by {
                assert(activated_devices(rest).contains(activated_devices(rest)[i]));
            }
            assert forall|i: int, j: int|
                0 <= i < j < activated_devices(devices).len() implies #[trigger] activated_devices(
                devices,
            )[i] < #[trigger] activated_devices(devices)[j] by {
                assert(activated_devices(rest).contains(activated_devices(rest)[i]));
            }
        }
    }
}

/// Only a full snapshot has pages of its memory file zeroed: a diff snapshot never comes to a
/// phase that concerns zeroing.
pub proof fn law_diff_snapshot_is_not_zeroed(
    phase: SnapshotPhase,
    event: SnapshotEvent,
    vm_info: VmInfo,
    params: CreateSnapshotParams,
    step: (SnapshotPhase, SnapshotAction),
)
    requires
        params.snapshot_type is Diff,
        snapshot_step(phase, event, vm_info, params, step),
        !phase.concerns_zeroing(),
    ensures
        !step.0.concerns_zeroing(),
        !(step.1 is OpenMemoryFile),
        !(step.1 is SeekMemoryFile),
        !(step.1 is WriteZeroPages),
{
}

/// Whether the memory file, which held `initial` when its zeroing began, holds what it should in
/// `phase`: the stretches of the plan that are done are overwritten.
pub open spec fn memory_file_is_as_planned(
    phase: SnapshotPhase,
    plan: Seq<ZeroRun>,
    initial: Seq<u8>,
    file: Seq<u8>,
) -> bool {
    match phase {
        SnapshotPhase::OpeningMemoryFile { runs } => runs@ == plan && file == initial,
        SnapshotPhase::SeekingMemoryFile { runs, next } => runs@ == plan && file
            == crate::zeroing::after_runs(initial, plan.take(next as int)),
        SnapshotPhase::WritingZeros { runs, next } => runs@ == plan && file
            == crate::zeroing::after_runs(initial, plan.take(next as int)),
        SnapshotPhase::FlushingMemoryFile => file == crate::zeroing::after_runs(initial, plan),
        _ => true,
    }
}

/// The memory file after the work of `phase` has succeeded: zero pages are written where the
/// stretch starts that was looked up before.
pub open spec fn memory_file_after(phase: SnapshotPhase, file: Seq<u8>) -> Seq<u8> {
    match phase {
        SnapshotPhase::WritingZeros { runs, next } => crate::zeroing::zeros_written(
            file,
            runs@[next as int].start_offset as int,
            runs@[next as int].page_count * crate::zeroing::PAGE_SIZE,
        ),
        _ => file,
    }
}

/// Zeroing follows the plan: from the opening of the memory file on, each piece of work that
/// succeeds leaves the file with one more stretch of the plan overwritten, the seek and the write
/// that are asked for are those of the stretch that is next, and the flush comes when all of them
/// are done.
pub proof fn law_zeroing_follows_the_plan(
    phase: SnapshotPhase,
    event: SnapshotEvent,
    vm_info: VmInfo,
    params: CreateSnapshotParams,
    step: (SnapshotPhase, SnapshotAction),
    plan: Seq<ZeroRun>,
    initial: Seq<u8>,
    file: Seq<u8>,
)
    requires
        phase.well_formed(),
        phase.concerns_zeroing(),
        !(phase is ListingDevices),
        !event.is_failure(),
        snapshot_step(phase, event, vm_info, params, step),
        memory_file_is_as_planned(phase, plan, initial, file),
    ensures
        memory_file_is_as_planned(step.0, plan, initial, memory_file_after(phase, file)),
        step.1 matches SnapshotAction::SeekMemoryFile { offset } ==> step.0 is SeekingMemoryFile
            && offset == plan[step.0->SeekingMemoryFile_next as int].start_offset,
        step.1 matches SnapshotAction::WriteZeroPages { page_count } ==> step.0 is WritingZeros
            && page_count == plan[step.0->WritingZeros_next as int].page_count,
        step.1 is FlushMemoryFile <==> step.0 is FlushingMemoryFile,
{
    match phase {
        SnapshotPhase::OpeningMemoryFile { runs } => {
            assert(plan.take(0) =~= Seq::empty());
        },
        SnapshotPhase::WritingZeros { runs, next } => {
            assert(plan.take(next + 1).drop_last() =~= plan.take(next as int));
            if next + 1 == plan.len() {
                assert(plan.take(next + 1) =~= plan);
            } else {
                assert(runs.len() == runs@.len());
            }
        },
        _ => {},
    }
}

/// When the memory file of a full snapshot is flushed, exactly the pages that balloons have
/// inflated are zeroed in it.
pub proof fn law_inflated_pages_are_zeroed(
    devices: Seq<VirtioDevice>,
    vm_info: VmInfo,
    params: CreateSnapshotParams,
    step: (SnapshotPhase, SnapshotAction),
    initial: Seq<u8>,
    file: Seq<u8>,
)
    requires
        step_after_listing(devices, vm_info, params, step),
        step.0 is OpeningMemoryFile,
        memory_file_is_as_planned(
            SnapshotPhase::FlushingMemoryFile,
            step.0->OpeningMemoryFile_runs@,
            initial,
            file,
        ),
    ensures
        crate::zeroing::zeroed_copy(
            file,
            initial,
            Set::new(|p: int| 0 <= p <= u32::MAX && inflated_by(devices).contains(p as u32)),
        ),
{
    crate::zeroing::law_planned_runs_zero_the_set(
        step.0->OpeningMemoryFile_runs@,
        inflated_by(devices),
        memory_pages(vm_info),
        initial,
    );
}

/// The pages of 4096 bytes make up the memory: their total size is the memory size of the VM. A
/// memory size is within bounds exactly if its bytes can be counted, and so can 32 bytes of bitmap
/// for each MiB.
pub proof fn law_pages_make_up_the_memory(vm_info: VmInfo)
    ensures
        memory_pages(vm_info) * 4096 == vm_info.mem_size_mib * 1048576,
        memory_size_fits(vm_info) <==> vm_info.mem_size_mib * 1048576 <= u64::MAX
            && vm_info.mem_size_mib * 32 <= usize::MAX,
{
}

/// Whether one of the devices is a balloon, the virtio device of type 5, that lists `page` among
/// its inflated pages.
pub open spec fn is_ballooned(devices: Seq<VirtioDevice>, page: u32) -> bool {
    exists|i: int|
        0 <= i < devices.len() && (#[trigger] devices[i]).device_type == 5
            && devices[i].inflated_pages is Some && devices[i].inflated_pages->0@.contains(page)
}

/// Whether a page of 4096 bytes starts behind the memory of a VM.
pub open spec fn is_outside_memory(vm_info: VmInfo, page: u32) -> bool {
    page * 4096 >= vm_info.mem_size_mib * 1048576
}

/// The pages that are collected are those that a balloon has inflated.
pub proof fn law_collected_pages_are_ballooned(devices: Seq<VirtioDevice>)
    ensures
        forall|page: u32| #[trigger]
            inflated_by(devices).contains(page) <==> is_ballooned(devices, page),
        inflated_by(devices) == Set::new(|page: u32| is_ballooned(devices, page)),
{
    assert forall|page: u32| #[trigger] inflated_by(devices).contains(page) <==> is_ballooned(
        devices,
        page,
    ) by {
        if inflated_by(devices).contains(page) {
            let i = choose|i: int|
                0 <= i < devices.len() && (#[trigger] devices[i]).has_inflated(page);
            assert(devices[i].device_type == 5);
        }
        if is_ballooned(devices, page) {
            let i = choose|i: int|
                0 <= i < devices.len() && (#[trigger] devices[i]).device_type == 5
                    && devices[i].inflated_pages is Some
                    && devices[i].inflated_pages->0@.contains(page);
            assert(devices[i].has_inflated(page));
        }
    }
    assert(inflated_by(devices) =~= Set::new(|page: u32| is_ballooned(devices, page)));
}

/// In a full snapshot, what follows on the list of devices rests on the ballooned pages alone: one
/// that starts behind the memory of the VM is refused, and the refusal names such a page and how
/// many pages the memory has; where there is none of these, the memory file is opened exactly if
/// some page is ballooned, to zero as many pages as are; else nothing is zeroed.
pub proof fn law_ballooned_pages_are_zeroed_or_refused(
    devices: Vec<VirtioDevice>,
    vm_info: VmInfo,
    params: CreateSnapshotParams,
    step: (SnapshotPhase, SnapshotAction),
)
    requires
        snapshot_step(
            SnapshotPhase::ListingDevices,
            SnapshotEvent::DevicesListed(devices),
            vm_info,
            params,
            step,
        ),
    ensures
        step.1 is Finish <==> exists|page: u32| #[trigger]
            is_ballooned(devices@, page) && is_outside_memory(vm_info, page),
        step.1 is Finish ==> (step.1 matches SnapshotAction::Finish(
            Err(
                CreateSnapshotError::FreePagesbitmap(
                    FreePagesError::InvalidPageNumber(page, total),
                ),
            ),
        ) && is_ballooned(devices@, page) && is_outside_memory(vm_info, page) && total * 4096
            == vm_info.mem_size_mib * 1048576),
        step.1 is OpenMemoryFile <==> (exists|page: u32| #[trigger] is_ballooned(devices@, page))
            && forall|page: u32| #[trigger]
            is_ballooned(devices@, page) ==> !is_outside_memory(vm_info, page),
        step.1 matches SnapshotAction::OpenMemoryFile { path, pages_zeroed, bytes_zeroed } ==> {
            &&& path == params.mem_file_path
            &&& pages_zeroed == Set::new(|page: u32| is_ballooned(devices@, page)).len()
            &&& bytes_zeroed == pages_zeroed * 4096
        },
        step.1 is ListDevices <==> forall|page: u32| !#[trigger] is_ballooned(devices@, page),
{
    let pages = inflated_by(devices@);
    let total = memory_pages(vm_info);
    law_collected_pages_are_ballooned(devices@);
    law_pages_make_up_the_memory(vm_info);
    assert forall|page: u32| is_outside_memory(vm_info, page) <==> page >= total by {}
    assert forall|page: u32|
        pages.contains(page) && page >= total implies #[trigger] is_ballooned(devices@, page)
        && is_outside_memory(vm_info, page) by {}
    if exists|page: u32| #[trigger]
        is_ballooned(devices@, page) && is_outside_memory(vm_info, page) {
        let page = choose|page: u32| #[trigger]
            is_ballooned(devices@, page) && is_outside_memory(vm_info, page);
        assert(pages.contains(page) && page >= total);
    } else if exists|page: u32| #[trigger] is_ballooned(devices@, page) {
        let page = choose|page: u32| #[trigger] is_ballooned(devices@, page);
        assert(pages.contains(page));
    }
}

/// What a creation asks for first, and what it asks for when the work that it asked for has
/// succeeded. The paths and the kind of snapshot are those of the request, the state that goes
/// into the snapshot file is the one that the microVM answered with, and the version before it is
/// 7.0.0. Guest memory is written once the snapshot file is on disk, and only in a full snapshot
/// are the devices looked at for pages to zero.
pub proof fn law_success_leads_to_the_next_work(
    phase: SnapshotPhase,
    event: SnapshotEvent,
    step: (SnapshotPhase, SnapshotAction),
    next_event: SnapshotEvent,
    next_step: (SnapshotPhase, SnapshotAction),
    vm_info: VmInfo,
    params: CreateSnapshotParams,
)
    requires
        phase.well_formed(),
        snapshot_step(phase, event, vm_info, params, step),
        step.0.well_formed(),
        snapshot_step(step.0, next_event, vm_info, params, next_step),
        !next_event.is_failure(),
    ensures
        event is Requested ==> phase is Idle && step.1 is SaveState,
        step.1 is SaveState ==> next_event is StateSaved && next_step.1
            == (SnapshotAction::OpenStateFile { path: params.snapshot_path }),
        step.1 is OpenStateFile ==> event is StateSaved && next_event is FileOperationDone
            && next_step.1 == (SnapshotAction::SerializeState {
            state: event->StateSaved_0->Ok_0,
            version: (7, 0, 0),
        }),
        step.1 is SerializeState ==> next_event is StateSerialized && next_step.1
            is FlushStateFile,
        step.1 is FlushStateFile ==> next_event is FileOperationDone && next_step.1
            is SyncStateFile,
        step.1 is SyncStateFile ==> next_event is FileOperationDone && next_step.1
            == (SnapshotAction::WriteMemory {
            path: params.mem_file_path,
            snapshot_type: params.snapshot_type,
        }),
        step.1 is WriteMemory ==> next_event is MemoryWritten && next_step.1 is ListDevices,
        step.1 is ListDevices && event is MemoryWritten && params.snapshot_type is Full
            ==> next_event is DevicesListed && (next_step.1 is Finish || next_step.1
            is OpenMemoryFile || next_step.1 is ListDevices),
        step.1 is ListDevices && !(event is MemoryWritten && params.snapshot_type is Full)
            ==> next_event is DevicesListed && next_step.1 is MarkQueuesDirty,
        step.1 is OpenMemoryFile ==> next_event is FileOperationDone && next_step.1
            is SeekMemoryFile,
        step.1 is SeekMemoryFile ==> next_event is FileOperationDone && next_step.1
            is WriteZeroPages,
        step.1 is WriteZeroPages ==> next_event is FileOperationDone && (next_step.1
            is SeekMemoryFile || next_step.1 is FlushMemoryFile),
        step.1 is FlushMemoryFile ==> next_event is FileOperationDone && next_step.1
            is ListDevices,
        step.1 is MarkQueuesDirty ==> next_event is QueuesMarked && next_step.1
            == SnapshotAction::Finish(Ok(())),
        !(step.1 is Finish),
{
}

/// The error of a creation tells what failed and why: it names the work that was asked for, and
/// carries just what that work reported.
pub proof fn law_error_tells_the_failed_work(
    phase: SnapshotPhase,
    event: SnapshotEvent,
    step: (SnapshotPhase, SnapshotAction),
    next_event: SnapshotEvent,
    next_step: (SnapshotPhase, SnapshotAction),
    vm_info: VmInfo,
    params: CreateSnapshotParams,
)
    requires
        snapshot_step(phase, event, vm_info, params, step),
        snapshot_step(step.0, next_event, vm_info, params, next_step),
        next_event.is_failure(),
    ensures
        next_step.1 is Finish && next_step.1->Finish_0 is Err,
        ({
            let error = next_step.1->Finish_0->Err_0;
            let file_error = next_event->FileOperationDone_0->Err_0;
            match step.1 {
                SnapshotAction::SaveState => error == CreateSnapshotError::MicrovmState(
                    next_event->StateSaved_0->Err_0,
                ),
                SnapshotAction::OpenStateFile { .. } => error
                    == CreateSnapshotError::SnapshotBackingFile(FileOperation::Open, file_error),
                SnapshotAction::SerializeState { .. } => error
                    == CreateSnapshotError::SerializeMicrovmState(
                    next_event->StateSerialized_0->Err_0,
                ),
                SnapshotAction::FlushStateFile => error
                    == CreateSnapshotError::SnapshotBackingFile(FileOperation::Flush, file_error),
                SnapshotAction::SyncStateFile => error
                    == CreateSnapshotError::SnapshotBackingFile(FileOperation::SyncAll, file_error),
                SnapshotAction::WriteMemory { .. } => error == next_event->MemoryWritten_0->Err_0,
                SnapshotAction::OpenMemoryFile { .. } => error
                    == CreateSnapshotError::MemoryBackingFile(FileOperation::Open, file_error),
                SnapshotAction::SeekMemoryFile { .. } => error
                    == CreateSnapshotError::MemoryBackingFile(FileOperation::Seek, file_error),
                SnapshotAction::WriteZeroPages { .. } => error
                    == CreateSnapshotError::MemoryBackingFile(FileOperation::Write, file_error),
                SnapshotAction::FlushMemoryFile => error
                    == CreateSnapshotError::MemoryBackingFile(FileOperation::Flush, file_error),
                _ => false,
            }
        }),
{
}

/// Work that was asked for is waited for, whatever it gives.
pub proof fn law_outcome_of_the_work_is_awaited(
    phase: SnapshotPhase,
    event: SnapshotEvent,
    step: (SnapshotPhase, SnapshotAction),
    outcome: SnapshotEvent,
    vm_info: VmInfo,
    params: CreateSnapshotParams,
)
    requires
        snapshot_step(phase, event, vm_info, params, step),
    ensures
        SnapshotPhase::Idle.awaits(outcome) <==> outcome is Requested,
        step.0.awaits(outcome) <==> match step.1 {
            SnapshotAction::SaveState => outcome is StateSaved,
            SnapshotAction::SerializeState { .. } => outcome is StateSerialized,
            SnapshotAction::WriteMemory { .. } => outcome is MemoryWritten,
            SnapshotAction::ListDevices => outcome is DevicesListed,
            SnapshotAction::MarkQueuesDirty { .. } => outcome is QueuesMarked,
            SnapshotAction::Finish(_) => false,
            _ => outcome is FileOperationDone,
        },
{
}

/// Whether step `i` of a run is what follows when the event of the same index ends the work that
/// the step before asked for.
pub open spec fn is_step_of(
    events: Seq<SnapshotEvent>,
    steps: Seq<(SnapshotPhase, SnapshotAction)>,
    vm_info: VmInfo,
    params: CreateSnapshotParams,
    i: int,
) -> bool {
    &&& steps[i].0.well_formed()
    &&& snapshot_step(phase_before(steps, i), events[i], vm_info, params, steps[i])
}

/// Whether `steps` is a run of a creation from its beginning.
pub open spec fn is_creation(
    events: Seq<SnapshotEvent>,
    steps: Seq<(SnapshotPhase, SnapshotAction)>,
    vm_info: VmInfo,
    params: CreateSnapshotParams,
) -> bool {
    &&& events.len() == steps.len()
    &&& forall|i: int|
        0 <= i < steps.len() ==> #[trigger] is_step_of(events, steps, vm_info, params, i)
}

/// The phase in which a run is before its step `i`.
pub open spec fn phase_before(
    steps: Seq<(SnapshotPhase, SnapshotAction)>,
    i: int,
) -> SnapshotPhase {
    if i == 0 {
        SnapshotPhase::Idle
    } else {
        steps[i - 1].0
    }
}

/// An open file: what it holds, and where the next write goes.
pub struct OpenFile {
    /// What the file holds.
    pub content: Seq<u8>,
    /// The offset of the next write.
    pub position: int,
}

impl OpenFile {
    /// The memory file after an action has been performed, of which only seeks and writes of zero
    /// pages concern it.
    pub open spec fn after(self, action: SnapshotAction) -> OpenFile {
        match action {
            SnapshotAction::SeekMemoryFile { offset } => OpenFile {
                position: offset as int,
                ..self
            },
            SnapshotAction::WriteZeroPages { page_count } => OpenFile {
                content: crate::zeroing::zeros_written(
                    self.content,
                    self.position,
                    page_count * 4096,
                ),
                position: self.position + page_count * 4096,
            },
            _ => self,
        }
    }
}

/// The memory file after the actions of the first `n` steps, where guest memory was written to it
/// as `memory`.
pub open spec fn memory_file(
    memory: Seq<u8>,
    steps: Seq<(SnapshotPhase, SnapshotAction)>,
    n: int,
) -> OpenFile
    decreases n,
{
    if n <= 0 {
        OpenFile { content: memory, position: 0 }
    } else {
        memory_file(memory, steps, n - 1).after(steps[n - 1].1)
    }
}

/// Before the memory file is opened nothing is written to it but guest memory.
proof fn lemma_untouched_before_opening(
    events: Seq<SnapshotEvent>,
    steps: Seq<(SnapshotPhase, SnapshotAction)>,
    vm_info: VmInfo,
    params: CreateSnapshotParams,
    memory: Seq<u8>,
    n: int,
)
    requires
        is_creation(events, steps, vm_info, params),
        0 <= n < steps.len(),
        steps[n].0.stages_left() >= 5,
    ensures
        memory_file(memory, steps, n + 1).content == memory,
    decreases n,
{
    assert(is_step_of(events, steps, vm_info, params, n));
    if n > 0 {
        assert(is_step_of(events, steps, vm_info, params, n - 1));
        law_creation_ends(phase_before(steps, n), events[n], vm_info, params, steps[n]);
        lemma_untouched_before_opening(events, steps, vm_info, params, memory, n - 1);
    } else {
        assert(memory_file(memory, steps, 0).content == memory);
    }
}

/// Whether the memory file holds what it should after a step: the stretches of the plan that have
/// been overwritten are those before the next one.
spec fn is_on_plan(
    step: (SnapshotPhase, SnapshotAction),
    plan: Seq<ZeroRun>,
    memory: Seq<u8>,
    file: OpenFile,
) -> bool {
    match step.0 {
        SnapshotPhase::OpeningMemoryFile { runs } => runs@ == plan && file.content == memory,
        SnapshotPhase::SeekingMemoryFile { runs, next } => {
            &&& runs@ == plan
            &&& file.content == crate::zeroing::after_runs(memory, plan.take(next as int))
            &&& file.position == plan[next as int].start_offset
        },
        SnapshotPhase::WritingZeros { runs, next } => {
            &&& runs@ == plan
            &&& file.content == crate::zeroing::after_runs(memory, plan.take(next + 1))
        },
        SnapshotPhase::FlushingMemoryFile => file.content == crate::zeroing::after_runs(
            memory,
            plan,
        ),
        _ => step.0.stages_left() <= 2,
    }
}

/// A step that follows on one on the plan is on the plan.
proof fn lemma_step_stays_on_plan(
    before: (SnapshotPhase, SnapshotAction),
    event: SnapshotEvent,
    step: (SnapshotPhase, SnapshotAction),
    vm_info: VmInfo,
    params: CreateSnapshotParams,
    plan: Seq<ZeroRun>,
    memory: Seq<u8>,
    file: OpenFile,
)
    requires
        before.0.well_formed(),
        is_on_plan(before, plan, memory, file),
        snapshot_step(before.0, event, vm_info, params, step),
    ensures
        is_on_plan(step, plan, memory, file.after(step.1)),
{
    match before.0 {
        SnapshotPhase::OpeningMemoryFile { runs } => {
            assert(plan.take(0) =~= Seq::empty());
        },
        SnapshotPhase::SeekingMemoryFile { runs, next } => {
            assert(plan.take(next + 1).drop_last() =~= plan.take(next as int));
        },
        SnapshotPhase::WritingZeros { runs, next } => {
            assert(runs.len() == runs@.len());
            if next + 1 == plan.len() {
                assert(plan.take(next + 1) =~= plan);
            }
        },
        _ => {},
    }
}

/// From the opening of the memory file on, a run stays on the plan.
proof fn lemma_run_stays_on_plan(
    events: Seq<SnapshotEvent>,
    steps: Seq<(SnapshotPhase, SnapshotAction)>,
    vm_info: VmInfo,
    params: CreateSnapshotParams,
    memory: Seq<u8>,
    k: int,
    n: int,
)
    requires
        is_creation(events, steps, vm_info, params),
        0 <= k <= n < steps.len(),
        steps[k].0 is OpeningMemoryFile,
    ensures
        is_on_plan(
            steps[n],
            steps[k].0->OpeningMemoryFile_runs@,
            memory,
            memory_file(memory, steps, n + 1),
        ),
    decreases n,
{
    if n == k {
        lemma_untouched_before_opening(events, steps, vm_info, params, memory, k);
    } else {
        lemma_run_stays_on_plan(events, steps, vm_info, params, memory, k, n - 1);
        assert(is_step_of(events, steps, vm_info, params, n - 1));
        assert(is_step_of(events, steps, vm_info, params, n));
        lemma_step_stays_on_plan(
            steps[n - 1],
            events[n],
            steps[n],
            vm_info,
            params,
            steps[k].0->OpeningMemoryFile_runs@,
            memory,
            memory_file(memory, steps, n),
        );
    }
}

/// A full snapshot leaves its memory file as guest memory was written to it, but with the
/// ballooned pages zeroed: when a run that has opened the file comes to flush it, and its seeks
/// and writes have been performed as asked for, each byte of a ballooned page is zero, and each
/// other byte of guest memory is as it was. A file that holds the whole memory of the VM keeps its
/// length.
pub proof fn law_full_snapshot_zeroes_ballooned_pages(
    events: Seq<SnapshotEvent>,
    steps: Seq<(SnapshotPhase, SnapshotAction)>,
    vm_info: VmInfo,
    params: CreateSnapshotParams,
    memory: Seq<u8>,
    devices: Vec<VirtioDevice>,
    listed: int,
    flushed: int,
)
    requires
        is_creation(events, steps, vm_info, params),
        0 <= listed <= flushed < steps.len(),
        events[listed] == SnapshotEvent::DevicesListed(devices),
        steps[listed].1 is OpenMemoryFile,
        steps[flushed].1 is FlushMemoryFile,
    ensures
        ({
            let out = memory_file(memory, steps, flushed).content;
            &&& out.len() >= memory.len()
            &&& forall|i: int|
                0 <= i < memory.len() ==> #[trigger] out[i] == if i / 4096 <= u32::MAX
                    && is_ballooned(devices@, (i / 4096) as u32) {
                    0
                } else {
                    memory[i]
                }
            &&& memory.len() == vm_info.mem_size_mib * 1048576 ==> out.len() == memory.len()
        }),
{
    assert(is_step_of(events, steps, vm_info, params, listed));
    assert(is_step_of(events, steps, vm_info, params, flushed));
    let plan = steps[listed].0->OpeningMemoryFile_runs@;
    let pages = inflated_by(devices@);
    let wanted = Set::new(|p: int| 0 <= p <= u32::MAX && pages.contains(p as u32));
    let out = memory_file(memory, steps, flushed).content;
    lemma_run_stays_on_plan(events, steps, vm_info, params, memory, listed, flushed);
    assert(memory_file(memory, steps, flushed + 1).content == out);
    crate::zeroing::law_planned_runs_zero_the_set(plan, pages, memory_pages(vm_info), memory);
    law_collected_pages_are_ballooned(devices@);
    law_ballooned_pages_are_zeroed_or_refused(devices, vm_info, params, steps[listed]);
    assert forall|i: int| 0 <= i < memory.len() implies #[trigger] out[i] == if i / 4096 <= u32::MAX
        && is_ballooned(devices@, (i / 4096) as u32) {
        0
    } else {
        memory[i]
    } by {
        assert(wanted.contains(i / 4096) <==> i / 4096 <= u32::MAX && is_ballooned(
            devices@,
            (i / 4096) as u32,
        ));
    }
    if memory.len() == vm_info.mem_size_mib * 1048576 {
        assert forall|p: int| #[trigger] wanted.contains(p) implies (p + 1)
            * crate::zeroing::PAGE_SIZE <= memory.len() by {
            assert(is_ballooned(devices@, p as u32));
        }
        crate::zeroing::law_zeroing_keeps_length(out, memory, wanted);
    }
}

} // verus!
