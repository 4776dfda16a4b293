//! Restoring a microVM from a snapshot.
//!
//! Restoring alternates work on files and on the microVM with decisions. The decisions are one
//! step function, `restore_from_snapshot`: it takes what the last piece of work gave and says
//! which piece comes next. Whoever drives it performs each action and hands back its outcome.

use crate::cpu_check::{
    snapshot_state_sanity_check, CpuReport, HostCpu, SnapShotStateSanityCheckError,
};
use crate::guest_memory::{GuestMemoryFromUffdError, GuestRegion};
use crate::persist::snapshot_version;
use crate::vm_state::{
    copy_regions, ConnectedNetState, DeviceStates, GuestMemoryRegionState, HugePageConfig,
    MicrovmState, NetState, StaticCpuTemplate,
};
use vstd::prelude::*;

verus! {

/// Error type for reading the snapshot state from a file. The texts describe the cause.
#[derive(Debug, PartialEq, Eq)]
pub enum SnapshotStateFromFileError {
    /// Failed to open snapshot file.
    Open(String),
    /// Failed to read snapshot file metadata.
    Meta(String),
    /// Failed to load snapshot state from file.
    Load(String),
    /// Unknown network device.
    UnknownNetworkDevice,
}

/// Error type for reading guest memory from a file. The texts describe the cause.
#[derive(Debug, PartialEq, Eq)]
pub enum GuestMemoryFromFileError {
    /// Failed to load guest memory.
    File(String),
    /// Failed to restore guest memory.
    Restore(String),
    /// Cannot restore hugetlbfs backed snapshot by mapping the memory file.
    HugetlbfsSnapshot,
}

/// Error of `restore_from_snapshot` while guest memory is loaded.
#[derive(Debug, PartialEq, Eq)]
pub enum RestoreFromSnapshotGuestMemoryError {
    /// Error creating guest memory from file.
    File(GuestMemoryFromFileError),
    /// Error creating guest memory from uffd.
    Uffd(GuestMemoryFromUffdError),
}

/// Error of an update of the machine configuration.
#[derive(Debug, PartialEq, Eq)]
pub enum MachineConfigError {
    /// The vCPU number is invalid.
    InvalidVcpuCount,
    /// Another part of the update is invalid. The text describes it.
    Refused(String),
}

/// Error of building a microVM from a snapshot.
#[derive(Debug, PartialEq, Eq)]
pub enum BuildMicrovmFromSnapshotError {
    /// Could not update the machine configuration.
    VmUpdateConfig(MachineConfigError),
    /// Another part of the building failed. The text describes it.
    Failed(String),
}

/// Error type for `restore_from_snapshot`.
#[derive(Debug, PartialEq, Eq)]
pub enum RestoreFromSnapshotError {
    /// Failed to get snapshot state from file.
    File(SnapshotStateFromFileError),
    /// Invalid snapshot state.
    Invalid(SnapShotStateSanityCheckError),
    /// Failed to load guest memory.
    GuestMemory(RestoreFromSnapshotGuestMemoryError),
    /// Failed to build microVM from snapshot.
    Build(BuildMicrovmFromSnapshotError),
}

/// A request to connect a network interface of the guest to another tap interface of the host.
#[derive(Debug)]
pub struct NetworkOverride {
    /// The ID of the interface.
    pub iface_id: String,
    /// The name of the tap interface.
    pub host_dev_name: String,
}

/// What guest memory is loaded from.
#[derive(Debug, Clone, Copy, PartialEq, Eq, Structural)]
pub enum MemBackendType {
    /// A file that is mapped.
    File,
    /// A handler that is reached through a Unix socket.
    Uffd,
}

/// The backend that guest memory is loaded from.
#[derive(Debug)]
pub struct MemBackendConfig {
    /// The path of the file or of the socket.
    pub backend_path: String,
    /// What is at the path.
    pub backend_type: MemBackendType,
}

/// The parameters of a restore.
#[derive(Debug)]
pub struct LoadSnapshotParams {
    /// The path of the file that holds the microVM state.
    pub snapshot_path: String,
    /// The backend that holds guest memory.
    pub mem_backend: MemBackendConfig,
    /// Whether dirty pages are tracked, so that diff snapshots can be taken.
    pub enable_diff_snapshots: bool,
    /// The network interfaces to connect otherwise.
    pub network_overrides: Vec<NetworkOverride>,
}

/// An update of the machine configuration.
#[derive(Debug, Clone, Copy, PartialEq, Eq, Structural)]
pub struct MachineConfigUpdate {
    /// Number of virtual CPUs.
    pub vcpu_count: Option<u8>,
    /// Guest memory size.
    pub mem_size_mib: Option<usize>,
    /// Whether simultaneous multithreading is on.
    pub smt: Option<bool>,
    /// CPU template.
    pub cpu_template: Option<StaticCpuTemplate>,
    /// Whether dirty pages are tracked.
    pub track_dirty_pages: Option<bool>,
    /// Huge page configuration.
    pub huge_pages: Option<HugePageConfig>,
}

/// Whether a device has the interface ID `id`.
pub open spec fn has_id(device: ConnectedNetState, id: Seq<char>) -> bool {
    device.device_state.id@ == id
}

/// `i` is the index of the first device with the interface ID `id`.
pub open spec fn is_first_with_id(
    devices: Seq<ConnectedNetState>,
    id: Seq<char>,
    i: int,
) -> bool {
    &&& 0 <= i < devices.len()
    &&& has_id(devices[i], id)
    &&& forall|k: int| 0 <= k < i ==> !has_id(#[trigger] devices[k], id)
}

/// A device that is connected to the tap interface `name` and otherwise as it was.
pub open spec fn reconnected(device: ConnectedNetState, name: String) -> ConnectedNetState {
    ConnectedNetState {
        device_state: NetState { tap_if_name: name, ..device.device_state },
    }
}

/// `after` is `before` with the first device that `entry` names connected as it says.
pub open spec fn overridden_once(
    before: Seq<ConnectedNetState>,
    entry: NetworkOverride,
    after: Seq<ConnectedNetState>,
) -> bool {
    exists|i: int|
        {
            &&& #[trigger] is_first_with_id(before, entry.iface_id@, i)
            &&& after == before.update(i, reconnected(before[i], entry.host_dev_name))
        }
}

/// `after` is `before` with the overrides applied one after the other.
pub open spec fn overridden(
    before: Seq<ConnectedNetState>,
    entries: Seq<NetworkOverride>,
    after: Seq<ConnectedNetState>,
) -> bool
    decreases entries.len(),
{
    if entries.len() == 0 {
        after == before
    } else {
        exists|middle: Seq<ConnectedNetState>|
            {
                &&& overridden(before, entries.drop_last(), middle)
                &&& #[trigger] overridden_once(middle, entries.last(), after)
            }
    }
}

/// Every override names the interface ID of a device.
pub open spec fn all_known(
    devices: Seq<ConnectedNetState>,
    entries: Seq<NetworkOverride>,
) -> bool {
    forall|e: int|
        0 <= e < entries.len() ==> exists|i: int|
            0 <= i < devices.len() && has_id(#[trigger] devices[i], (
            #[trigger] entries[e]).iface_id@)
}

/// Connects the network devices of a loaded state as the overrides say. An override for an
/// interface that no device has is refused.
pub fn apply_network_overrides(
    net_devices: &mut Vec<ConnectedNetState>,
    network_overrides: &Vec<NetworkOverride>,
) -> (res: Result<(), SnapshotStateFromFileError>)
    ensures
        match res {
            Ok(_) => {
                &&& all_known(old(net_devices)@, network_overrides@)
                &&& overridden(old(net_devices)@, network_overrides@, final(net_devices)@)
            },
            Err(e) => {
                &&& e is UnknownNetworkDevice
                &&& !all_known(old(net_devices)@, network_overrides@)
            },
        },
{
    let mut e: usize = 0;
    while e < network_overrides.len()
        invariant
            0 <= e <= network_overrides@.len(),
            all_known(old(net_devices)@, network_overrides@.take(e as int)),
            overridden(old(net_devices)@, network_overrides@.take(e as int), net_devices@),
        decreases network_overrides@.len() - e,
    {
        let entry: &NetworkOverride = &network_overrides[e];
        let ghost before = net_devices@;
        let ghost done = network_overrides@.take(e as int);
        let ghost more = network_overrides@.take(e + 1);
        proof {
            assert(more.drop_last() =~= done);
            assert(more.last() == *entry);
            law_overrides_keep_ids(old(net_devices)@, done, before);
        }
        let mut i: usize = 0;
        let mut found: bool = false;
        while i < net_devices.len() && !found
            invariant
                0 <= i <= net_devices@.len(),
                net_devices@ == before,
                forall|k: int|
                    0 <= k < i ==> !has_id(#[trigger] net_devices@[k], entry.iface_id@),
                found ==> i < net_devices@.len() && has_id(
                    net_devices@[i as int],
                    entry.iface_id@,
                ),
            decreases net_devices@.len() - i + if found {
                0int
            } else {
                1int
            },
        {
            if net_devices[i].device_state.id == entry.iface_id {
                found = true;
            } else {
                i = i + 1;
            }
        }
        if !found {
            proof {
                assert(!all_known(old(net_devices)@, network_overrides@)) by {
                    assert(network_overrides@[e as int] == *entry);
                    if all_known(old(net_devices)@, network_overrides@) {
                        let k = choose|k: int|
                            0 <= k < old(net_devices)@.len() && has_id(
                                #[trigger] old(net_devices)@[k],
                                entry.iface_id@,
                            );
                        assert(has_id(before[k], entry.iface_id@));
                    }
                }
            }
            return Err(SnapshotStateFromFileError::UnknownNetworkDevice);
        }
        net_devices[i].device_state.tap_if_name = entry.host_dev_name.clone();
        proof {
            assert(is_first_with_id(before, entry.iface_id@, i as int));
            assert(net_devices@ =~= before.update(
                i as int,
                reconnected(before[i as int], entry.host_dev_name),
            ));
            assert(overridden_once(before, *entry, net_devices@));
            assert(overridden(old(net_devices)@, more, net_devices@));
            assert(all_known(old(net_devices)@, more)) by {
                assert forall|j: int| 0 <= j < more.len() implies exists|k: int|
                    0 <= k < old(net_devices)@.len() && has_id(
                        #[trigger] old(net_devices)@[k],
                        (#[trigger] more[j]).iface_id@,
                    ) by {
                    if j < e {
                        assert(more[j] == done[j]);
                    } else {
                        assert(has_id(old(net_devices)@[i as int], more[j].iface_id@));
                    }
                }
            }
        }
        e = e + 1;
    }
    assert(network_overrides@.take(e as int) =~= network_overrides@);
    Ok(())
}

/// Overrides change neither the number of devices nor their order nor their interface IDs.
pub proof fn law_overrides_keep_ids(
    before: Seq<ConnectedNetState>,
    entries: Seq<NetworkOverride>,
    after: Seq<ConnectedNetState>,
)
    requires
        overridden(before, entries, after),
    ensures
        after.len() == before.len(),
        forall|i: int|
            0 <= i < before.len() ==> (#[trigger] after[i]).device_state.id
                == before[i].device_state.id,
    decreases entries.len(),
{
    if entries.len() > 0 {
        let middle = choose|middle: Seq<ConnectedNetState>|
            {
                &&& overridden(before, entries.drop_last(), middle)
                &&& #[trigger] overridden_once(middle, entries.last(), after)
            };
        law_overrides_keep_ids(before, entries.drop_last(), middle);
    }
}

/// A device whose interface no override names stays as it is.
pub proof fn law_unnamed_device_is_unchanged(
    before: Seq<ConnectedNetState>,
    entries: Seq<NetworkOverride>,
    after: Seq<ConnectedNetState>,
    i: int,
)
    requires
        overridden(before, entries, after),
        0 <= i < before.len(),
        forall|e: int|
            0 <= e < entries.len() ==> !has_id(before[i], (#[trigger] entries[e]).iface_id@),
    ensures
        after[i] == before[i],
    decreases entries.len(),
{
    if entries.len() > 0 {
        let earlier = entries.drop_last();
        let middle = choose|middle: Seq<ConnectedNetState>|
            {
                &&& overridden(before, earlier, middle)
                &&& #[trigger] overridden_once(middle, entries.last(), after)
            };
        law_overrides_keep_ids(before, earlier, middle);
        assert forall|e: int| 0 <= e < earlier.len() implies !has_id(
            before[i],
            (#[trigger] earlier[e]).iface_id@,
        ) by {
            assert(earlier[e] == entries[e]);
        }
        law_unnamed_device_is_unchanged(before, earlier, middle, i);
        assert(!has_id(before[i], entries[entries.len() - 1].iface_id@));
    }
}

/// Of several overrides for an interface the last one counts: the first device with that
/// interface ends up connected as it says.
pub proof fn law_last_override_counts(
    before: Seq<ConnectedNetState>,
    entries: Seq<NetworkOverride>,
    after: Seq<ConnectedNetState>,
    e: int,
    i: int,
)
    requires
        overridden(before, entries, after),
        0 <= e < entries.len(),
        is_first_with_id(before, entries[e].iface_id@, i),
        forall|k: int|
            e < k < entries.len() ==> (#[trigger] entries[k]).iface_id@ != entries[e].iface_id@,
    ensures
        after[i] == reconnected(before[i], entries[e].host_dev_name),
        after[i].device_state.tap_if_name == entries[e].host_dev_name,
        after[i].device_state.id == before[i].device_state.id,
    decreases entries.len(),
{
    let earlier = entries.drop_last();
    let middle = choose|middle: Seq<ConnectedNetState>|
        {
            &&& overridden(before, earlier, middle)
            &&& #[trigger] overridden_once(middle, entries.last(), after)
        };
    law_overrides_keep_ids(before, earlier, middle);
    let at = choose|at: int|
        {
            &&& #[trigger] is_first_with_id(middle, entries.last().iface_id@, at)
            &&& after == middle.update(at, reconnected(middle[at], entries.last().host_dev_name))
        };
    if e == entries.len() - 1 {
        assert(has_id(middle[i], entries[e].iface_id@));
        assert(has_id(before[at], entries[e].iface_id@));
        assert(at == i);
        lemma_only_tap_changes(before, earlier, middle, i);
    } else {
        assert(earlier[e] == entries[e]);
        assert forall|k: int| e < k < earlier.len() implies (#[trigger] earlier[k]).iface_id@
            != earlier[e].iface_id@ by {
            assert(earlier[k] == entries[k]);
        }
        law_last_override_counts(before, earlier, middle, e, i);
        assert(entries[entries.len() - 1].iface_id@ != entries[e].iface_id@);
        assert(has_id(middle[i], entries[e].iface_id@));
        assert(at != i);
    }
}

proof fn lemma_only_tap_changes(
    before: Seq<ConnectedNetState>,
    entries: Seq<NetworkOverride>,
    after: Seq<ConnectedNetState>,
    i: int,
)
    requires
        overridden(before, entries, after),
        0 <= i < before.len(),
    ensures
        after[i] == reconnected(before[i], after[i].device_state.tap_if_name),
    decreases entries.len(),
{
    if entries.len() > 0 {
        let middle = choose|middle: Seq<ConnectedNetState>|
            {
                &&& overridden(before, entries.drop_last(), middle)
                &&& #[trigger] overridden_once(middle, entries.last(), after)
            };
        law_overrides_keep_ids(before, entries.drop_last(), middle);
        lemma_only_tap_changes(before, entries.drop_last(), middle, i);
    }
}

/// Where the restore of a microVM stands.
#[derive(Debug)]
pub enum RestorePhase {
    /// Nothing has been done.
    Idle,
    /// The snapshot file is being opened.
    OpeningStateFile,
    /// The metadata of the snapshot file is being read.
    ReadingMetadata,
    /// The state is being loaded from the snapshot file.
    LoadingState,
    /// The machine configuration is being updated.
    UpdatingConfig {
        /// The loaded state, with its network devices connected as requested.
        state: MicrovmState,
    },
    /// The CPU of the host is being read.
    ReadingHostCpu {
        /// The loaded state.
        state: MicrovmState,
        /// The huge page configuration of the updated machine.
        huge_pages: HugePageConfig,
    },
    /// The comparison of the CPUs is being reported.
    ReportingCpu {
        /// The loaded state.
        state: MicrovmState,
        /// The huge page configuration of the updated machine.
        huge_pages: HugePageConfig,
    },
    /// The memory file is being opened.
    OpeningMemoryFile {
        /// The loaded state.
        state: MicrovmState,
    },
    /// The memory file is being mapped.
    MappingMemoryFile {
        /// The loaded state.
        state: MicrovmState,
    },
    /// Guest memory is being loaded through userfaultfd.
    LoadingUffd {
        /// The loaded state.
        state: MicrovmState,
    },
    /// The microVM is being built.
    Building,
    /// The restore is over.
    Finished,
}

/// What a piece of work gave.
#[derive(Debug)]
pub enum RestoreEvent {
    /// A restore has been requested.
    Requested,
    /// A file has been opened, or could not be.
    FileOpened(Result<(), String>),
    /// The length of the snapshot file.
    MetadataRead(Result<u64, String>),
    /// The state has been loaded, or could not be.
    StateLoaded(Result<MicrovmState, String>),
    /// The machine configuration has been updated and now has these huge pages, or the update
    /// was refused.
    ConfigUpdated(Result<HugePageConfig, MachineConfigError>),
    /// The CPU of the host.
    HostCpuRead(HostCpu),
    /// The comparison of the CPUs has been reported.
    CpuReported,
    /// The memory file has been mapped, or could not be.
    MemoryMapped(Result<Vec<GuestRegion>, String>),
    /// Guest memory has been loaded through userfaultfd, or could not be.
    UffdLoaded(Result<Vec<GuestRegion>, GuestMemoryFromUffdError>),
    /// The microVM has been built, or could not be.
    Built(Result<(), String>),
}

/// A piece of work to do next.
#[derive(Debug)]
pub enum RestoreAction {
    /// Open the snapshot file for reading.
    OpenStateFile {
        /// The path of the file.
        path: String,
    },
    /// Read the metadata of the snapshot file.
    ReadMetadata {
        /// The path of the file.
        path: String,
    },
    /// Load the state from the snapshot file and check its version.
    LoadState {
        /// The length of the file.
        len: usize,
        /// The version that the file must have.
        version: (u64, u64, u64),
    },
    /// Update the machine configuration.
    UpdateConfig(MachineConfigUpdate),
    /// Read the CPU of the host.
    ReadHostCpu,
    /// Report the comparison of the CPUs.
    ReportCpu(Vec<CpuReport>),
    /// Open the memory file for reading.
    OpenMemoryFile {
        /// The path of the file.
        path: String,
    },
    /// Map the memory file.
    MapMemoryFile {
        /// The regions of guest memory.
        regions: Vec<GuestMemoryRegionState>,
        /// Whether dirty pages are tracked.
        track_dirty_pages: bool,
    },
    /// Load guest memory through userfaultfd.
    LoadUffd {
        /// The path of the socket of the handler.
        path: String,
        /// The regions of guest memory.
        regions: Vec<GuestMemoryRegionState>,
        /// Whether dirty pages are tracked.
        track_dirty_pages: bool,
        /// The huge page configuration.
        huge_pages: HugePageConfig,
    },
    /// Build the microVM.
    Build {
        /// The state to build it from.
        state: MicrovmState,
        /// Its memory.
        memory: Vec<GuestRegion>,
        /// Whether its memory is served by a userfaultfd handler.
        uffd: bool,
    },
    /// Report the outcome.
    Finish(Result<(), RestoreFromSnapshotError>),
}

impl RestorePhase {
    /// Whether `event` is the kind of outcome that this phase waits for. Sizes must fit in
    /// memory, and a state that has memory must have a vcpu.
    pub open spec fn awaits(self, event: RestoreEvent) -> bool {
        match self {
            RestorePhase::Idle => event is Requested,
            RestorePhase::OpeningStateFile => event is FileOpened,
            RestorePhase::ReadingMetadata => event matches RestoreEvent::MetadataRead(outcome) && (
            outcome matches Ok(len) ==> len <= usize::MAX),
            RestorePhase::LoadingState => event matches RestoreEvent::StateLoaded(outcome) && (
            outcome matches Ok(state) ==> state.vm_info.mem_size_mib <= usize::MAX),
            RestorePhase::UpdatingConfig { .. } => event is ConfigUpdated,
            RestorePhase::ReadingHostCpu { state, .. } => event is HostCpuRead && (
            state.vm_state.memory.regions@.len() > 0 ==> state.vcpu_states@.len() > 0),
            RestorePhase::ReportingCpu { .. } => event is CpuReported,
            RestorePhase::OpeningMemoryFile { .. } => event is FileOpened,
            RestorePhase::MappingMemoryFile { .. } => event is MemoryMapped,
            RestorePhase::LoadingUffd { .. } => event is UffdLoaded,
            RestorePhase::Building => event is Built,
            RestorePhase::Finished => false,
        }
    }

    /// How many pieces of work are still ahead at most.
    pub open spec fn work_left(self) -> nat {
        match self {
            RestorePhase::Idle => 10,
            RestorePhase::OpeningStateFile => 9,
            RestorePhase::ReadingMetadata => 8,
            RestorePhase::LoadingState => 7,
            RestorePhase::UpdatingConfig { .. } => 6,
            RestorePhase::ReadingHostCpu { .. } => 5,
            RestorePhase::ReportingCpu { .. } => 4,
            RestorePhase::OpeningMemoryFile { .. } => 3,
            RestorePhase::MappingMemoryFile { .. } => 2,
            RestorePhase::LoadingUffd { .. } => 2,
            RestorePhase::Building => 1,
            RestorePhase::Finished => 0,
        }
    }

    /// The loaded state, where the phase holds it.
    pub open spec fn loaded_state(self) -> Option<MicrovmState> {
        match self {
            RestorePhase::UpdatingConfig { state } => Some(state),
            RestorePhase::ReadingHostCpu { state, .. } => Some(state),
            RestorePhase::ReportingCpu { state, .. } => Some(state),
            RestorePhase::OpeningMemoryFile { state } => Some(state),
            RestorePhase::MappingMemoryFile { state } => Some(state),
            RestorePhase::LoadingUffd { state } => Some(state),
            _ => None,
        }
    }

    /// Whether the loaded state has been found to have memory.
    pub open spec fn is_checked(self) -> bool {
        match self {
            RestorePhase::ReadingHostCpu { .. } => true,
            RestorePhase::ReportingCpu { .. } => true,
            RestorePhase::OpeningMemoryFile { .. } => true,
            RestorePhase::MappingMemoryFile { .. } => true,
            RestorePhase::LoadingUffd { .. } => true,
            _ => false,
        }
    }
}

impl RestoreEvent {
    /// Whether the event reports a failure.
    pub open spec fn is_failure(self) -> bool {
        match self {
            RestoreEvent::FileOpened(outcome) => outcome is Err,
            RestoreEvent::MetadataRead(outcome) => outcome is Err,
            RestoreEvent::StateLoaded(outcome) => outcome is Err,
            RestoreEvent::ConfigUpdated(outcome) => outcome is Err,
            RestoreEvent::MemoryMapped(outcome) => outcome is Err,
            RestoreEvent::UffdLoaded(outcome) => outcome is Err,
            RestoreEvent::Built(outcome) => outcome is Err,
            _ => false,
        }
    }
}

/// The end of a restore that fails with `error`.
pub open spec fn restore_failed(error: RestoreFromSnapshotError) -> (RestorePhase, RestoreAction) {
    (RestorePhase::Finished, RestoreAction::Finish(Err(error)))
}

/// The update that makes the machine configuration fit a state.
pub open spec fn config_update(
    state: MicrovmState,
    track_dirty_pages: bool,
) -> MachineConfigUpdate {
    MachineConfigUpdate {
        vcpu_count: Some(state.vcpu_states@.len() as u8),
        mem_size_mib: Some(state.vm_info.mem_size_mib as usize),
        smt: Some(state.vm_info.smt),
        cpu_template: Some(state.vm_info.cpu_template),
        track_dirty_pages: Some(track_dirty_pages),
        huge_pages: Some(state.vm_info.huge_pages),
    }
}

/// `state` is `loaded` but for its network devices, which are connected as the overrides say.
pub open spec fn reconnected_state(
    loaded: MicrovmState,
    entries: Seq<NetworkOverride>,
    state: MicrovmState,
) -> bool {
    &&& state == (MicrovmState { device_states: state.device_states, ..loaded })
    &&& state.device_states == (DeviceStates {
        net_devices: state.device_states.net_devices,
        ..loaded.device_states
    })
    &&& overridden(
        loaded.device_states.net_devices@,
        entries,
        state.device_states.net_devices@,
    )
}

/// `step` is what follows when the state has been loaded: an override that names an unknown
/// interface is refused, then a number of vcpus that no machine can have.
pub open spec fn step_after_load(
    loaded: MicrovmState,
    params: LoadSnapshotParams,
    step: (RestorePhase, RestoreAction),
) -> bool {
    if !all_known(loaded.device_states.net_devices@, params.network_overrides@) {
        step == restore_failed(
            RestoreFromSnapshotError::File(SnapshotStateFromFileError::UnknownNetworkDevice),
        )
    } else if loaded.vcpu_states@.len() > u8::MAX {
        step == restore_failed(
            RestoreFromSnapshotError::Build(
                BuildMicrovmFromSnapshotError::VmUpdateConfig(
                    MachineConfigError::InvalidVcpuCount,
                ),
            ),
        )
    } else {
        &&& step.0 matches RestorePhase::UpdatingConfig { state } && reconnected_state(
            loaded,
            params.network_overrides@,
            state,
        )
        &&& step.1 == RestoreAction::UpdateConfig(
            config_update(loaded, params.enable_diff_snapshots),
        )
    }
}

/// `step` is what follows when the CPUs have been compared: the backend is opened, but a file
/// cannot back huge pages.
pub open spec fn step_to_memory(
    state: MicrovmState,
    huge_pages: HugePageConfig,
    params: LoadSnapshotParams,
    step: (RestorePhase, RestoreAction),
) -> bool {
    match params.mem_backend.backend_type {
        MemBackendType::File => if huge_pages is Hugetlbfs2M {
            step == restore_failed(
                RestoreFromSnapshotError::GuestMemory(
                    RestoreFromSnapshotGuestMemoryError::File(
                        GuestMemoryFromFileError::HugetlbfsSnapshot,
                    ),
                ),
            )
        } else {
            step == (
                RestorePhase::OpeningMemoryFile { state },
                RestoreAction::OpenMemoryFile { path: params.mem_backend.backend_path },
            )
        },
        MemBackendType::Uffd => {
            &&& step.0 == RestorePhase::LoadingUffd { state }
            &&& step.1 matches RestoreAction::LoadUffd {
                path,
                regions,
                track_dirty_pages,
                huge_pages: pages,
            } && path == params.mem_backend.backend_path && regions@
                == state.vm_state.memory.regions@ && track_dirty_pages
                == params.enable_diff_snapshots && pages == huge_pages
        },
    }
}

/// `step` is what follows when `event` ends the work of `phase`.
pub open spec fn restore_step(
    phase: RestorePhase,
    event: RestoreEvent,
    params: LoadSnapshotParams,
    step: (RestorePhase, RestoreAction),
) -> bool {
    match (phase, event) {
        (RestorePhase::Idle, RestoreEvent::Requested) => step == (
            RestorePhase::OpeningStateFile,
            RestoreAction::OpenStateFile { path: params.snapshot_path },
        ),
        (RestorePhase::OpeningStateFile, RestoreEvent::FileOpened(Ok(_))) => step == (
            RestorePhase::ReadingMetadata,
            RestoreAction::ReadMetadata { path: params.snapshot_path },
        ),
        (RestorePhase::OpeningStateFile, RestoreEvent::FileOpened(Err(e))) => step
            == restore_failed(
            RestoreFromSnapshotError::File(SnapshotStateFromFileError::Open(e)),
        ),
        (RestorePhase::ReadingMetadata, RestoreEvent::MetadataRead(Ok(len))) => step == (
            RestorePhase::LoadingState,
            RestoreAction::LoadState {
                len: len as usize,
                version: crate::persist::spec_snapshot_version(),
            },
        ),
        (RestorePhase::ReadingMetadata, RestoreEvent::MetadataRead(Err(e))) => step
            == restore_failed(
            RestoreFromSnapshotError::File(SnapshotStateFromFileError::Meta(e)),
        ),
        (RestorePhase::LoadingState, RestoreEvent::StateLoaded(Ok(loaded))) => step_after_load(
            loaded,
            params,
            step,
        ),
        (RestorePhase::LoadingState, RestoreEvent::StateLoaded(Err(e))) => step
            == restore_failed(
            RestoreFromSnapshotError::File(SnapshotStateFromFileError::Load(e)),
        ),
        (RestorePhase::UpdatingConfig { state }, RestoreEvent::ConfigUpdated(Ok(huge_pages))) => {
            step == if state.vm_state.memory.regions@.len() == 0 {
                restore_failed(
                    RestoreFromSnapshotError::Invalid(SnapShotStateSanityCheckError::NoMemory),
                )
            } else {
                (RestorePhase::ReadingHostCpu { state, huge_pages }, RestoreAction::ReadHostCpu)
            }
        },
        (RestorePhase::UpdatingConfig { .. }, RestoreEvent::ConfigUpdated(Err(e))) => step
            == restore_failed(
            RestoreFromSnapshotError::Build(BuildMicrovmFromSnapshotError::VmUpdateConfig(e)),
        ),
        (RestorePhase::ReadingHostCpu { state, huge_pages }, RestoreEvent::HostCpuRead(cpu)) => {
            if state.vm_state.memory.regions@.len() == 0 {
                step == restore_failed(
                    RestoreFromSnapshotError::Invalid(SnapShotStateSanityCheckError::NoMemory),
                )
            } else {
                &&& step.0 == RestorePhase::ReportingCpu { state, huge_pages }
                &&& step.1 matches RestoreAction::ReportCpu(report) && report@
                    == crate::cpu_check::cpu_report(state, cpu)
            }
        },
        (RestorePhase::ReportingCpu { state, huge_pages }, RestoreEvent::CpuReported) => {
            step_to_memory(state, huge_pages, params, step)
        },
        (RestorePhase::OpeningMemoryFile { state }, RestoreEvent::FileOpened(Ok(_))) => {
            &&& step.0 == RestorePhase::MappingMemoryFile { state }
            &&& step.1 matches RestoreAction::MapMemoryFile { regions, track_dirty_pages }
                && regions@ == state.vm_state.memory.regions@ && track_dirty_pages
                == params.enable_diff_snapshots
        },
        (RestorePhase::OpeningMemoryFile { .. }, RestoreEvent::FileOpened(Err(e))) => step
            == restore_failed(
            RestoreFromSnapshotError::GuestMemory(
                RestoreFromSnapshotGuestMemoryError::File(GuestMemoryFromFileError::File(e)),
            ),
        ),
        (RestorePhase::MappingMemoryFile { state }, RestoreEvent::MemoryMapped(Ok(memory))) => {
            step == (RestorePhase::Building, RestoreAction::Build { state, memory, uffd: false })
        },
        (RestorePhase::MappingMemoryFile { .. }, RestoreEvent::MemoryMapped(Err(e))) => step
            == restore_failed(
            RestoreFromSnapshotError::GuestMemory(
                RestoreFromSnapshotGuestMemoryError::File(GuestMemoryFromFileError::Restore(e)),
            ),
        ),
        (RestorePhase::LoadingUffd { state }, RestoreEvent::UffdLoaded(Ok(memory))) => step == (
            RestorePhase::Building,
            RestoreAction::Build { state, memory, uffd: true },
        ),
        (RestorePhase::LoadingUffd { .. }, RestoreEvent::UffdLoaded(Err(e))) => step
            == restore_failed(
            RestoreFromSnapshotError::GuestMemory(RestoreFromSnapshotGuestMemoryError::Uffd(e)),
        ),
        (RestorePhase::Building, RestoreEvent::Built(Ok(_))) => step == (
            RestorePhase::Finished,
            RestoreAction::Finish(Ok(())),
        ),
        (RestorePhase::Building, RestoreEvent::Built(Err(e))) => step == restore_failed(
            RestoreFromSnapshotError::Build(BuildMicrovmFromSnapshotError::Failed(e)),
        ),
        (_, _) => false,
    }
}

fn refuse(error: RestoreFromSnapshotError) -> (step: (RestorePhase, RestoreAction))
    ensures
        step == restore_failed(error),
{
    (RestorePhase::Finished, RestoreAction::Finish(Err(error)))
}

/// Decides what follows when the state has been loaded.
fn check_loaded(state: MicrovmState, params: &LoadSnapshotParams) -> (step: (
    RestorePhase,
    RestoreAction,
))
    requires
        state.vm_info.mem_size_mib <= usize::MAX,
    ensures
        step_after_load(state, *params, step),
{
    let mut state = state;
    match apply_network_overrides(&mut state.device_states.net_devices, &params.network_overrides) {
        Ok(_) => {
            if state.vcpu_states.len() > u8::MAX as usize {
                return refuse(
                    RestoreFromSnapshotError::Build(
                        BuildMicrovmFromSnapshotError::VmUpdateConfig(
                            MachineConfigError::InvalidVcpuCount,
                        ),
                    ),
                );
            }
            let update = MachineConfigUpdate {
                vcpu_count: Some(state.vcpu_states.len() as u8),
                mem_size_mib: Some(state.vm_info.mem_size_mib as usize),
                smt: Some(state.vm_info.smt),
                cpu_template: Some(state.vm_info.cpu_template),
                track_dirty_pages: Some(params.enable_diff_snapshots),
                huge_pages: Some(state.vm_info.huge_pages),
            };
            (RestorePhase::UpdatingConfig { state }, RestoreAction::UpdateConfig(update))
        },
        Err(e) => refuse(RestoreFromSnapshotError::File(e)),
    }
}

/// Decides what follows when the CPUs have been compared.
fn choose_backend(
    state: MicrovmState,
    huge_pages: HugePageConfig,
    params: &LoadSnapshotParams,
) -> (step: (RestorePhase, RestoreAction))
    ensures
        step_to_memory(state, huge_pages, *params, step),
{
    match params.mem_backend.backend_type {
        MemBackendType::File => {
            if huge_pages.is_hugetlbfs() {
                refuse(
                    RestoreFromSnapshotError::GuestMemory(
                        RestoreFromSnapshotGuestMemoryError::File(
                            GuestMemoryFromFileError::HugetlbfsSnapshot,
                        ),
                    ),
                )
            } else {
                (
                    RestorePhase::OpeningMemoryFile { state },
                    RestoreAction::OpenMemoryFile {
                        path: params.mem_backend.backend_path.clone(),
                    },
                )
            }
        },
        MemBackendType::Uffd => {
            let regions: Vec<GuestMemoryRegionState> = copy_regions(&state.vm_state.memory.regions);
            (
                RestorePhase::LoadingUffd { state },
                RestoreAction::LoadUffd {
                    path: params.mem_backend.backend_path.clone(),
                    regions,
                    track_dirty_pages: params.enable_diff_snapshots,
                    huge_pages,
                },
            )
        },
    }
}

/// Restores a microVM from a snapshot: given what the work of `phase` gave, says what to do next.
pub fn restore_from_snapshot(
    phase: RestorePhase,
    event: RestoreEvent,
    params: &LoadSnapshotParams,
) -> (step: (RestorePhase, RestoreAction))
    requires
        phase.awaits(event),
    ensures
        restore_step(phase, event, *params, step),
{
    match (phase, event) {
        (RestorePhase::Idle, RestoreEvent::Requested) => (
            RestorePhase::OpeningStateFile,
            RestoreAction::OpenStateFile { path: params.snapshot_path.clone() },
        ),
        (RestorePhase::OpeningStateFile, RestoreEvent::FileOpened(Ok(_))) => (
            RestorePhase::ReadingMetadata,
            RestoreAction::ReadMetadata { path: params.snapshot_path.clone() },
        ),
        (RestorePhase::OpeningStateFile, RestoreEvent::FileOpened(Err(e))) => refuse(
            RestoreFromSnapshotError::File(SnapshotStateFromFileError::Open(e)),
        ),
        (RestorePhase::ReadingMetadata, RestoreEvent::MetadataRead(Ok(len))) => (
            RestorePhase::LoadingState,
            RestoreAction::LoadState { len: len as usize, version: snapshot_version() },
        ),
        (RestorePhase::ReadingMetadata, RestoreEvent::MetadataRead(Err(e))) => refuse(
            RestoreFromSnapshotError::File(SnapshotStateFromFileError::Meta(e)),
        ),
        (RestorePhase::LoadingState, RestoreEvent::StateLoaded(Ok(state))) => check_loaded(
            state,
            params,
        ),
        (RestorePhase::LoadingState, RestoreEvent::StateLoaded(Err(e))) => refuse(
            RestoreFromSnapshotError::File(SnapshotStateFromFileError::Load(e)),
        ),
        (RestorePhase::UpdatingConfig { state }, RestoreEvent::ConfigUpdated(Ok(huge_pages))) => {
            // The CPU of the host is of no interest where the check of the state fails anyway.
            if state.vm_state.memory.regions.len() == 0 {
                refuse(RestoreFromSnapshotError::Invalid(SnapShotStateSanityCheckError::NoMemory))
            } else {
                (RestorePhase::ReadingHostCpu { state, huge_pages }, RestoreAction::ReadHostCpu)
            }
        },
        (RestorePhase::UpdatingConfig { .. }, RestoreEvent::ConfigUpdated(Err(e))) => refuse(
            RestoreFromSnapshotError::Build(BuildMicrovmFromSnapshotError::VmUpdateConfig(e)),
        ),
        (RestorePhase::ReadingHostCpu { state, huge_pages }, RestoreEvent::HostCpuRead(cpu)) => {
            match snapshot_state_sanity_check(&state, &cpu) {
                Ok(report) => (
                    RestorePhase::ReportingCpu { state, huge_pages },
                    RestoreAction::ReportCpu(report),
                ),
                Err(e) => refuse(RestoreFromSnapshotError::Invalid(e)),
            }
        },
        (RestorePhase::ReportingCpu { state, huge_pages }, RestoreEvent::CpuReported) => {
            choose_backend(state, huge_pages, params)
        },
        (RestorePhase::OpeningMemoryFile { state }, RestoreEvent::FileOpened(Ok(_))) => {
            let regions: Vec<GuestMemoryRegionState> = copy_regions(&state.vm_state.memory.regions);
            (
                RestorePhase::MappingMemoryFile { state },
                RestoreAction::MapMemoryFile {
                    regions,
                    track_dirty_pages: params.enable_diff_snapshots,
                },
            )
        },
        (RestorePhase::OpeningMemoryFile { .. }, RestoreEvent::FileOpened(Err(e))) => refuse(
            RestoreFromSnapshotError::GuestMemory(
                RestoreFromSnapshotGuestMemoryError::File(GuestMemoryFromFileError::File(e)),
            ),
        ),
        (RestorePhase::MappingMemoryFile { state }, RestoreEvent::MemoryMapped(Ok(memory))) => (
            RestorePhase::Building,
            RestoreAction::Build { state, memory, uffd: false },
        ),
        (RestorePhase::MappingMemoryFile { .. }, RestoreEvent::MemoryMapped(Err(e))) => refuse(
            RestoreFromSnapshotError::GuestMemory(
                RestoreFromSnapshotGuestMemoryError::File(GuestMemoryFromFileError::Restore(e)),
            ),
        ),
        (RestorePhase::LoadingUffd { state }, RestoreEvent::UffdLoaded(Ok(memory))) => (
            RestorePhase::Building,
            RestoreAction::Build { state, memory, uffd: true },
        ),
        (RestorePhase::LoadingUffd { .. }, RestoreEvent::UffdLoaded(Err(e))) => refuse(
            RestoreFromSnapshotError::GuestMemory(RestoreFromSnapshotGuestMemoryError::Uffd(e)),
        ),
        (RestorePhase::Building, RestoreEvent::Built(Ok(_))) => (
            RestorePhase::Finished,
            RestoreAction::Finish(Ok(())),
        ),
        (RestorePhase::Building, RestoreEvent::Built(Err(e))) => refuse(
            RestoreFromSnapshotError::Build(BuildMicrovmFromSnapshotError::Failed(e)),
        ),
        (_, _) => vstd::pervasive::unreached(),
    }
}

/// Every restore ends: each step leaves less work ahead.
pub proof fn law_restore_ends(
    phase: RestorePhase,
    event: RestoreEvent,
    params: LoadSnapshotParams,
    step: (RestorePhase, RestoreAction),
)
    requires
        restore_step(phase, event, params, step),
    ensures
        step.0.work_left() < phase.work_left(),
{
}

/// The first failure ends the restore with an error, a restore ends only by reporting an
/// outcome, and it succeeds only when the microVM has been built.
pub proof fn law_failure_ends_restore(
    phase: RestorePhase,
    event: RestoreEvent,
    params: LoadSnapshotParams,
    step: (RestorePhase, RestoreAction),
)
    requires
        restore_step(phase, event, params, step),
    ensures
        event.is_failure() ==> step.0 is Finished && step.1->Finish_0 is Err,
        step.0 is Finished <==> step.1 is Finish,
        step.1 matches RestoreAction::Finish(Ok(_)) ==> event is Built && event->Built_0 is Ok,
{
}

/// From the moment the network devices are connected as requested until the microVM is built,
/// no step changes the state: what is built is what was loaded, with the overrides applied.
pub proof fn law_built_state_is_the_loaded_one(
    phase: RestorePhase,
    event: RestoreEvent,
    params: LoadSnapshotParams,
    step: (RestorePhase, RestoreAction),
    loaded: MicrovmState,
)
    requires
        restore_step(phase, event, params, step),
        phase.loaded_state() matches Some(state) ==> reconnected_state(
            loaded,
            params.network_overrides@,
            state,
        ),
        event matches RestoreEvent::StateLoaded(Ok(state)) ==> state == loaded,
    ensures
        step.0.loaded_state() matches Some(state) ==> reconnected_state(
            loaded,
            params.network_overrides@,
            state,
        ),
        step.1 matches RestoreAction::Build { state, .. } ==> reconnected_state(
            loaded,
            params.network_overrides@,
            state,
        ),
{
}

/// A state without a memory region is refused before any memory is loaded: every phase behind the
/// check holds a state that has one, and so does every microVM that is built.
pub proof fn law_state_without_memory_is_refused(
    phase: RestorePhase,
    event: RestoreEvent,
    params: LoadSnapshotParams,
    step: (RestorePhase, RestoreAction),
)
    requires
        restore_step(phase, event, params, step),
        phase.is_checked() ==> phase.loaded_state()->0.vm_state.memory.regions@.len() > 0,
    ensures
        step.0.is_checked() ==> step.0.loaded_state()->0.vm_state.memory.regions@.len() > 0,
        step.1 matches RestoreAction::Build { state, .. } ==> state.vm_state.memory.regions@.len()
            > 0,
{
}

/// A snapshot of huge pages is never restored by mapping its memory file: it is refused, and a
/// memory file is opened only for a machine without huge pages, and mapped only once opened.
pub proof fn law_huge_pages_are_not_mapped_from_file(
    phase: RestorePhase,
    event: RestoreEvent,
    params: LoadSnapshotParams,
    step: (RestorePhase, RestoreAction),
)
    requires
        restore_step(phase, event, params, step),
    ensures
        phase matches RestorePhase::ReportingCpu { huge_pages: HugePageConfig::Hugetlbfs2M, .. }
            && params.mem_backend.backend_type is File ==> step == restore_failed(
            RestoreFromSnapshotError::GuestMemory(
                RestoreFromSnapshotGuestMemoryError::File(
                    GuestMemoryFromFileError::HugetlbfsSnapshot,
                ),
            ),
        ),
        step.1 is OpenMemoryFile ==> params.mem_backend.backend_type is File && phase
            is ReportingCpu && phase->ReportingCpu_huge_pages is NoHugePages,
        step.1 is MapMemoryFile ==> phase is OpeningMemoryFile,
{
}

/// Of several devices with one interface ID only the first is ever connected otherwise: one behind
/// another device with its ID stays as it is.
pub proof fn law_later_device_is_unchanged(
    before: Seq<ConnectedNetState>,
    entries: Seq<NetworkOverride>,
    after: Seq<ConnectedNetState>,
    first: int,
    i: int,
)
    requires
        overridden(before, entries, after),
        0 <= first < i < before.len(),
        before[first].device_state.id@ == before[i].device_state.id@,
    ensures
        after[i] == before[i],
    decreases entries.len(),
{
    if entries.len() > 0 {
        let middle = choose|middle: Seq<ConnectedNetState>|
            {
                &&& overridden(before, entries.drop_last(), middle)
                &&& #[trigger] overridden_once(middle, entries.last(), after)
            };
        law_overrides_keep_ids(before, entries.drop_last(), middle);
        law_later_device_is_unchanged(before, entries.drop_last(), middle, first, i);
        let at = choose|at: int|
            {
                &&& #[trigger] is_first_with_id(middle, entries.last().iface_id@, at)
                &&& after == middle.update(
                    at,
                    reconnected(middle[at], entries.last().host_dev_name),
                )
            };
        if at == i {
            assert(has_id(middle[first], entries.last().iface_id@));
        }
    }
}

/// Whether one of the devices has the interface ID that the override names.
pub open spec fn names_a_device(
    devices: Seq<ConnectedNetState>,
    entry: NetworkOverride,
) -> bool {
    exists|i: int| 0 <= i < devices.len() && (#[trigger] devices[i]).device_state.id@
        == entry.iface_id@
}

/// What follows on a loaded state. An override that names no device of the state is refused, then
/// more than 255 vcpus are; any other state has the machine configured just as the state says, with
/// dirty pages tracked as requested.
pub proof fn law_machine_is_configured_as_loaded(
    loaded: MicrovmState,
    params: LoadSnapshotParams,
    step: (RestorePhase, RestoreAction),
)
    requires
        RestorePhase::LoadingState.awaits(RestoreEvent::StateLoaded(Ok(loaded))),
        restore_step(
            RestorePhase::LoadingState,
            RestoreEvent::StateLoaded(Ok(loaded)),
            params,
            step,
        ),
    ensures
        ({
            let devices = loaded.device_states.net_devices@;
            let unknown = exists|e: int|
                0 <= e < params.network_overrides@.len() && !names_a_device(
                    devices,
                    #[trigger] params.network_overrides@[e],
                );
            &&& unknown ==> step.1 == RestoreAction::Finish(
                Err(
                    RestoreFromSnapshotError::File(
                        SnapshotStateFromFileError::UnknownNetworkDevice,
                    ),
                ),
            )
            &&& !unknown && loaded.vcpu_states@.len() > 255 ==> step.1 == RestoreAction::Finish(
                Err(
                    RestoreFromSnapshotError::Build(
                        BuildMicrovmFromSnapshotError::VmUpdateConfig(
                            MachineConfigError::InvalidVcpuCount,
                        ),
                    ),
                ),
            )
            &&& !unknown && loaded.vcpu_states@.len() <= 255 ==> step.0 is UpdatingConfig && step.1
                is UpdateConfig
        }),
        step.1 matches RestoreAction::UpdateConfig(update) ==> {
            &&& update.vcpu_count is Some && update.vcpu_count->0 == loaded.vcpu_states@.len()
            &&& update.mem_size_mib is Some && update.mem_size_mib->0
                == loaded.vm_info.mem_size_mib
            &&& update.smt is Some && update.smt->0 == loaded.vm_info.smt
            &&& update.cpu_template is Some && update.cpu_template->0
                == loaded.vm_info.cpu_template
            &&& update.track_dirty_pages is Some && update.track_dirty_pages->0
                == params.enable_diff_snapshots
            &&& update.huge_pages is Some && update.huge_pages->0 == loaded.vm_info.huge_pages
        },
{
    let devices = loaded.device_states.net_devices@;
    let entries = params.network_overrides@;
    if all_known(devices, entries) {
        assert forall|e: int| 0 <= e < entries.len() implies names_a_device(
            devices,
            #[trigger] entries[e],
        ) by {
            let i = choose|i: int|
                0 <= i < devices.len() && has_id(#[trigger] devices[i], entries[e].iface_id@);
            assert(devices[i].device_state.id@ == entries[e].iface_id@);
        }
    } else {
        let e = choose|e: int|
            0 <= e < entries.len() && !(exists|i: int|
                0 <= i < devices.len() && has_id(#[trigger] devices[i], (
                #[trigger] entries[e]).iface_id@));
        assert(!names_a_device(devices, entries[e])) by {
            assert forall|i: int| 0 <= i < devices.len() implies (
            #[trigger] devices[i]).device_state.id@ != entries[e].iface_id@ by {
                assert(!has_id(devices[i], entries[e].iface_id@));
            }
        }
    }
}

/// But for its network devices, the state that a restore goes on with is the loaded one, field by
/// field; and of the network devices only the taps can differ.
pub proof fn law_only_taps_differ_from_the_loaded_state(
    loaded: MicrovmState,
    entries: Seq<NetworkOverride>,
    state: MicrovmState,
)
    requires
        reconnected_state(loaded, entries, state),
    ensures
        state.vm_info == loaded.vm_info,
        state.kvm_state == loaded.kvm_state,
        state.vm_state == loaded.vm_state,
        state.vcpu_states == loaded.vcpu_states,
        state.acpi_dev_state == loaded.acpi_dev_state,
        state.device_states.data == loaded.device_states.data,
        state.device_states.net_devices@.len() == loaded.device_states.net_devices@.len(),
        forall|i: int|
            0 <= i < loaded.device_states.net_devices@.len() ==> (
            #[trigger] state.device_states.net_devices@[i]).device_state.id
                == loaded.device_states.net_devices@[i].device_state.id,
        entries.len() == 0 ==> state.device_states.net_devices@
            == loaded.device_states.net_devices@,
{
    law_overrides_keep_ids(
        loaded.device_states.net_devices@,
        entries,
        state.device_states.net_devices@,
    );
}

/// What a restore asks for first, and what it asks for when the work that it asked for has
/// succeeded. The files are those of the request, the state is read as long as its file is, and its
/// version must be 7.0.0. A machine that is configured goes on only if the loaded state has memory,
/// and memory is loaded from the backend that was requested.
pub proof fn law_restore_goes_on_to_the_next_work(
    phase: RestorePhase,
    event: RestoreEvent,
    step: (RestorePhase, RestoreAction),
    next_event: RestoreEvent,
    next_step: (RestorePhase, RestoreAction),
    params: LoadSnapshotParams,
)
    requires
        restore_step(phase, event, params, step),
        step.0.awaits(next_event),
        restore_step(step.0, next_event, params, next_step),
        !next_event.is_failure(),
    ensures
        event is Requested ==> phase is Idle && step.1 == (RestoreAction::OpenStateFile {
            path: params.snapshot_path,
        }),
        step.1 is OpenStateFile ==> next_event is FileOpened && next_step.1
            == (RestoreAction::ReadMetadata { path: params.snapshot_path }),
        step.1 is ReadMetadata ==> next_event is MetadataRead && (next_step.1
            matches RestoreAction::LoadState { len, version } && len
            == next_event->MetadataRead_0->Ok_0 && version.0 == 7 && version.1 == 0 && version.2
            == 0),
        step.1 is LoadState ==> step.0 is LoadingState && next_event is StateLoaded,
        step.1 is UpdateConfig ==> event is StateLoaded && next_event is ConfigUpdated,
        step.1 is UpdateConfig && event->StateLoaded_0->Ok_0.vm_state.memory.regions@.len() == 0
            ==> next_step.1 == RestoreAction::Finish(
            Err(RestoreFromSnapshotError::Invalid(SnapShotStateSanityCheckError::NoMemory)),
        ),
        step.1 is UpdateConfig && event->StateLoaded_0->Ok_0.vm_state.memory.regions@.len() > 0
            ==> next_step.1 is ReadHostCpu,
        step.1 is ReadHostCpu ==> next_event is HostCpuRead && next_step.1 is ReportCpu,
        step.1 is ReportCpu && params.mem_backend.backend_type is File ==> next_event
            is CpuReported && (next_step.1 == RestoreAction::Finish(
            Err(
                RestoreFromSnapshotError::GuestMemory(
                    RestoreFromSnapshotGuestMemoryError::File(
                        GuestMemoryFromFileError::HugetlbfsSnapshot,
                    ),
                ),
            ),
        ) || next_step.1 == (RestoreAction::OpenMemoryFile {
            path: params.mem_backend.backend_path,
        })),
        step.1 is ReportCpu && params.mem_backend.backend_type is Uffd ==> next_event
            is CpuReported && (next_step.1 matches RestoreAction::LoadUffd { path, .. } && path
            == params.mem_backend.backend_path),
        step.1 is OpenMemoryFile ==> next_event is FileOpened && (next_step.1
            matches RestoreAction::MapMemoryFile { track_dirty_pages, .. } && track_dirty_pages
            == params.enable_diff_snapshots),
        step.1 is MapMemoryFile ==> next_event is MemoryMapped && (next_step.1
            matches RestoreAction::Build { memory, uffd, .. } && memory
            == next_event->MemoryMapped_0->Ok_0 && !uffd),
        step.1 is LoadUffd ==> next_event is UffdLoaded && (next_step.1
            matches RestoreAction::Build { memory, uffd, .. } && memory
            == next_event->UffdLoaded_0->Ok_0 && uffd),
        step.1 is Build ==> next_event is Built && next_step.1 == RestoreAction::Finish(Ok(())),
        !(step.1 is Finish),
{
}

/// The error of a restore tells what failed and why: it names the work that was asked for, and
/// carries just what that work reported.
pub proof fn law_restore_error_tells_the_failed_work(
    phase: RestorePhase,
    event: RestoreEvent,
    step: (RestorePhase, RestoreAction),
    next_event: RestoreEvent,
    next_step: (RestorePhase, RestoreAction),
    params: LoadSnapshotParams,
)
    requires
        restore_step(phase, event, params, step),
        restore_step(step.0, next_event, params, next_step),
        next_event.is_failure(),
    ensures
        next_step.1 is Finish && next_step.1->Finish_0 is Err,
        ({
            let error = next_step.1->Finish_0->Err_0;
            match step.1 {
                RestoreAction::OpenStateFile { .. } => error == RestoreFromSnapshotError::File(
                    SnapshotStateFromFileError::Open(next_event->FileOpened_0->Err_0),
                ),
                RestoreAction::ReadMetadata { .. } => error == RestoreFromSnapshotError::File(
                    SnapshotStateFromFileError::Meta(next_event->MetadataRead_0->Err_0),
                ),
                RestoreAction::LoadState { .. } => error == RestoreFromSnapshotError::File(
                    SnapshotStateFromFileError::Load(next_event->StateLoaded_0->Err_0),
                ),
                RestoreAction::UpdateConfig(_) => error == RestoreFromSnapshotError::Build(
                    BuildMicrovmFromSnapshotError::VmUpdateConfig(
                        next_event->ConfigUpdated_0->Err_0,
                    ),
                ),
                RestoreAction::OpenMemoryFile { .. } => error
                    == RestoreFromSnapshotError::GuestMemory(
                    RestoreFromSnapshotGuestMemoryError::File(
                        GuestMemoryFromFileError::File(next_event->FileOpened_0->Err_0),
                    ),
                ),
                RestoreAction::MapMemoryFile { .. } => error
                    == RestoreFromSnapshotError::GuestMemory(
                    RestoreFromSnapshotGuestMemoryError::File(
                        GuestMemoryFromFileError::Restore(next_event->MemoryMapped_0->Err_0),
                    ),
                ),
                RestoreAction::LoadUffd { .. } => error == RestoreFromSnapshotError::GuestMemory(
                    RestoreFromSnapshotGuestMemoryError::Uffd(next_event->UffdLoaded_0->Err_0),
                ),
                RestoreAction::Build { .. } => error == RestoreFromSnapshotError::Build(
                    BuildMicrovmFromSnapshotError::Failed(next_event->Built_0->Err_0),
                ),
                _ => false,
            }
        }),
{
}

/// Work that was asked for is waited for, whatever it gives; but a length and a memory size must
/// fit a `usize`, and a state with memory must have a vcpu when its CPU is compared.
pub proof fn law_outcome_of_restore_work_is_awaited(
    phase: RestorePhase,
    event: RestoreEvent,
    step: (RestorePhase, RestoreAction),
    outcome: RestoreEvent,
    params: LoadSnapshotParams,
)
    requires
        restore_step(phase, event, params, step),
    ensures
        RestorePhase::Idle.awaits(outcome) <==> outcome is Requested,
        step.0.awaits(outcome) <==> match step.1 {
            RestoreAction::OpenStateFile { .. } => outcome is FileOpened,
            RestoreAction::ReadMetadata { .. } => outcome is MetadataRead && (
            outcome->MetadataRead_0 is Ok ==> outcome->MetadataRead_0->Ok_0 <= usize::MAX),
            RestoreAction::LoadState { .. } => outcome is StateLoaded && (outcome->StateLoaded_0
                is Ok ==> outcome->StateLoaded_0->Ok_0.vm_info.mem_size_mib <= usize::MAX),
            RestoreAction::UpdateConfig(_) => outcome is ConfigUpdated,
            RestoreAction::ReadHostCpu => outcome is HostCpuRead && (
            step.0->ReadingHostCpu_state.vm_state.memory.regions@.len() > 0
                ==> step.0->ReadingHostCpu_state.vcpu_states@.len() > 0),
            RestoreAction::ReportCpu(_) => outcome is CpuReported,
            RestoreAction::OpenMemoryFile { .. } => outcome is FileOpened,
            RestoreAction::MapMemoryFile { .. } => outcome is MemoryMapped,
            RestoreAction::LoadUffd { .. } => outcome is UffdLoaded,
            RestoreAction::Build { .. } => outcome is Built,
            RestoreAction::Finish(_) => false,
        },
{
}

/// Whether step `i` of a run is what follows when the event of the same index ends the work that
/// the step before asked for.
pub open spec fn is_restore_step_of(
    events: Seq<RestoreEvent>,
    steps: Seq<(RestorePhase, RestoreAction)>,
    params: LoadSnapshotParams,
    i: int,
) -> bool {
    restore_step(
        if i == 0 {
            RestorePhase::Idle
        } else {
            steps[i - 1].0
        },
        events[i],
        params,
        steps[i],
    )
}

/// Whether `steps` is a run of a restore from its beginning.
pub open spec fn is_restore(
    events: Seq<RestoreEvent>,
    steps: Seq<(RestorePhase, RestoreAction)>,
    params: LoadSnapshotParams,
) -> bool {
    &&& events.len() == steps.len()
    &&& forall|i: int|
        0 <= i < steps.len() ==> #[trigger] is_restore_step_of(events, steps, params, i)
}

/// A run never comes back to work that it has left behind.
proof fn lemma_work_decreases(
    events: Seq<RestoreEvent>,
    steps: Seq<(RestorePhase, RestoreAction)>,
    params: LoadSnapshotParams,
    m: int,
    n: int,
)
    requires
        is_restore(events, steps, params),
        0 <= m < n < steps.len(),
    ensures
        steps[n].0.work_left() < steps[m].0.work_left(),
    decreases n,
{
    assert(is_restore_step_of(events, steps, params, n));
    law_restore_ends(steps[n - 1].0, events[n], params, steps[n]);
    if m < n - 1 {
        lemma_work_decreases(events, steps, params, m, n - 1);
    }
}

/// Whether a phase behind the update of the machine goes by the loaded state, by the huge pages
/// that the machine got, and by the requested backend.
spec fn goes_by(
    phase: RestorePhase,
    loaded: MicrovmState,
    huge_pages: HugePageConfig,
    params: LoadSnapshotParams,
) -> bool {
    &&& phase.loaded_state() matches Some(state) ==> reconnected_state(
        loaded,
        params.network_overrides@,
        state,
    )
    &&& match phase {
        RestorePhase::ReadingHostCpu { huge_pages: pages, .. } => pages == huge_pages,
        RestorePhase::ReportingCpu { huge_pages: pages, .. } => pages == huge_pages,
        RestorePhase::OpeningMemoryFile { .. } => params.mem_backend.backend_type is File
            && huge_pages is NoHugePages,
        RestorePhase::MappingMemoryFile { .. } => params.mem_backend.backend_type is File
            && huge_pages is NoHugePages,
        RestorePhase::LoadingUffd { .. } => params.mem_backend.backend_type is Uffd,
        RestorePhase::Building => true,
        RestorePhase::Finished => true,
        _ => false,
    }
}

/// Whether an action goes by the loaded state, by the huge pages that the machine got, and by the
/// requested backend: memory is loaded as the regions that were loaded, from a file only where the
/// machine has no huge pages, and what is built is the loaded state with its network devices
/// connected as requested.
pub open spec fn acts_by(
    action: RestoreAction,
    loaded: MicrovmState,
    huge_pages: HugePageConfig,
    params: LoadSnapshotParams,
) -> bool {
    match action {
        RestoreAction::OpenMemoryFile { path } => {
            &&& params.mem_backend.backend_type is File
            &&& huge_pages is NoHugePages
            &&& path == params.mem_backend.backend_path
        },
        RestoreAction::MapMemoryFile { regions, track_dirty_pages } => {
            &&& params.mem_backend.backend_type is File
            &&& huge_pages is NoHugePages
            &&& regions@ == loaded.vm_state.memory.regions@
            &&& track_dirty_pages == params.enable_diff_snapshots
        },
        RestoreAction::LoadUffd { path, regions, track_dirty_pages, huge_pages: pages } => {
            &&& params.mem_backend.backend_type is Uffd
            &&& path == params.mem_backend.backend_path
            &&& regions@ == loaded.vm_state.memory.regions@
            &&& track_dirty_pages == params.enable_diff_snapshots
            &&& pages == huge_pages
        },
        RestoreAction::Build { state, uffd, .. } => {
            &&& uffd == (params.mem_backend.backend_type is Uffd)
            &&& reconnected_state(loaded, params.network_overrides@, state)
        },
        RestoreAction::ReadHostCpu => true,
        RestoreAction::ReportCpu(_) => true,
        RestoreAction::Finish(_) => true,
        _ => false,
    }
}

/// A step that follows on a phase that goes by the loaded state goes by it too.
proof fn lemma_step_goes_by(
    phase: RestorePhase,
    event: RestoreEvent,
    step: (RestorePhase, RestoreAction),
    loaded: MicrovmState,
    huge_pages: HugePageConfig,
    params: LoadSnapshotParams,
)
    requires
        restore_step(phase, event, params, step),
        goes_by(phase, loaded, huge_pages, params),
    ensures
        goes_by(step.0, loaded, huge_pages, params),
        acts_by(step.1, loaded, huge_pages, params),
{
}

/// A restore goes by the state that it loaded: once the machine has taken the update, whatever the
/// run asks for goes by the loaded state, by the huge pages that the machine got, and by the
/// requested backend.
pub proof fn law_restore_goes_by_the_loaded_state(
    events: Seq<RestoreEvent>,
    steps: Seq<(RestorePhase, RestoreAction)>,
    params: LoadSnapshotParams,
    loaded: MicrovmState,
    huge_pages: HugePageConfig,
    k: int,
    n: int,
)
    requires
        is_restore(events, steps, params),
        0 <= k && k + 1 <= n < steps.len(),
        events[k] == RestoreEvent::StateLoaded(Ok(loaded)),
        events[k + 1] == RestoreEvent::ConfigUpdated(Ok(huge_pages)),
    ensures
        acts_by(steps[n].1, loaded, huge_pages, params),
{
    lemma_run_goes_by(events, steps, params, loaded, huge_pages, k, n);
}

proof fn lemma_run_goes_by(
    events: Seq<RestoreEvent>,
    steps: Seq<(RestorePhase, RestoreAction)>,
    params: LoadSnapshotParams,
    loaded: MicrovmState,
    huge_pages: HugePageConfig,
    k: int,
    n: int,
)
    requires
        is_restore(events, steps, params),
        0 <= k && k + 1 <= n < steps.len(),
        events[k] == RestoreEvent::StateLoaded(Ok(loaded)),
        events[k + 1] == RestoreEvent::ConfigUpdated(Ok(huge_pages)),
    ensures
        goes_by(steps[n].0, loaded, huge_pages, params),
        acts_by(steps[n].1, loaded, huge_pages, params),
    decreases n,
{
    assert(is_restore_step_of(events, steps, params, n));
    if n == k + 1 {
        assert(is_restore_step_of(events, steps, params, k));
    } else {
        lemma_run_goes_by(events, steps, params, loaded, huge_pages, k, n - 1);
        lemma_step_goes_by(
            steps[n - 1].0,
            events[n],
            steps[n],
            loaded,
            huge_pages,
            params,
        );
    }
}

/// A snapshot of huge pages keeps them and is never restored by mapping its memory file: on a
/// machine that takes the update as it is asked to, no run opens or maps a memory file for a state
/// with huge pages, and memory that is loaded through userfaultfd has huge pages.
pub proof fn law_huge_pages_are_kept(
    events: Seq<RestoreEvent>,
    steps: Seq<(RestorePhase, RestoreAction)>,
    params: LoadSnapshotParams,
    loaded: MicrovmState,
    k: int,
    n: int,
)
    requires
        is_restore(events, steps, params),
        0 <= k < steps.len(),
        0 <= n < steps.len(),
        events[k] == RestoreEvent::StateLoaded(Ok(loaded)),
        steps[k].1 is UpdateConfig && k + 1 < steps.len() && events[k + 1] is ConfigUpdated
            && events[k + 1]->ConfigUpdated_0 is Ok
            ==> steps[k].1->UpdateConfig_0.huge_pages is Some && steps[k].1->UpdateConfig_0
            .huge_pages->0 == events[k + 1]->ConfigUpdated_0->Ok_0,
        loaded.vm_info.huge_pages is Hugetlbfs2M,
    ensures
        !(steps[n].1 is OpenMemoryFile),
        !(steps[n].1 is MapMemoryFile),
        steps[n].1 matches RestoreAction::LoadUffd { huge_pages, .. } ==> huge_pages
            is Hugetlbfs2M,
{
    assert(is_restore_step_of(events, steps, params, k));
    assert(is_restore_step_of(events, steps, params, n));
    if n < k {
        lemma_work_decreases(events, steps, params, n, k);
        if n < k - 1 {
            lemma_work_decreases(events, steps, params, n, k - 1);
        }
    } else if n > k {
        assert(is_restore_step_of(events, steps, params, k + 1));
        if events[k + 1] is ConfigUpdated && events[k + 1]->ConfigUpdated_0 is Ok {
            let huge_pages = events[k + 1]->ConfigUpdated_0->Ok_0;
            lemma_run_goes_by(events, steps, params, loaded, huge_pages, k, n);
        } else if n > k + 1 {
            lemma_work_decreases(events, steps, params, k + 1, n);
        }
    }
}

/// What is reported of the CPUs is the comparison of the state that the restore goes on with and
/// the CPU that was read of the host.
pub proof fn law_comparison_of_the_cpus_is_reported(
    state: MicrovmState,
    huge_pages: HugePageConfig,
    cpu: HostCpu,
    params: LoadSnapshotParams,
    step: (RestorePhase, RestoreAction),
)
    requires
        restore_step(
            RestorePhase::ReadingHostCpu { state, huge_pages },
            RestoreEvent::HostCpuRead(cpu),
            params,
            step,
        ),
        state.vm_state.memory.regions@.len() > 0,
    ensures
        step.1 matches RestoreAction::ReportCpu(report) && report@ == match cpu {
            HostCpu::X86_64(host) => crate::cpu_check::vendor_report(
                host,
                state.vcpu_states@[0].vendor_id,
            ),
            HostCpu::Aarch64(host) => crate::cpu_check::manufacturer_report(
                host,
                state.vcpu_states@,
            ),
        },
{
    crate::cpu_check::law_report_goes_by_the_host(state, cpu);
}

} // verus!
