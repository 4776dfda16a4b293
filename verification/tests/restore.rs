use microvm::cpu_check::{CpuReport, HostCpu, SnapShotStateSanityCheckError};
use microvm::guest_memory::{GuestMemoryFromUffdError, GuestRegion};
use microvm::restore::{
    apply_network_overrides, restore_from_snapshot, BuildMicrovmFromSnapshotError,
    GuestMemoryFromFileError, LoadSnapshotParams, MachineConfigError, MachineConfigUpdate,
    MemBackendConfig, MemBackendType, NetworkOverride, RestoreAction, RestoreEvent,
    RestoreFromSnapshotError, RestoreFromSnapshotGuestMemoryError, RestorePhase,
    SnapshotStateFromFileError,
};
use microvm::vm_state::{
    ConnectedNetState, DeviceStates, GuestMemoryRegionState, GuestMemoryState, HugePageConfig,
    MicrovmState, NetState, StaticCpuTemplate, VcpuState, VmInfo, VmState,
};

fn device(id: &str, tap: &str) -> ConnectedNetState {
    ConnectedNetState {
        device_state: NetState { id: id.to_string(), tap_if_name: tap.to_string() },
    }
}

fn entry(id: &str, tap: &str) -> NetworkOverride {
    NetworkOverride { iface_id: id.to_string(), host_dev_name: tap.to_string() }
}

fn loaded() -> MicrovmState {
    MicrovmState {
        vm_info: VmInfo {
            mem_size_mib: 128,
            smt: true,
            cpu_template: StaticCpuTemplate::T2,
            ..Default::default()
        },
        vm_state: VmState {
            memory: GuestMemoryState {
                regions: vec![GuestMemoryRegionState { base_address: 0, size: 0x8000 }],
            },
            data: vec![1, 2, 3],
        },
        vcpu_states: vec![
            VcpuState { vendor_id: Some(*b"GenuineIntel"), ..Default::default() },
            VcpuState::default(),
        ],
        device_states: DeviceStates {
            net_devices: vec![device("eth0", "tap0"), device("eth1", "tap1")],
            data: vec![9],
        },
        ..Default::default()
    }
}

fn params(backend_type: MemBackendType, network_overrides: Vec<NetworkOverride>) -> LoadSnapshotParams {
    LoadSnapshotParams {
        snapshot_path: "/snap".to_string(),
        mem_backend: MemBackendConfig { backend_path: "/mem".to_string(), backend_type },
        enable_diff_snapshots: true,
        network_overrides,
    }
}

fn memory() -> Vec<GuestRegion> {
    vec![GuestRegion { host_virt_addr: 0x10000, size: 0x8000 }]
}

struct Run {
    done: Vec<String>,
    built: Option<MicrovmState>,
    result: Result<(), RestoreFromSnapshotError>,
}

/// Runs a restore in which the work at index `failing` fails.
fn run(
    params: &LoadSnapshotParams,
    mut state: Option<MicrovmState>,
    huge_pages: HugePageConfig,
    failing: usize,
) -> Run {
    let (mut phase, mut action) =
        restore_from_snapshot(RestorePhase::Idle, RestoreEvent::Requested, params);
    let mut done: Vec<String> = Vec::new();
    let mut built = None;
    loop {
        let outcome = if done.len() == failing {
            Err("failed".to_string())
        } else {
            Ok(())
        };
        let (name, event) = match action {
            RestoreAction::OpenStateFile { path } => {
                (format!("open {path}"), RestoreEvent::FileOpened(outcome))
            }
            RestoreAction::ReadMetadata { path } => (
                format!("stat {path}"),
                RestoreEvent::MetadataRead(outcome.map(|_| 77)),
            ),
            RestoreAction::LoadState { len, version } => {
                assert_eq!(version, (7, 0, 0));
                (
                    format!("load {len}"),
                    RestoreEvent::StateLoaded(outcome.map(|_| state.take().unwrap())),
                )
            }
            RestoreAction::UpdateConfig(update) => {
                assert_eq!(
                    update,
                    MachineConfigUpdate {
                        vcpu_count: Some(2),
                        mem_size_mib: Some(128),
                        smt: Some(true),
                        cpu_template: Some(StaticCpuTemplate::T2),
                        track_dirty_pages: Some(true),
                        huge_pages: Some(HugePageConfig::NoHugePages),
                    }
                );
                (
                    "update".to_string(),
                    RestoreEvent::ConfigUpdated(
                        outcome.map(|_| huge_pages).map_err(MachineConfigError::Refused),
                    ),
                )
            }
            RestoreAction::ReadHostCpu => (
                "cpu".to_string(),
                RestoreEvent::HostCpuRead(HostCpu::X86_64(Ok(*b"AuthenticAMD"))),
            ),
            RestoreAction::ReportCpu(report) => {
                assert_eq!(
                    report,
                    vec![
                        CpuReport::HostVendorId(*b"AuthenticAMD"),
                        CpuReport::SnapshotVendorId(*b"GenuineIntel"),
                        CpuReport::VendorIdsDiffer,
                    ]
                );
                ("report".to_string(), RestoreEvent::CpuReported)
            }
            RestoreAction::OpenMemoryFile { path } => {
                (format!("open {path}"), RestoreEvent::FileOpened(outcome))
            }
            RestoreAction::MapMemoryFile { regions, track_dirty_pages } => {
                assert_eq!(regions, loaded().vm_state.memory.regions);
                assert!(track_dirty_pages);
                (
                    "map".to_string(),
                    RestoreEvent::MemoryMapped(outcome.map(|_| memory())),
                )
            }
            RestoreAction::LoadUffd { path, regions, track_dirty_pages, huge_pages: pages } => {
                assert_eq!(regions, loaded().vm_state.memory.regions);
                assert!(track_dirty_pages);
                assert_eq!(pages, huge_pages);
                (
                    format!("uffd {path}"),
                    RestoreEvent::UffdLoaded(
                        outcome.map(|_| memory()).map_err(GuestMemoryFromUffdError::Connect),
                    ),
                )
            }
            RestoreAction::Build { state, memory: given, uffd } => {
                assert_eq!(given, memory());
                built = Some(state);
                (format!("build {uffd}"), RestoreEvent::Built(outcome))
            }
            RestoreAction::Finish(result) => return Run { done, built, result },
        };
        done.push(name);
        let next = restore_from_snapshot(phase, event, params);
        phase = next.0;
        action = next.1;
    }
}

const NEVER: usize = usize::MAX;

#[test]
fn restore_from_a_file_builds_the_loaded_state() {
    let params = params(MemBackendType::File, vec![]);
    let run = run(&params, Some(loaded()), HugePageConfig::NoHugePages, NEVER);
    assert_eq!(
        run.done,
        vec![
            "open /snap",
            "stat /snap",
            "load 77",
            "update",
            "cpu",
            "report",
            "open /mem",
            "map",
            "build false",
        ]
    );
    assert_eq!(run.built, Some(loaded()));
    assert_eq!(run.result, Ok(()));
}

#[test]
fn restore_through_uffd_connects_devices_as_requested() {
    let params = params(MemBackendType::Uffd, vec![entry("eth1", "tap9")]);
    let run = run(&params, Some(loaded()), HugePageConfig::Hugetlbfs2M, NEVER);
    assert_eq!(run.done[6..], ["uffd /mem", "build true"]);
    let mut expected = loaded();
    expected.device_states.net_devices[1] = device("eth1", "tap9");
    assert_eq!(run.built, Some(expected));
    assert_eq!(run.result, Ok(()));
}

#[test]
fn each_failure_of_a_restore_from_a_file_has_its_error() {
    let text = || "failed".to_string();
    let file = |e| RestoreFromSnapshotError::File(e);
    let memory = |e| {
        RestoreFromSnapshotError::GuestMemory(RestoreFromSnapshotGuestMemoryError::File(e))
    };
    let expected = vec![
        (0, file(SnapshotStateFromFileError::Open(text()))),
        (1, file(SnapshotStateFromFileError::Meta(text()))),
        (2, file(SnapshotStateFromFileError::Load(text()))),
        (
            3,
            RestoreFromSnapshotError::Build(BuildMicrovmFromSnapshotError::VmUpdateConfig(
                MachineConfigError::Refused(text()),
            )),
        ),
        (6, memory(GuestMemoryFromFileError::File(text()))),
        (7, memory(GuestMemoryFromFileError::Restore(text()))),
        (
            8,
            RestoreFromSnapshotError::Build(BuildMicrovmFromSnapshotError::Failed(text())),
        ),
    ];
    for (failing, error) in expected {
        let params = params(MemBackendType::File, vec![]);
        let run = run(&params, Some(loaded()), HugePageConfig::NoHugePages, failing);
        assert_eq!(run.done.len(), failing + 1);
        assert_eq!(run.result, Err(error));
    }
}

#[test]
fn failure_of_a_loading_through_uffd_is_passed_on() {
    let params = params(MemBackendType::Uffd, vec![]);
    let run = run(&params, Some(loaded()), HugePageConfig::NoHugePages, 6);
    assert_eq!(
        run.result,
        Err(RestoreFromSnapshotError::GuestMemory(
            RestoreFromSnapshotGuestMemoryError::Uffd(GuestMemoryFromUffdError::Connect(
                "failed".to_string()
            ))
        ))
    );
}

#[test]
fn huge_pages_are_not_restored_from_a_file() {
    let params = params(MemBackendType::File, vec![]);
    let run = run(&params, Some(loaded()), HugePageConfig::Hugetlbfs2M, NEVER);
    assert_eq!(run.done.last().unwrap(), "report");
    assert_eq!(
        run.result,
        Err(RestoreFromSnapshotError::GuestMemory(
            RestoreFromSnapshotGuestMemoryError::File(GuestMemoryFromFileError::HugetlbfsSnapshot)
        ))
    );
}

#[test]
fn state_without_memory_is_refused() {
    let mut state = loaded();
    state.vm_state.memory.regions.clear();
    let params = params(MemBackendType::File, vec![]);
    let run = run(&params, Some(state), HugePageConfig::NoHugePages, NEVER);
    assert_eq!(run.done.last().unwrap(), "update");
    assert_eq!(
        run.result,
        Err(RestoreFromSnapshotError::Invalid(SnapShotStateSanityCheckError::NoMemory))
    );
}

#[test]
fn override_of_an_unknown_device_is_refused() {
    let params = params(MemBackendType::File, vec![entry("eth7", "tap7")]);
    let run = run(&params, Some(loaded()), HugePageConfig::NoHugePages, NEVER);
    assert_eq!(run.done.last().unwrap(), "load 77");
    assert_eq!(
        run.result,
        Err(RestoreFromSnapshotError::File(
            SnapshotStateFromFileError::UnknownNetworkDevice
        ))
    );
}

#[test]
fn more_vcpus_than_a_machine_can_have_are_refused() {
    let mut state = loaded();
    state.vcpu_states = (0..256).map(|_| VcpuState::default()).collect();
    let params = params(MemBackendType::File, vec![]);
    let run = run(&params, Some(state), HugePageConfig::NoHugePages, NEVER);
    assert_eq!(
        run.result,
        Err(RestoreFromSnapshotError::Build(
            BuildMicrovmFromSnapshotError::VmUpdateConfig(MachineConfigError::InvalidVcpuCount)
        ))
    );
}

#[test]
fn last_override_of_a_device_counts() {
    let mut devices = vec![device("a", "t0"), device("b", "t1"), device("a", "t2")];
    let entries = vec![entry("a", "x"), entry("b", "y"), entry("a", "z")];
    assert_eq!(apply_network_overrides(&mut devices, &entries), Ok(()));
    assert_eq!(devices, vec![device("a", "z"), device("b", "y"), device("a", "t2")]);
}

#[test]
fn devices_without_override_stay_as_they_are() {
    let mut devices = vec![device("a", "t0"), device("b", "t1")];
    assert_eq!(apply_network_overrides(&mut devices, &vec![]), Ok(()));
    assert_eq!(devices, vec![device("a", "t0"), device("b", "t1")]);
    assert_eq!(
        apply_network_overrides(&mut devices, &vec![entry("c", "x")]),
        Err(SnapshotStateFromFileError::UnknownNetworkDevice)
    );
}
