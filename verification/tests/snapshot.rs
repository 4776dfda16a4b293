use microvm::free_pages::FreePagesError;
use microvm::persist::{
    collect_free_pages_for_zeroing, create_snapshot, snapshot_version, CreateSnapshotError,
    CreateSnapshotParams, FileOperation, MicrovmStateError, SnapshotAction, SnapshotEvent,
    SnapshotPhase, SnapshotType, VirtioDevice, TYPE_BALLOON,
};
use microvm::vm_state::{
    BootSource, BootSourceConfig, HugePageConfig, MachineConfig, MicrovmState, StaticCpuTemplate,
    VmInfo, VmResources,
};
use std::collections::HashSet;

fn vm_info() -> VmInfo {
    VmInfo { mem_size_mib: 1, ..Default::default() }
}

fn params(snapshot_type: SnapshotType) -> CreateSnapshotParams {
    CreateSnapshotParams {
        snapshot_type,
        snapshot_path: "/snap".to_string(),
        mem_file_path: "/mem".to_string(),
    }
}

fn balloon(pages: &[u32]) -> VirtioDevice {
    VirtioDevice {
        device_type: TYPE_BALLOON,
        inflated_pages: Some(pages.iter().copied().collect()),
        activated: true,
    }
}

fn idle() -> VirtioDevice {
    VirtioDevice { device_type: 1, inflated_pages: None, activated: false }
}

fn state() -> MicrovmState {
    MicrovmState { vm_info: vm_info(), ..Default::default() }
}

/// Runs a creation in which the work at index `failing` fails, and lists the work that was done.
fn run(
    snapshot_type: SnapshotType,
    pages: &[u32],
    failing: usize,
) -> (Vec<String>, Result<(), CreateSnapshotError>) {
    let params = params(snapshot_type);
    let info = vm_info();
    let (mut phase, mut action) =
        create_snapshot(SnapshotPhase::Idle, SnapshotEvent::Requested, &info, &params);
    let mut done: Vec<String> = Vec::new();
    loop {
        let outcome = if done.len() == failing {
            Err("failed".to_string())
        } else {
            Ok(())
        };
        let (name, event) = match action {
            SnapshotAction::SaveState => (
                "save".to_string(),
                SnapshotEvent::StateSaved(
                    outcome.map(|_| state()).map_err(MicrovmStateError::NotAllowed),
                ),
            ),
            SnapshotAction::OpenStateFile { path } => {
                (format!("open {path}"), SnapshotEvent::FileOperationDone(outcome))
            }
            SnapshotAction::SerializeState { state: saved, version } => {
                assert_eq!(saved, state());
                assert_eq!(version, (7, 0, 0));
                ("serialize".to_string(), SnapshotEvent::StateSerialized(outcome))
            }
            SnapshotAction::FlushStateFile => {
                ("flush state".to_string(), SnapshotEvent::FileOperationDone(outcome))
            }
            SnapshotAction::SyncStateFile => {
                ("sync state".to_string(), SnapshotEvent::FileOperationDone(outcome))
            }
            SnapshotAction::WriteMemory { path, snapshot_type: kind } => {
                assert_eq!(kind, snapshot_type);
                (
                    format!("write {path}"),
                    SnapshotEvent::MemoryWritten(outcome.map_err(CreateSnapshotError::Memory)),
                )
            }
            SnapshotAction::ListDevices => (
                "list".to_string(),
                SnapshotEvent::DevicesListed(vec![idle(), balloon(pages), idle(), balloon(&[])]),
            ),
            SnapshotAction::OpenMemoryFile { path, pages_zeroed, bytes_zeroed } => {
                assert_eq!(pages_zeroed, pages.len());
                assert_eq!(bytes_zeroed, pages.len() as u64 * 4096);
                (format!("open {path}"), SnapshotEvent::FileOperationDone(outcome))
            }
            SnapshotAction::SeekMemoryFile { offset } => {
                (format!("seek {offset}"), SnapshotEvent::FileOperationDone(outcome))
            }
            SnapshotAction::WriteZeroPages { page_count } => {
                (format!("zero {page_count}"), SnapshotEvent::FileOperationDone(outcome))
            }
            SnapshotAction::FlushMemoryFile => {
                ("flush memory".to_string(), SnapshotEvent::FileOperationDone(outcome))
            }
            SnapshotAction::MarkQueuesDirty { devices } => {
                (format!("mark {devices:?}"), SnapshotEvent::QueuesMarked)
            }
            SnapshotAction::Finish(result) => return (done, result),
        };
        done.push(name);
        let next = create_snapshot(phase, event, &info, &params);
        phase = next.0;
        action = next.1;
    }
}

const NEVER: usize = usize::MAX;

#[test]
fn full_snapshot_zeroes_inflated_pages() {
    let (done, result) = run(SnapshotType::Full, &[5, 1, 2], NEVER);
    assert_eq!(
        done,
        vec![
            "save",
            "open /snap",
            "serialize",
            "flush state",
            "sync state",
            "write /mem",
            "list",
            "open /mem",
            "seek 4096",
            "zero 2",
            "seek 20480",
            "zero 1",
            "flush memory",
            "list",
            "mark [1, 3]",
        ]
    );
    assert_eq!(result, Ok(()));
}

#[test]
fn full_snapshot_without_free_pages_is_not_zeroed() {
    let (done, result) = run(SnapshotType::Full, &[], NEVER);
    assert_eq!(done[6..], ["list", "list", "mark [1, 3]"]);
    assert_eq!(result, Ok(()));
}

#[test]
fn diff_snapshot_is_not_zeroed() {
    let (done, result) = run(SnapshotType::Diff, &[5, 1, 2], NEVER);
    assert_eq!(done[5..], ["write /mem", "list", "mark [1, 3]"]);
    assert_eq!(result, Ok(()));
}

#[test]
fn each_failure_of_a_creation_has_its_error() {
    let text = || "failed".to_string();
    let expected = vec![
        (0, CreateSnapshotError::MicrovmState(MicrovmStateError::NotAllowed(text()))),
        (1, CreateSnapshotError::SnapshotBackingFile(FileOperation::Open, text())),
        (2, CreateSnapshotError::SerializeMicrovmState(text())),
        (3, CreateSnapshotError::SnapshotBackingFile(FileOperation::Flush, text())),
        (4, CreateSnapshotError::SnapshotBackingFile(FileOperation::SyncAll, text())),
        (5, CreateSnapshotError::Memory(text())),
        (7, CreateSnapshotError::MemoryBackingFile(FileOperation::Open, text())),
        (8, CreateSnapshotError::MemoryBackingFile(FileOperation::Seek, text())),
        (9, CreateSnapshotError::MemoryBackingFile(FileOperation::Write, text())),
        (12, CreateSnapshotError::MemoryBackingFile(FileOperation::Flush, text())),
    ];
    for (failing, error) in expected {
        let (done, result) = run(SnapshotType::Full, &[5, 1, 2], failing);
        assert_eq!(done.len(), failing + 1);
        assert_eq!(result, Err(error));
    }
}

#[test]
fn failure_to_read_the_dirty_bitmap_is_passed_on() {
    let error = || CreateSnapshotError::DirtyBitmap("failed".to_string());
    let (_, action) = create_snapshot(
        SnapshotPhase::WritingMemory,
        SnapshotEvent::MemoryWritten(Err(error())),
        &vm_info(),
        &params(SnapshotType::Diff),
    );
    match action {
        SnapshotAction::Finish(result) => assert_eq!(result, Err(error())),
        _ => panic!("the creation went on"),
    }
}

#[test]
fn inflated_page_beyond_memory_is_refused() {
    let (done, result) = run(SnapshotType::Full, &[256], NEVER);
    assert_eq!(done.last().unwrap(), "list");
    assert_eq!(
        result,
        Err(CreateSnapshotError::FreePagesbitmap(
            FreePagesError::InvalidPageNumber(256, 256)
        ))
    );
}

#[test]
fn free_pages_are_those_of_all_balloons() {
    let devices = vec![
        balloon(&[1, 3]),
        VirtioDevice { device_type: 1, inflated_pages: Some(HashSet::from([7])), activated: true },
        VirtioDevice { device_type: TYPE_BALLOON, inflated_pages: None, activated: true },
        balloon(&[3, 200]),
    ];
    let bitmap = collect_free_pages_for_zeroing(&devices, &vm_info()).unwrap();
    assert_eq!(bitmap.total_pages, 256);
    assert_eq!(bitmap.page_size, 4096);
    assert_eq!(bitmap.free_page_count(), 3);
    for page in [1, 3, 200] {
        assert!(bitmap.is_page_free(page));
    }
    assert!(!bitmap.is_page_free(7));
}

#[test]
fn version_is_seven() {
    assert_eq!(snapshot_version(), (7, 0, 0));
}

#[test]
fn vm_info_comes_from_the_resources() {
    let boot_source = BootSourceConfig {
        kernel_image_path: "/vmlinux".to_string(),
        initrd_path: None,
        boot_args: Some("console=ttyS0".to_string()),
    };
    let resources = VmResources {
        machine_config: MachineConfig {
            vcpu_count: 2,
            mem_size_mib: 512,
            smt: true,
            cpu_template: StaticCpuTemplate::T2S,
            track_dirty_pages: false,
            huge_pages: HugePageConfig::Hugetlbfs2M,
        },
        boot_source: BootSource { config: boot_source.clone() },
    };
    let info = VmInfo::from(&resources);
    assert_eq!(info.mem_size_mib, 512);
    assert!(info.smt);
    assert_eq!(info.cpu_template, StaticCpuTemplate::T2S);
    assert_eq!(info.boot_source, boot_source);
    assert_eq!(info.huge_pages, HugePageConfig::Hugetlbfs2M);
    assert_eq!(info.clone(), info);
}
