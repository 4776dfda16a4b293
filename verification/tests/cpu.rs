use microvm::cpu_check::{
    snapshot_state_sanity_check, validate_cpu_manufacturer_id, validate_cpu_vendor, CpuReport,
    HostCpu, ReportLevel, SnapShotStateSanityCheckError,
};
use microvm::vm_state::{
    GuestMemoryRegionState, GuestMemoryState, MicrovmState, VcpuState, VmState,
};

fn state(vendor_id: Option<[u8; 12]>, manufacturer_id: Option<u64>) -> MicrovmState {
    MicrovmState {
        vm_state: VmState {
            memory: GuestMemoryState {
                regions: vec![GuestMemoryRegionState { base_address: 0, size: 4096 }],
            },
            data: vec![],
        },
        vcpu_states: vec![VcpuState { vendor_id, manufacturer_id, data: vec![] }],
        ..Default::default()
    }
}

const INTEL: [u8; 12] = *b"GenuineIntel";
const AMD: [u8; 12] = *b"AuthenticAMD";

fn warns(report: &[CpuReport]) -> bool {
    report.iter().any(|line| line.level() == ReportLevel::Warn)
}

#[test]
fn equal_vendors_are_reported_without_a_warning() {
    let report = validate_cpu_vendor(&state(Some(INTEL), None), &Ok(INTEL));
    assert_eq!(
        report,
        vec![CpuReport::HostVendorId(INTEL), CpuReport::SnapshotVendorId(INTEL)]
    );
    assert!(!warns(&report));
}

#[test]
fn other_vendors_and_missing_vendors_warn() {
    let missing = || Err("no cpuid".to_string());
    let differ = validate_cpu_vendor(&state(Some(INTEL), None), &Ok(AMD));
    assert_eq!(
        differ,
        vec![
            CpuReport::HostVendorId(AMD),
            CpuReport::SnapshotVendorId(INTEL),
            CpuReport::VendorIdsDiffer,
        ]
    );
    let no_snapshot = validate_cpu_vendor(&state(None, None), &Ok(AMD));
    assert_eq!(
        no_snapshot,
        vec![CpuReport::HostVendorId(AMD), CpuReport::SnapshotVendorIdMissing]
    );
    let no_host = validate_cpu_vendor(&state(Some(INTEL), None), &missing());
    assert_eq!(
        no_host,
        vec![CpuReport::HostVendorIdMissing, CpuReport::SnapshotVendorId(INTEL)]
    );
    let neither = validate_cpu_vendor(&state(None, None), &missing());
    assert_eq!(
        neither,
        vec![CpuReport::HostVendorIdMissing, CpuReport::SnapshotVendorIdMissing]
    );
    for report in [differ, no_snapshot, no_host, neither] {
        assert!(warns(&report));
    }
}

#[test]
fn manufacturers_are_compared_alike() {
    let missing = || Err("no midr".to_string());
    let equal = validate_cpu_manufacturer_id(&state(None, Some(0x41)), &Ok(0x41));
    assert_eq!(
        equal,
        vec![
            CpuReport::HostManufacturerId(0x41),
            CpuReport::SnapshotManufacturerId(0x41),
        ]
    );
    assert!(!warns(&equal));
    let differ = validate_cpu_manufacturer_id(&state(None, Some(0x41)), &Ok(0xc0));
    assert_eq!(
        differ,
        vec![
            CpuReport::HostManufacturerId(0xc0),
            CpuReport::SnapshotManufacturerId(0x41),
            CpuReport::ManufacturerIdsDiffer,
        ]
    );
    let no_snapshot = validate_cpu_manufacturer_id(&state(None, None), &Ok(0xc0));
    assert_eq!(
        no_snapshot,
        vec![
            CpuReport::HostManufacturerId(0xc0),
            CpuReport::SnapshotManufacturerIdMissing,
        ]
    );
    let no_host = validate_cpu_manufacturer_id(&state(None, Some(0x41)), &missing());
    assert_eq!(
        no_host,
        vec![
            CpuReport::HostManufacturerIdMissing,
            CpuReport::SnapshotManufacturerId(0x41),
        ]
    );
    let neither = validate_cpu_manufacturer_id(&state(None, None), &missing());
    assert_eq!(
        neither,
        vec![
            CpuReport::HostManufacturerIdMissing,
            CpuReport::SnapshotManufacturerIdMissing,
        ]
    );
    for report in [differ, no_snapshot, no_host, neither] {
        assert!(warns(&report));
    }
}

#[test]
fn every_vcpu_has_its_manufacturer_compared() {
    let mut state = state(None, Some(0x41));
    for manufacturer_id in [Some(0xc0), None, Some(0xc1)] {
        state.vcpu_states.push(VcpuState { vendor_id: None, manufacturer_id, data: vec![] });
    }
    assert_eq!(
        validate_cpu_manufacturer_id(&state, &Ok(0x41)),
        vec![
            CpuReport::HostManufacturerId(0x41),
            CpuReport::SnapshotManufacturerId(0x41),
            CpuReport::SnapshotManufacturerId(0xc0),
            CpuReport::SnapshotManufacturerIdMissing,
            CpuReport::SnapshotManufacturerId(0xc1),
            CpuReport::ManufacturerIdsDiffer,
        ]
    );
    let no_host = validate_cpu_manufacturer_id(&state, &Err("no midr".to_string()));
    assert!(!no_host.contains(&CpuReport::ManufacturerIdsDiffer));
    state.vcpu_states.truncate(2);
    assert!(validate_cpu_manufacturer_id(&state, &Ok(0x41))
        .contains(&CpuReport::ManufacturerIdsDiffer));
}

#[test]
fn sanity_check_wants_memory_and_reports_the_cpu() {
    let good = state(Some(INTEL), Some(0x41));
    assert_eq!(
        snapshot_state_sanity_check(&good, &HostCpu::X86_64(Ok(INTEL))),
        Ok(vec![CpuReport::HostVendorId(INTEL), CpuReport::SnapshotVendorId(INTEL)])
    );
    assert_eq!(
        snapshot_state_sanity_check(&good, &HostCpu::Aarch64(Ok(0x42))),
        Ok(vec![
            CpuReport::HostManufacturerId(0x42),
            CpuReport::SnapshotManufacturerId(0x41),
            CpuReport::ManufacturerIdsDiffer,
        ])
    );
    let empty = MicrovmState::default();
    assert_eq!(
        snapshot_state_sanity_check(&empty, &HostCpu::X86_64(Ok(INTEL))),
        Err(SnapShotStateSanityCheckError::NoMemory)
    );
}
