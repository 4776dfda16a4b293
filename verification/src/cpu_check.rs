//! Comparing the CPU of the host with the CPU that a snapshot was taken on.
//!
//! A difference does not stop a restore. It is reported, and so is an ID that cannot be had.

use crate::vm_state::{MicrovmState, VcpuState};
use vstd::prelude::*;

verus! {

/// How grave a report is.
#[derive(Debug, Clone, Copy, PartialEq, Eq, Structural)]
pub enum ReportLevel {
    /// For information.
    Info,
    /// A warning.
    Warn,
}

/// One line of a report on CPU IDs.
#[derive(Debug, Clone, Copy, PartialEq, Eq)]
pub enum CpuReport {
    /// The vendor ID of the host CPU.
    HostVendorId([u8; 12]),
    /// The vendor ID of the CPU in the snapshot.
    SnapshotVendorId([u8; 12]),
    /// The vendor IDs differ.
    VendorIdsDiffer,
    /// The vendor ID could not be had from the host.
    HostVendorIdMissing,
    /// The vendor ID could not be had from the snapshot.
    SnapshotVendorIdMissing,
    /// The manufacturer ID of the host CPU.
    HostManufacturerId(u64),
    /// The manufacturer ID of the CPU in the snapshot.
    SnapshotManufacturerId(u64),
    /// The manufacturer IDs differ.
    ManufacturerIdsDiffer,
    /// The manufacturer ID could not be had from the host.
    HostManufacturerIdMissing,
    /// The manufacturer ID could not be had from the snapshot.
    SnapshotManufacturerIdMissing,
}

impl CpuReport {
    /// Whether the line carries an ID.
    pub open spec fn carries_id(self) -> bool {
        match self {
            CpuReport::HostVendorId(_) => true,
            CpuReport::SnapshotVendorId(_) => true,
            CpuReport::HostManufacturerId(_) => true,
            CpuReport::SnapshotManufacturerId(_) => true,
            _ => false,
        }
    }

    /// Returns how grave the line is: a line that carries an ID informs, any other warns.
    pub fn level(&self) -> (level: ReportLevel)
        ensures
            level == if self.carries_id() {
                ReportLevel::Info
            } else {
                ReportLevel::Warn
            },
    {
        match self {
            CpuReport::HostVendorId(_) => ReportLevel::Info,
            CpuReport::SnapshotVendorId(_) => ReportLevel::Info,
            CpuReport::HostManufacturerId(_) => ReportLevel::Info,
            CpuReport::SnapshotManufacturerId(_) => ReportLevel::Info,
            _ => ReportLevel::Warn,
        }
    }
}

/// What was read of the CPU of the host, with a text that describes a failure to read it.
#[derive(Debug)]
pub enum HostCpu {
    /// The vendor ID of an x86_64 CPU.
    X86_64(Result<[u8; 12], String>),
    /// The manufacturer ID of an aarch64 CPU.
    Aarch64(Result<u64, String>),
}

/// The report on two vendor IDs.
pub open spec fn vendor_report(
    host: Result<[u8; 12], String>,
    snapshot: Option<[u8; 12]>,
) -> Seq<CpuReport> {
    let host_line = match host {
        Ok(id) => CpuReport::HostVendorId(id),
        Err(_) => CpuReport::HostVendorIdMissing,
    };
    let snapshot_line = match snapshot {
        Some(id) => CpuReport::SnapshotVendorId(id),
        None => CpuReport::SnapshotVendorIdMissing,
    };
    match (host, snapshot) {
        (Ok(host_id), Some(snapshot_id)) => if host_id@ != snapshot_id@ {
            seq![host_line, snapshot_line, CpuReport::VendorIdsDiffer]
        } else {
            seq![host_line, snapshot_line]
        },
        _ => seq![host_line, snapshot_line],
    }
}

/// The line on the manufacturer ID of a vcpu in the snapshot.
pub open spec fn manufacturer_line(vcpu: VcpuState) -> CpuReport {
    match vcpu.manufacturer_id {
        Some(id) => CpuReport::SnapshotManufacturerId(id),
        None => CpuReport::SnapshotManufacturerIdMissing,
    }
}

/// Whether a vcpu has a manufacturer ID other than that of the host.
pub open spec fn manufacturer_differs(host: Result<u64, String>, vcpu: VcpuState) -> bool {
    match (host, vcpu.manufacturer_id) {
        (Ok(host_id), Some(snapshot_id)) => host_id != snapshot_id,
        _ => false,
    }
}

/// The report on the manufacturer IDs of the host and of each vcpu: a line on the host, a line on
/// every vcpu, and a last one where some vcpu differs from the host.
pub open spec fn manufacturer_report(
    host: Result<u64, String>,
    vcpus: Seq<VcpuState>,
) -> Seq<CpuReport> {
    let host_line = match host {
        Ok(id) => CpuReport::HostManufacturerId(id),
        Err(_) => CpuReport::HostManufacturerIdMissing,
    };
    let lines = seq![host_line] + vcpus.map_values(|vcpu: VcpuState| manufacturer_line(vcpu));
    if exists|i: int| 0 <= i < vcpus.len() && manufacturer_differs(host, #[trigger] vcpus[i]) {
        lines.push(CpuReport::ManufacturerIdsDiffer)
    } else {
        lines
    }
}

fn same_vendor(a: &[u8; 12], b: &[u8; 12]) -> (same: bool)
    ensures
        same == (a@ == b@),
{
    let mut i: usize = 0;
    while i < 12
        invariant
            0 <= i <= 12,
            forall|k: int| 0 <= k < i ==> a@[k] == b@[k],
        decreases 12 - i,
    {
        if a[i] != b[i] {
            return false;
        }
        i = i + 1;
    }
    assert(a@ =~= b@);
    true
}

/// Reports whether the CPU vendor of the snapshot matches the CPU vendor of the host.
///
/// The vendor ID of the snapshot is that of its first vcpu.
pub fn validate_cpu_vendor(
    microvm_state: &MicrovmState,
    host_vendor_id: &Result<[u8; 12], String>,
) -> (report: Vec<CpuReport>)
    requires
        microvm_state.vcpu_states@.len() > 0,
    ensures
        report@ == vendor_report(*host_vendor_id, microvm_state.vcpu_states@[0].vendor_id),
{
    let snapshot_vendor_id: Option<[u8; 12]> = microvm_state.vcpu_states[0].vendor_id;
    let mut report: Vec<CpuReport> = Vec::new();
    match (host_vendor_id, snapshot_vendor_id) {
        (Ok(host_id), Some(snapshot_id)) => {
            report.push(CpuReport::HostVendorId(*host_id));
            report.push(CpuReport::SnapshotVendorId(snapshot_id));
            if !same_vendor(host_id, &snapshot_id) {
                report.push(CpuReport::VendorIdsDiffer);
            }
        },
        (Ok(host_id), None) => {
            report.push(CpuReport::HostVendorId(*host_id));
            report.push(CpuReport::SnapshotVendorIdMissing);
        },
        (Err(_), Some(snapshot_id)) => {
            report.push(CpuReport::HostVendorIdMissing);
            report.push(CpuReport::SnapshotVendorId(snapshot_id));
        },
        (Err(_), None) => {
            report.push(CpuReport::HostVendorIdMissing);
            report.push(CpuReport::SnapshotVendorIdMissing);
        },
    }
    report
}

/// Reports whether the CPU manufacturer ID of the snapshot matches the one of the host.
///
/// The manufacturer ID of the snapshot is taken from each vcpu.
pub fn validate_cpu_manufacturer_id(
    microvm_state: &MicrovmState,
    host_cpu_id: &Result<u64, String>,
) -> (report: Vec<CpuReport>)
    requires
        microvm_state.vcpu_states@.len() > 0,
    ensures
        report@ == manufacturer_report(*host_cpu_id, microvm_state.vcpu_states@),
{
    let vcpus: &Vec<VcpuState> = &microvm_state.vcpu_states;
    let mut report: Vec<CpuReport> = Vec::new();
    match host_cpu_id {
        Ok(host_id) => report.push(CpuReport::HostManufacturerId(*host_id)),
        Err(_) => report.push(CpuReport::HostManufacturerIdMissing),
    }
    let ghost host_line = report@[0];
    let ghost line = |vcpu: VcpuState| manufacturer_line(vcpu);
    let mut differ: bool = false;
    let mut i: usize = 0;
    assert(report@ =~= seq![host_line] + vcpus@.take(0).map_values(line));
    while i < vcpus.len()
        invariant
            i <= vcpus@.len(),
            line == (|vcpu: VcpuState| manufacturer_line(vcpu)),
            report@ == seq![host_line] + vcpus@.take(i as int).map_values(line),
            differ <==> exists|k: int|
                0 <= k < i && manufacturer_differs(*host_cpu_id, #[trigger] vcpus@[k]),
        decreases vcpus@.len() - i,
    {
        let snapshot_cpu_id: Option<u64> = vcpus[i].manufacturer_id;
        match snapshot_cpu_id {
            Some(snapshot_id) => {
                report.push(CpuReport::SnapshotManufacturerId(snapshot_id));
                if let Ok(host_id) = host_cpu_id {
                    if *host_id != snapshot_id {
                        assert(manufacturer_differs(*host_cpu_id, vcpus@[i as int]));
                        differ = true;
                    }
                }
            },
            None => report.push(CpuReport::SnapshotManufacturerIdMissing),
        }
        assert(report@ =~= seq![host_line] + vcpus@.take(i + 1).map_values(line));
        i += 1;
    }
    assert(vcpus@.take(i as int) =~= vcpus@);
    if differ {
        report.push(CpuReport::ManufacturerIdsDiffer);
    }
    report
}

/// Error type for `snapshot_state_sanity_check`.
#[derive(Debug, Clone, Copy, PartialEq, Eq, Structural)]
pub enum SnapShotStateSanityCheckError {
    /// No memory region defined.
    NoMemory,
}

/// The report on the CPU of the host and the CPU in the snapshot.
pub open spec fn cpu_report(microvm_state: MicrovmState, host_cpu: HostCpu) -> Seq<CpuReport> {
    match host_cpu {
        HostCpu::X86_64(host) => vendor_report(host, microvm_state.vcpu_states@[0].vendor_id),
        HostCpu::Aarch64(host) => manufacturer_report(host, microvm_state.vcpu_states@),
    }
}

/// Performs sanity checks against a loaded state: it must hold a memory region. The check of the
/// CPU only reports.
pub fn snapshot_state_sanity_check(microvm_state: &MicrovmState, host_cpu: &HostCpu) -> (res:
    Result<Vec<CpuReport>, SnapShotStateSanityCheckError>)
    requires
        microvm_state.vm_state.memory.regions@.len() > 0 ==> microvm_state.vcpu_states@.len() > 0,
    ensures
        match res {
            Ok(report) => {
                &&& microvm_state.vm_state.memory.regions@.len() > 0
                &&& report@ == cpu_report(*microvm_state, *host_cpu)
            },
            Err(SnapShotStateSanityCheckError::NoMemory) => {
                microvm_state.vm_state.memory.regions@.len() == 0
            },
        },
{
    if microvm_state.vm_state.memory.regions.len() == 0 {
        return Err(SnapShotStateSanityCheckError::NoMemory);
    }
    match host_cpu {
        HostCpu::X86_64(host) => Ok(validate_cpu_vendor(microvm_state, host)),
        HostCpu::Aarch64(host) => Ok(validate_cpu_manufacturer_id(microvm_state, host)),
    }
}

/// A report warns exactly if an ID is missing or the IDs differ: two equal vendor IDs are
/// reported without a warning.
pub proof fn law_vendor_warning(
    host: Result<[u8; 12], String>,
    snapshot: Option<[u8; 12]>,
)
    ensures
        (exists|i: int|
            0 <= i < vendor_report(host, snapshot).len() && !(#[trigger] vendor_report(
                host,
                snapshot,
            )[i]).carries_id()) <==> host is Err || snapshot is None || host->Ok_0@
            != snapshot->0@,
{
    let report = vendor_report(host, snapshot);
    if host is Err {
        assert(!report[0].carries_id());
    } else if snapshot is None {
        assert(!report[1].carries_id());
    } else if host->Ok_0@ != snapshot->0@ {
        assert(!report[2].carries_id());
    }
}

/// A difference is reported exactly if some vcpu has another manufacturer ID than the host, and a
/// missing one exactly if some vcpu has none. The report warns exactly if it says one of these, or
/// that the host has none.
pub proof fn law_manufacturer_warning(host: Result<u64, String>, vcpus: Seq<VcpuState>)
    ensures
        manufacturer_report(host, vcpus).contains(CpuReport::ManufacturerIdsDiffer) <==> host is Ok
            && exists|i: int|
            0 <= i < vcpus.len() && (#[trigger] vcpus[i]).manufacturer_id is Some
                && vcpus[i].manufacturer_id->0 != host->Ok_0,
        manufacturer_report(host, vcpus).contains(CpuReport::SnapshotManufacturerIdMissing)
            <==> exists|i: int|
            0 <= i < vcpus.len() && (#[trigger] vcpus[i]).manufacturer_id is None,
        (exists|i: int|
            0 <= i < manufacturer_report(host, vcpus).len() && !(
            #[trigger] manufacturer_report(host, vcpus)[i]).carries_id()) <==> host is Err
            || manufacturer_report(host, vcpus).contains(CpuReport::ManufacturerIdsDiffer)
            || manufacturer_report(host, vcpus).contains(CpuReport::SnapshotManufacturerIdMissing),
{
    let report = manufacturer_report(host, vcpus);
    let n = vcpus.len() as int;
    let differ = exists|i: int| 0 <= i < n && manufacturer_differs(host, #[trigger] vcpus[i]);
    assert forall|i: int| 0 <= i < n implies report[i + 1] == manufacturer_line(
        #[trigger] vcpus[i],
    ) by {}
    if differ {
        let i = choose|i: int| 0 <= i < n && manufacturer_differs(host, #[trigger] vcpus[i]);
        assert(vcpus[i].manufacturer_id is Some);
        assert(report[n + 1] == CpuReport::ManufacturerIdsDiffer);
    }
    if exists|i: int|
        host is Ok && 0 <= i < n && (#[trigger] vcpus[i]).manufacturer_id is Some
            && vcpus[i].manufacturer_id->0 != host->Ok_0 {
        let i = choose|i: int|
            0 <= i < n && (#[trigger] vcpus[i]).manufacturer_id is Some
                && vcpus[i].manufacturer_id->0 != host->Ok_0;
        assert(manufacturer_differs(host, vcpus[i]));
    }
    assert forall|k: int| 0 <= k < report.len() implies {
        ||| k == 0 && (#[trigger] report[k]).carries_id() == (host is Ok)
        ||| 0 < k <= n && report[k] == manufacturer_line(vcpus[k - 1])
        ||| k == n + 1 && differ && report[k] == CpuReport::ManufacturerIdsDiffer
    } by {
        if 0 < k <= n {
            assert(report[(k - 1) + 1] == manufacturer_line(vcpus[k - 1]));
        }
    }
    if exists|i: int| 0 <= i < n && (#[trigger] vcpus[i]).manufacturer_id is None {
        let i = choose|i: int| 0 <= i < n && (#[trigger] vcpus[i]).manufacturer_id is None;
        assert(report[i + 1] == CpuReport::SnapshotManufacturerIdMissing);
    }
    if host is Err {
        assert(!report[0].carries_id());
    }
}

/// The report on vendor IDs says first what the host has, then what the snapshot has, each with its
/// ID or as missing, and last, exactly where both are there and some byte differs, that they do.
pub proof fn law_vendor_report_says_what_is_there(
    host: Result<[u8; 12], String>,
    snapshot: Option<[u8; 12]>,
)
    ensures
        ({
            let report = vendor_report(host, snapshot);
            let differ = host is Ok && snapshot is Some && exists|i: int|
                0 <= i < 12 && #[trigger] host->Ok_0@[i] != snapshot->0@[i];
            &&& report.len() == if differ {
                3int
            } else {
                2
            }
            &&& host is Ok ==> report[0] == CpuReport::HostVendorId(host->Ok_0)
            &&& host is Err ==> report[0] is HostVendorIdMissing
            &&& snapshot is Some ==> report[1] == CpuReport::SnapshotVendorId(snapshot->0)
            &&& snapshot is None ==> report[1] is SnapshotVendorIdMissing
            &&& differ ==> report[2] is VendorIdsDiffer
        }),
{
    if host is Ok && snapshot is Some {
        let a = host->Ok_0@;
        let b = snapshot->0@;
        if forall|i: int| 0 <= i < 12 ==> #[trigger] a[i] == b[i] {
            assert(a =~= b);
        }
    }
}

/// The report on manufacturer IDs says first what the host has, then what each vcpu has, in their
/// order, each with its ID or as missing, and last, exactly where some vcpu has another ID than the
/// host, that they differ.
pub proof fn law_manufacturer_report_says_what_is_there(
    host: Result<u64, String>,
    vcpus: Seq<VcpuState>,
)
    ensures
        ({
            let report = manufacturer_report(host, vcpus);
            let differ = host is Ok && exists|i: int|
                0 <= i < vcpus.len() && (#[trigger] vcpus[i]).manufacturer_id is Some
                    && vcpus[i].manufacturer_id->0 != host->Ok_0;
            &&& report.len() == vcpus.len() + if differ {
                2int
            } else {
                1
            }
            &&& host is Ok ==> report[0] == CpuReport::HostManufacturerId(host->Ok_0)
            &&& host is Err ==> report[0] is HostManufacturerIdMissing
            &&& forall|i: int|
                0 <= i < vcpus.len() ==> report[i + 1] == match (
                #[trigger] vcpus[i]).manufacturer_id {
                    Some(id) => CpuReport::SnapshotManufacturerId(id),
                    None => CpuReport::SnapshotManufacturerIdMissing,
                }
            &&& differ ==> report.last() is ManufacturerIdsDiffer
        }),
{
    let differ = exists|i: int|
        0 <= i < vcpus.len() && manufacturer_differs(host, #[trigger] vcpus[i]);
    if differ {
        let i = choose|i: int|
            0 <= i < vcpus.len() && manufacturer_differs(host, #[trigger] vcpus[i]);
        assert(vcpus[i].manufacturer_id is Some);
    }
    if host is Ok && exists|i: int|
        0 <= i < vcpus.len() && (#[trigger] vcpus[i]).manufacturer_id is Some
            && vcpus[i].manufacturer_id->0 != host->Ok_0 {
        let i = choose|i: int|
            0 <= i < vcpus.len() && (#[trigger] vcpus[i]).manufacturer_id is Some
                && vcpus[i].manufacturer_id->0 != host->Ok_0;
        assert(manufacturer_differs(host, vcpus[i]));
    }
}

/// A state is compared with the kind of CPU that the host has: by the vendor ID of its first vcpu,
/// or by the manufacturer IDs of all of them. A line informs exactly if it carries an ID.
pub proof fn law_report_goes_by_the_host(microvm_state: MicrovmState, host_cpu: HostCpu)
    ensures
        host_cpu matches HostCpu::X86_64(host) ==> cpu_report(microvm_state, host_cpu)
            == vendor_report(host, microvm_state.vcpu_states@[0].vendor_id),
        host_cpu matches HostCpu::Aarch64(host) ==> cpu_report(microvm_state, host_cpu)
            == manufacturer_report(host, microvm_state.vcpu_states@),
        forall|line: CpuReport| #[trigger]
            line.carries_id() <==> line is HostVendorId || line is SnapshotVendorId || line
                is HostManufacturerId || line is SnapshotManufacturerId,
{
}

} // verus!
