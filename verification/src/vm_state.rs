//! State structures for saving and restoring a microVM.

use vstd::prelude::*;

verus! {

/// The CPU templates that ship with the VMM.
#[derive(Debug, Clone, Copy, PartialEq, Eq, Structural, Default)]
pub enum StaticCpuTemplate {
    /// Template to mask Intel CPUs to a C3 instance.
    C3,
    /// Template to mask Intel CPUs to a T2 instance.
    T2,
    /// Template to mask Intel CPUs to a T2S instance.
    T2S,
    /// No CPU template is used.
    #[default]
    NoTemplate,
    /// Template to mask Intel Cascade Lake and newer CPUs to a T2 instance.
    T2CL,
    /// Template to mask AMD CPUs to a T2 instance.
    T2A,
    /// Template to mask Arm Neoverse V1 CPUs to Neoverse N1.
    V1N1,
}

/// The backing of guest memory by huge pages.
#[derive(Debug, Clone, Copy, PartialEq, Eq, Structural, Default)]
pub enum HugePageConfig {
    /// Do not use huge pages.
    #[default]
    NoHugePages,
    /// Back guest memory by 2 MiB pages of hugetlbfs.
    Hugetlbfs2M,
}

impl HugePageConfig {
    /// The page size in bytes of guest memory under this configuration.
    pub open spec fn spec_page_size(self) -> usize {
        match self {
            HugePageConfig::NoHugePages => 4096,
            HugePageConfig::Hugetlbfs2M => 2097152,
        }
    }

    /// Returns the page size in bytes of guest memory under this configuration.
    pub fn page_size(&self) -> (size: usize)
        ensures
            size == self.spec_page_size(),
    {
        match self {
            HugePageConfig::NoHugePages => 4096,
            HugePageConfig::Hugetlbfs2M => 2097152,
        }
    }

    /// Returns whether guest memory is backed by hugetlbfs.
    pub fn is_hugetlbfs(&self) -> (huge: bool)
        ensures
            huge == (*self is Hugetlbfs2M),
    {
        match self {
            HugePageConfig::NoHugePages => false,
            HugePageConfig::Hugetlbfs2M => true,
        }
    }
}

/// Where a guest boots from.
#[derive(Debug, PartialEq, Eq, Default)]
pub struct BootSourceConfig {
    /// Path of the kernel image.
    pub kernel_image_path: String,
    /// Path of the initrd, if there is one.
    pub initrd_path: Option<String>,
    /// The boot arguments to pass to the kernel.
    pub boot_args: Option<String>,
}

fn clone_optional(s: &Option<String>) -> (res: Option<String>)
    ensures
        res == *s,
{
    match s {
        Some(text) => Some(text.clone()),
        None => None,
    }
}

impl Clone for BootSourceConfig {
    fn clone(&self) -> (res: Self)
        ensures
            res == *self,
    {
        BootSourceConfig {
            kernel_image_path: self.kernel_image_path.clone(),
            initrd_path: clone_optional(&self.initrd_path),
            boot_args: clone_optional(&self.boot_args),
        }
    }
}

/// Holds information related to the VM that is not part of `VmState`.
#[derive(Debug, PartialEq, Eq, Default)]
pub struct VmInfo {
    /// Guest memory size.
    pub mem_size_mib: u64,
    /// Whether simultaneous multithreading is on.
    pub smt: bool,
    /// CPU template type.
    pub cpu_template: StaticCpuTemplate,
    /// Boot source information.
    pub boot_source: BootSourceConfig,
    /// Huge page configuration.
    pub huge_pages: HugePageConfig,
}

impl Clone for VmInfo {
    fn clone(&self) -> (res: Self)
        ensures
            res == *self,
    {
        VmInfo {
            mem_size_mib: self.mem_size_mib,
            smt: self.smt,
            cpu_template: self.cpu_template,
            boot_source: self.boot_source.clone(),
            huge_pages: self.huge_pages,
        }
    }
}

/// The configuration of the machine that a microVM runs on.
#[derive(Debug)]
pub struct MachineConfig {
    /// Number of virtual CPUs.
    pub vcpu_count: u8,
    /// Guest memory size.
    pub mem_size_mib: usize,
    /// Whether simultaneous multithreading is on.
    pub smt: bool,
    /// The static CPU template that the configured template amounts to.
    pub cpu_template: StaticCpuTemplate,
    /// Whether dirty pages are tracked.
    pub track_dirty_pages: bool,
    /// Huge page configuration.
    pub huge_pages: HugePageConfig,
}

/// The boot source of a microVM.
#[derive(Debug)]
pub struct BootSource {
    /// The configuration that it was made from.
    pub config: BootSourceConfig,
}

/// The resources of a microVM.
#[derive(Debug)]
pub struct VmResources {
    /// The machine configuration.
    pub machine_config: MachineConfig,
    /// The boot source.
    pub boot_source: BootSource,
}

impl From<&VmResources> for VmInfo {
    fn from(value: &VmResources) -> (info: Self) {
        VmInfo {
            mem_size_mib: value.machine_config.mem_size_mib as u64,
            smt: value.machine_config.smt,
            cpu_template: value.machine_config.cpu_template,
            boot_source: value.boot_source.config.clone(),
            huge_pages: value.machine_config.huge_pages,
        }
    }
}

impl vstd::std_specs::convert::FromSpecImpl<&VmResources> for VmInfo {
    open spec fn obeys_from_spec() -> bool {
        true
    }

    open spec fn from_spec(value: &VmResources) -> Self {
        VmInfo {
            mem_size_mib: value.machine_config.mem_size_mib as u64,
            smt: value.machine_config.smt,
            cpu_template: value.machine_config.cpu_template,
            boot_source: value.boot_source.config,
            huge_pages: value.machine_config.huge_pages,
        }
    }
}

/// State of the hypervisor, in the encoding of its owner.
#[derive(Debug, PartialEq, Eq, Default)]
pub struct KvmState {
    /// The encoded state.
    pub data: Vec<u8>,
}

/// A region of guest memory.
#[derive(Debug, Clone, Copy, PartialEq, Eq, Structural, Default)]
pub struct GuestMemoryRegionState {
    /// Guest physical address at which the region starts.
    pub base_address: u64,
    /// Size of the region in bytes.
    pub size: usize,
}

/// The memory of a guest, as its regions.
#[derive(Debug, PartialEq, Eq, Default)]
pub struct GuestMemoryState {
    /// The regions, in the order in which a memory file holds them.
    pub regions: Vec<GuestMemoryRegionState>,
}

/// Returns a copy of the regions.
pub(crate) fn copy_regions(regions: &Vec<GuestMemoryRegionState>) -> (copy: Vec<
    GuestMemoryRegionState,
>)
    ensures
        copy@ == regions@,
{
    let mut copy: Vec<GuestMemoryRegionState> = Vec::new();
    let mut i: usize = 0;
    while i < regions.len()
        invariant
            0 <= i <= regions@.len(),
            copy@ == regions@.take(i as int),
        decreases regions@.len() - i,
    {
        copy.push(regions[i]);
        assert(regions@.take(i + 1) =~= regions@.take(i as int).push(regions@[i as int]));
        i = i + 1;
    }
    assert(regions@.take(i as int) =~= regions@);
    copy
}

/// State of the VM: its memory, and the rest in the encoding of its owner.
#[derive(Debug, PartialEq, Eq, Default)]
pub struct VmState {
    /// The guest memory.
    pub memory: GuestMemoryState,
    /// The encoded rest.
    pub data: Vec<u8>,
}

/// State of one virtual CPU.
#[derive(Debug, PartialEq, Eq, Default)]
pub struct VcpuState {
    /// The vendor ID that the CPUID leaves hold, where they hold one.
    pub vendor_id: Option<[u8; 12]>,
    /// The manufacturer ID that the registers hold, where they hold one.
    pub manufacturer_id: Option<u64>,
    /// The encoded rest.
    pub data: Vec<u8>,
}

/// State of a network device.
#[derive(Debug, PartialEq, Eq, Default)]
pub struct NetState {
    /// The interface ID.
    pub id: String,
    /// The name of the tap interface on the host.
    pub tap_if_name: String,
}

/// A network device as it is connected.
#[derive(Debug, PartialEq, Eq, Default)]
pub struct ConnectedNetState {
    /// The state of the device.
    pub device_state: NetState,
}

/// States of the devices of a microVM.
#[derive(Debug, PartialEq, Eq, Default)]
pub struct DeviceStates {
    /// The network devices.
    pub net_devices: Vec<ConnectedNetState>,
    /// The encoded other devices.
    pub data: Vec<u8>,
}

/// State of the ACPI devices, in the encoding of its owner.
#[derive(Debug, PartialEq, Eq, Default)]
pub struct ACPIDeviceManagerState {
    /// The encoded state.
    pub data: Vec<u8>,
}

/// Contains the necessary state for saving and restoring a microVM.
#[derive(Debug, PartialEq, Eq, Default)]
pub struct MicrovmState {
    /// Miscellaneous VM info.
    pub vm_info: VmInfo,
    /// KVM state.
    pub kvm_state: KvmState,
    /// VM state.
    pub vm_state: VmState,
    /// Vcpu states.
    pub vcpu_states: Vec<VcpuState>,
    /// Device states.
    pub device_states: DeviceStates,
    /// ACPI devices state.
    pub acpi_dev_state: ACPIDeviceManagerState,
}

/// What is kept of the resources of a microVM is what its machine is configured with and what it
/// boots from, field by field.
pub proof fn law_info_is_that_of_the_resources(value: VmResources)
    ensures
        ({
            let info = <VmInfo as vstd::std_specs::convert::FromSpec<&VmResources>>::from_spec(
                &value,
            );
            &&& info.mem_size_mib == value.machine_config.mem_size_mib
            &&& info.smt == value.machine_config.smt
            &&& info.cpu_template == value.machine_config.cpu_template
            &&& info.huge_pages == value.machine_config.huge_pages
            &&& info.boot_source.kernel_image_path == value.boot_source.config.kernel_image_path
            &&& info.boot_source.initrd_path == value.boot_source.config.initrd_path
            &&& info.boot_source.boot_args == value.boot_source.config.boot_args
        }),
{
}

/// A page has 4 KiB, or 2 MiB with huge pages.
pub proof fn law_page_sizes(huge_pages: HugePageConfig)
    ensures
        huge_pages is NoHugePages ==> huge_pages.spec_page_size() == 4 * 1024,
        huge_pages is Hugetlbfs2M ==> huge_pages.spec_page_size() == 2 * 1024 * 1024,
{
}

} // verus!
