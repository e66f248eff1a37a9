use gunyah_vmm::bus::{
    AccessId, BusAccessError, BusAccessInfo, BusDevice, BusDeviceEntry, BusDeviceSync, BusRange,
    DeviceError, Error,
};
use gunyah_vmm::fdt::{checked, checked_node, FdtError};
use gunyah_vmm::hypervisor::DtbConfig;
use gunyah_vmm::interrupt::{GunyahInterrupt, Irqfd};
use gunyah_vmm::memory::{GuestMem, GuestMemoryAccess, GunyahGuestMemoryRegion, ShareType};
use gunyah_vmm::virtual_machine::{ConfigError, GunyahVirtualMachine, PunchError, VmError};
use vm_fdt::FdtWriter;

const BACKING: GuestMem = GuestMem { dev: 1, ino: 42 };

/// Guest memory held in the process, with the description of its mapping.
#[derive(Debug)]
struct Memory {
    region: GunyahGuestMemoryRegion,
    bytes: Vec<u8>,
    seen: Vec<AccessId>,
}

impl Memory {
    fn new(region: GunyahGuestMemoryRegion) -> Self {
        Memory { region, bytes: vec![0; region.region.size], seen: Vec::new() }
    }
}

impl BusDevice for Memory {
    fn debug_label(&self) -> String {
        self.region.debug_label()
    }

    fn read(&mut self, info: BusAccessInfo, data: &mut [u8]) -> Result<(), DeviceError> {
        self.seen.push(info.id);
        match self.region.access_window(info, data.len()) {
            Ok(_) => {
                let start = info.offset as usize;
                data.copy_from_slice(&self.bytes[start..start + data.len()]);
                Ok(())
            }
            Err(e) => Err(DeviceError::Failed(format!("{:?}", e))),
        }
    }

    fn write(&mut self, info: BusAccessInfo, data: &[u8]) -> Result<(), DeviceError> {
        self.seen.push(info.id);
        match self.region.access_window(info, data.len()) {
            Ok(_) => {
                let start = info.offset as usize;
                self.bytes[start..start + data.len()].copy_from_slice(data);
                Ok(())
            }
            Err(e) => Err(DeviceError::Failed(format!("{:?}", e))),
        }
    }

    fn memory_regions(&self) -> Option<Vec<u64>> {
        self.region.memory_regions()
    }

    fn gunyah_vdevice_config(&self, _fdt: &mut FdtWriter) -> Result<(), FdtError> {
        Ok(())
    }

    fn device_config(&self, _fdt: &mut FdtWriter) -> Result<(), FdtError> {
        Ok(())
    }
}

/// A device that writes a node of its own into both device trees.
#[derive(Debug)]
struct Widget {
    name: String,
}

impl BusDevice for Widget {
    fn debug_label(&self) -> String {
        self.name.clone()
    }

    fn read(&mut self, _info: BusAccessInfo, _data: &mut [u8]) -> Result<(), DeviceError> {
        Err(DeviceError::UnhandledRead)
    }

    fn write(&mut self, _info: BusAccessInfo, _data: &[u8]) -> Result<(), DeviceError> {
        Err(DeviceError::UnhandledWrite)
    }

    fn memory_regions(&self) -> Option<Vec<u64>> {
        None
    }

    fn gunyah_vdevice_config(&self, fdt: &mut FdtWriter) -> Result<(), FdtError> {
        let node = checked_node(fdt.begin_node(&format!("{}-vdevice", self.name)))?;
        checked(fdt.property_null("widget"))?;
        checked(fdt.end_node(node))
    }

    fn device_config(&self, fdt: &mut FdtWriter) -> Result<(), FdtError> {
        let node = checked_node(fdt.begin_node(&self.name))?;
        checked(fdt.property_string("compatible", "widget"))?;
        checked(fdt.end_node(node))
    }
}

impl BusDeviceSync for Widget {
    fn read(&self, _info: BusAccessInfo, data: &mut [u8]) -> Result<(), DeviceError> {
        for b in data.iter_mut() {
            *b = 0x77;
        }
        Ok(())
    }

    fn write(&self, _info: BusAccessInfo, _data: &[u8]) -> Result<(), DeviceError> {
        Ok(())
    }
}

type Vm = GunyahVirtualMachine<Memory, Widget>;

fn lent(start: u64, len: usize) -> GunyahGuestMemoryRegion {
    GunyahGuestMemoryRegion::for_memory(BACKING, start, len, ShareType::Lend, GuestMemoryAccess::Rwx).unwrap()
}

fn shared(start: u64, len: usize) -> GunyahGuestMemoryRegion {
    GunyahGuestMemoryRegion::for_memory(BACKING, start, len, ShareType::Share, GuestMemoryAccess::Rw).unwrap()
}

fn add(vm: &mut Vm, region: GunyahGuestMemoryRegion) {
    vm.add_memory_region(Memory::new(region), &region).unwrap();
}

fn ranges(vm: &mut Vm) -> Vec<BusRange> {
    let bus = vm.get_bus(AccessId::VmmUserspace);
    (0..bus.len()).map(|i| bus.range_at(i).unwrap()).collect()
}

#[test]
fn second_vcpu_of_an_id_is_refused() {
    let mut vm = Vm::new();
    assert_eq!(vm.vcpu_count(), 0);
    assert_eq!(vm.create_vcpu(0).map(|v| v.id()), Ok(0));
    assert_eq!(vm.create_vcpu(0), Err(VmError::DuplicateVcpu { id: 0 }));
    assert_eq!(vm.create_vcpu(1).map(|v| v.id()), Ok(1));
    assert_eq!(vm.create_vcpu(7).map(|v| v.id()), Ok(7));
    assert_eq!(vm.create_vcpu(1), Err(VmError::DuplicateVcpu { id: 1 }));
    assert_eq!(vm.create_vcpu(7), Err(VmError::DuplicateVcpu { id: 7 }));
    assert_eq!(vm.vcpu_count(), 3);
}

#[test]
fn monitor_reads_back_what_it_wrote() {
    let mut vm = Vm::new();
    add(&mut vm, shared(0x8_0000, 0x1000));
    vm.write_slice(0x8_0010, &0xa5a5a5a5u32.to_le_bytes()).unwrap();
    let mut back = [0u8; 4];
    vm.read_slice(0x8_0010, &mut back).unwrap();
    assert_eq!(u32::from_le_bytes(back), 0xa5a5a5a5);
    let mut untouched = [0xffu8; 4];
    vm.read_slice(0x8_0014, &mut untouched).unwrap();
    assert_eq!(untouched, [0; 4]);
}

#[test]
fn monitor_accesses_as_itself_and_a_vcpu_as_that_vcpu() {
    let mut vm = Vm::new();
    add(&mut vm, shared(0x8_0000, 0x1000));
    let vcpu = vm.create_vcpu(3).unwrap();
    assert_eq!(vm.get_bus(AccessId::Vcpu(3)).access_id(), AccessId::Vcpu(3));
    let mut buf = [0u8; 4];
    // Guest memory refuses the vCPU on the bus.
    assert!(matches!(
        vm.get_bus(AccessId::Vcpu(vcpu.id() as u8)).read(0x8_0000, &mut buf),
        Err(BusAccessError::Device { .. })
    ));
    assert!(vm.read_slice(0x8_0000, &mut buf).is_ok());
    assert!(vm.write_slice(0x8_0000, &buf).is_ok());
    match vm.get_bus(AccessId::VmmUserspace).get_device(0x8_0000) {
        Some((_, _, BusDeviceEntry::OuterSync(memory))) => {
            assert_eq!(
                memory.seen,
                vec![AccessId::Vcpu(3), AccessId::VmmUserspace, AccessId::VmmUserspace]
            );
        }
        _ => panic!("no memory"),
    }
}

#[test]
fn access_outside_every_window_finds_no_device() {
    let mut vm = Vm::new();
    add(&mut vm, shared(0x8_0000, 0x1000));
    let mut buf = [0u8; 4];
    assert!(matches!(vm.read_slice(0x7_fffc, &mut buf), Err(BusAccessError::NoDevice)));
    assert!(matches!(vm.write_slice(0x8_1000, &buf), Err(BusAccessError::NoDevice)));
    match vm.write_slice(0x8_0ffe, &buf) {
        Err(BusAccessError::Device { label, write, .. }) => {
            assert_eq!(label, "GunyahGuestMemoryRegion@80000");
            assert!(write);
        }
        other => panic!("unexpected {:?}", other),
    }
}

#[test]
fn memory_and_devices_share_the_bus() {
    let mut vm = Vm::new();
    add(&mut vm, lent(0x8000_0000, 0x4000));
    assert_eq!(vm.add_device_sync(Widget { name: "w".to_string() }, 0x3f800, 8), Ok(()));
    assert_eq!(
        vm.add_device(Memory::new(shared(0x8000_2000, 0x1000)), 0x8000_2000, 0x1000),
        Err(Error::Overlap { base: 0x8000_2000, len: 0x1000, other_base: 0x8000_0000, other_len: 0x4000 })
    );
    let clash = shared(0x7fff_f000, 0x2000);
    assert_eq!(
        vm.add_memory_region(Memory::new(clash), &clash),
        Err(Error::Overlap { base: 0x7fff_f000, len: 0x2000, other_base: 0x8000_0000, other_len: 0x4000 })
    );
    assert_eq!(
        ranges(&mut vm),
        vec![BusRange { base: 0x3f800, len: 8 }, BusRange { base: 0x8000_0000, len: 0x4000 }]
    );
    let mut buf = [0u8; 2];
    vm.read_slice(0x3f801, &mut buf).unwrap();
    assert_eq!(buf, [0x77, 0x77]);
}

#[test]
fn release_in_the_middle_puts_two_windows_on_the_bus() {
    let mut vm = Vm::new();
    add(&mut vm, shared(0x1000, 0x1000));
    let mut region = lent(0xa000_0000, 0x4000);
    add(&mut vm, region);
    add(&mut vm, shared(0xb000_0000, 0x1000));
    let parts = region.clone().punch_hole(0x1000, 0x1000, Ok(())).unwrap();
    let devices: Vec<Memory> = parts.iter().map(|p| Memory::new(*p)).collect();
    let left = vm.punch_hole(&mut region, 0x1000, 0x1000, devices).unwrap();
    assert_eq!(left, parts);
    assert!(!region.unmap_on_drop);
    assert_eq!(
        ranges(&mut vm),
        vec![
            BusRange { base: 0x1000, len: 0x1000 },
            BusRange { base: 0xa000_0000, len: 0x1000 },
            BusRange { base: 0xa000_2000, len: 0x2000 },
            BusRange { base: 0xb000_0000, len: 0x1000 },
        ]
    );
    let mut buf = [0u8; 1];
    assert!(vm.read_slice(0xa000_0fff, &mut buf).is_ok());
    assert!(matches!(vm.read_slice(0xa000_1000, &mut buf), Err(BusAccessError::NoDevice)));
    assert!(matches!(vm.read_slice(0xa000_1fff, &mut buf), Err(BusAccessError::NoDevice)));
    assert!(vm.read_slice(0xa000_2000, &mut buf).is_ok());
    assert!(vm.read_slice(0xa000_3fff, &mut buf).is_ok());
    match vm.get_bus(AccessId::VmmUserspace).get_device(0xa000_2010) {
        Some((offset, _, BusDeviceEntry::OuterSync(memory))) => {
            assert_eq!(offset, 0x10);
            assert_eq!(memory.region, parts[1]);
        }
        _ => panic!("no memory"),
    }
}

#[test]
fn release_at_an_edge_puts_one_window_on_the_bus() {
    let mut vm = Vm::new();
    let mut region = lent(0xa000_0000, 0x4000);
    add(&mut vm, region);
    let parts = region.clone().punch_hole(0, 0x1000, Ok(())).unwrap();
    let left = vm.punch_hole(&mut region, 0, 0x1000, vec![Memory::new(parts[0])]).unwrap();
    assert_eq!(left.len(), 1);
    assert_eq!(ranges(&mut vm), vec![BusRange { base: 0xa000_1000, len: 0x3000 }]);

    let mut rest = left[0];
    let parts = rest.clone().punch_hole(0x2000, 0x1000, Ok(())).unwrap();
    let left = vm.punch_hole(&mut rest, 0x2000, 0x1000, vec![Memory::new(parts[0])]).unwrap();
    assert_eq!(left.len(), 1);
    assert_eq!(ranges(&mut vm), vec![BusRange { base: 0xa000_1000, len: 0x2000 }]);
}

#[test]
fn refused_release_changes_nothing() {
    let mut vm = Vm::new();
    let mut region = lent(0xa000_0000, 0x4000);
    add(&mut vm, region);
    let before = region;
    let one = || vec![Memory::new(lent(0, 1))];
    assert_eq!(vm.punch_hole(&mut region, 0, 0, one()), Err(PunchError::BadRange));
    assert_eq!(vm.punch_hole(&mut region, 0x3000, 0x1001, one()), Err(PunchError::BadRange));
    assert_eq!(vm.punch_hole(&mut region, 0x4000, 1, one()), Err(PunchError::BadRange));
    assert_eq!(vm.punch_hole(&mut region, u64::MAX, 1, one()), Err(PunchError::BadRange));
    assert_eq!(vm.punch_hole(&mut region, 0, 0x4000, one()), Err(PunchError::WholeWindow));
    assert_eq!(vm.punch_hole(&mut region, 0x1000, 0x1000, one()), Err(PunchError::DeviceCount));
    assert_eq!(vm.punch_hole(&mut region, 0, 0x1000, Vec::new()), Err(PunchError::DeviceCount));
    let mut other = lent(0xc000_0000, 0x4000);
    assert_eq!(vm.punch_hole(&mut other, 0, 0x1000, one()), Err(PunchError::NotOnBus));
    let mut shorter = lent(0xa000_0000, 0x3000);
    assert_eq!(vm.punch_hole(&mut shorter, 0, 0x1000, one()), Err(PunchError::NotOnBus));
    assert_eq!(region, before);
    assert_eq!(ranges(&mut vm), vec![BusRange { base: 0xa000_0000, len: 0x4000 }]);
}

#[test]
fn device_tree_blob_is_copied_and_its_place_is_told() {
    let mut vm = Vm::new();
    add(&mut vm, shared(0x8000_0000, 0x4000));
    assert_eq!(
        vm.set_dtb_config(0x8000_1000, 0x1000, &[0xd0, 0x0d, 0xfe, 0xed]).unwrap(),
        DtbConfig { guest_phys_addr: 0x8000_1000, size: 0x1000 }
    );
    let mut back = [0u8; 4];
    vm.read_slice(0x8000_1000, &mut back).unwrap();
    assert_eq!(back, [0xd0, 0x0d, 0xfe, 0xed]);
    assert!(matches!(
        vm.set_dtb_config(0x9000_0000, 0x1000, &[1, 2, 3]),
        Err(BusAccessError::NoDevice)
    ));
}

#[test]
fn interrupts_are_kept_in_the_order_in_which_they_are_added() {
    let mut vm = Vm::new();
    add(&mut vm, lent(0x8000_0000, 0x4000));
    assert_eq!(
        vm.add_level_interrupt(5),
        GunyahInterrupt { line: 5, irqfd: Irqfd { label: 5, level: true } }
    );
    assert_eq!(
        vm.add_edge_interrupt(1),
        GunyahInterrupt { line: 1, irqfd: Irqfd { label: 1, level: false } }
    );

    let mut fdt = FdtWriter::new().unwrap();
    let root = fdt.begin_node("").unwrap();
    vm.create_fdt_vm_config(&mut fdt, "linux", 0x8000_0000, Some(0x8800_0000), 1).unwrap();
    fdt.end_node(root).unwrap();
    let actual = fdt.finish().unwrap();

    let mut fdt = FdtWriter::new().unwrap();
    let root = fdt.begin_node("").unwrap();
    write_vm_config(&mut fdt, "linux", 0x8000_0000, Some(0x8800_0000), 1, &[], &[(5, true), (1, false)]);
    fdt.end_node(root).unwrap();
    assert_eq!(actual, fdt.finish().unwrap());
}

fn write_bell(fdt: &mut FdtWriter, line: u32, level: bool) {
    let node = fdt.begin_node(&format!("bell-{:x}", line)).unwrap();
    fdt.property_string("vdevice-type", "doorbell").unwrap();
    fdt.property_string("generate", &format!("/hypervisor/bell-{:x}", line)).unwrap();
    fdt.property_u32("label", line).unwrap();
    fdt.property_null("peer-default").unwrap();
    fdt.property_null("source-can-clean").unwrap();
    fdt.property_array_u32("interrupts", &[0, line, if level { 4 } else { 1 }]).unwrap();
    fdt.end_node(node).unwrap();
}

fn write_vm_config(
    fdt: &mut FdtWriter,
    os_type: &str,
    base_address: u64,
    firmware_address: Option<u64>,
    intc_phandle: u32,
    widgets: &[&str],
    bells: &[(u32, bool)],
) {
    let vm_config = fdt.begin_node("gunyah-vm-config").unwrap();
    fdt.property_string("image-name", "gunyah-vmm-vm").unwrap();
    fdt.property_string("os-type", os_type).unwrap();
    let memory = fdt.begin_node("memory").unwrap();
    fdt.property_u32("#address-cells", 2).unwrap();
    fdt.property_u32("#size-cells", 2).unwrap();
    fdt.property_u64("base-address", base_address).unwrap();
    if let Some(addr) = firmware_address {
        fdt.property_u64("firmware-address", addr).unwrap();
    }
    fdt.end_node(memory).unwrap();
    let interrupts = fdt.begin_node("interrupts").unwrap();
    fdt.property_u32("config", intc_phandle).unwrap();
    fdt.end_node(interrupts).unwrap();
    let vcpus = fdt.begin_node("vcpus").unwrap();
    fdt.property_string("affinity", "proxy").unwrap();
    fdt.end_node(vcpus).unwrap();
    let vdevices = fdt.begin_node("vdevices").unwrap();
    fdt.property_string("generate", "/hypervisor").unwrap();
    for name in widgets {
        let node = fdt.begin_node(&format!("{}-vdevice", name)).unwrap();
        fdt.property_null("widget").unwrap();
        fdt.end_node(node).unwrap();
    }
    for (line, level) in bells {
        write_bell(fdt, *line, *level);
    }
    fdt.end_node(vdevices).unwrap();
    fdt.end_node(vm_config).unwrap();
}

fn write_basic_config(
    fdt: &mut FdtWriter,
    mem_reg: &[u64],
    cpus: &[u32],
    gic: &[u64; 4],
    timers: &[u32; 4],
    widgets: &[&str],
    bells: &[(u32, bool)],
) {
    fdt.property_u32("#address-cells", 2).unwrap();
    fdt.property_u32("#size-cells", 2).unwrap();
    fdt.property_u32("interrupt-parent", 1).unwrap();
    let memory = fdt.begin_node("memory").unwrap();
    fdt.property_string("device_type", "memory").unwrap();
    fdt.property_array_u64("reg", mem_reg).unwrap();
    fdt.end_node(memory).unwrap();
    let cpus_node = fdt.begin_node("cpus").unwrap();
    fdt.property_u32("#address-cells", 1).unwrap();
    fdt.property_u32("#size-cells", 0).unwrap();
    for id in cpus {
        let cpu = fdt.begin_node(&format!("cpu@{:x}", id)).unwrap();
        fdt.property_string("device_type", "cpu").unwrap();
        fdt.property_string("compatible", "arm,arm-v8").unwrap();
        fdt.property_string("enable-method", "psci").unwrap();
        fdt.property_u32("reg", *id).unwrap();
        fdt.property_null("cpu-idle-states").unwrap();
        fdt.end_node(cpu).unwrap();
    }
    fdt.end_node(cpus_node).unwrap();
    let psci = fdt.begin_node("psci").unwrap();
    fdt.property_string("compatible", "arm,psci-0.2").unwrap();
    fdt.property_string("method", "hvc").unwrap();
    fdt.end_node(psci).unwrap();
    let intc = fdt.begin_node(&format!("interrupt-controller@{:x}", gic[0])).unwrap();
    fdt.property_string("compatible", "arm,gic-v3").unwrap();
    fdt.property_u32("#interrupt-cells", 3).unwrap();
    fdt.property_u32("#address-cells", 2).unwrap();
    fdt.property_u32("#size-cells", 2).unwrap();
    fdt.property_null("interrupt-controller").unwrap();
    fdt.property_array_u64("reg", gic).unwrap();
    fdt.property_u32("phandle", 1).unwrap();
    fdt.end_node(intc).unwrap();
    let timer = fdt.begin_node("timer").unwrap();
    fdt.property_string("compatible", "arm,armv8-timer").unwrap();
    fdt.property_null("always-on").unwrap();
    fdt.property_array_u32(
        "interrupts",
        &[1, timers[0], 0x108, 1, timers[1], 0x108, 1, timers[2], 0x108, 1, timers[3], 0x108],
    )
    .unwrap();
    fdt.property_u32("clock-frequency", 19200000).unwrap();
    fdt.end_node(timer).unwrap();
    for name in widgets {
        let node = fdt.begin_node(name).unwrap();
        fdt.property_string("compatible", "widget").unwrap();
        fdt.end_node(node).unwrap();
    }
    write_vm_config(fdt, "linux", mem_reg[0], None, 1, widgets, bells);
}

#[test]
fn basic_device_tree_of_a_guest() {
    let mut vm = Vm::new();
    add(&mut vm, lent(0x9000_0000, 0x2000));
    add(&mut vm, lent(0x8000_0000, 0x4000));
    add(&mut vm, shared(0x8_0000, 0x1000));
    vm.add_device_sync(Widget { name: "gadget".to_string() }, 0x5000, 8).unwrap();
    vm.add_device_sync(Widget { name: "gizmo".to_string() }, 0x4000, 8).unwrap();
    vm.create_vcpu(0).unwrap();
    vm.create_vcpu(1).unwrap();
    vm.create_vcpu(0x1f).unwrap();
    vm.add_edge_interrupt(0x21);
    let gic = [0x3FFF0000, 0x10000, 0x3FF00000, 0x20000];
    let timers = [13, 14, 11, 10];

    let mut fdt = FdtWriter::new().unwrap();
    let root = fdt.begin_node("").unwrap();
    vm.create_fdt_basic_config(&mut fdt, &gic, &timers).unwrap();
    fdt.end_node(root).unwrap();
    let actual = fdt.finish().unwrap();

    let mut fdt = FdtWriter::new().unwrap();
    let root = fdt.begin_node("").unwrap();
    write_basic_config(
        &mut fdt,
        &[0x8000_0000, 0x4000, 0x9000_0000, 0x2000],
        &[0, 1, 0x1f],
        &gic,
        &timers,
        &["gizmo", "gadget"],
        &[(0x21, false)],
    );
    fdt.end_node(root).unwrap();
    assert_eq!(actual, fdt.finish().unwrap());
}

#[test]
fn device_tree_needs_ordinary_memory() {
    let mut vm = Vm::new();
    add(&mut vm, shared(0x8_0000, 0x1000));
    vm.create_vcpu(0).unwrap();
    let mut fdt = FdtWriter::new().unwrap();
    let _root = fdt.begin_node("").unwrap();
    assert_eq!(
        vm.create_fdt_basic_config(&mut fdt, &[1, 2, 3, 4], &[13, 14, 11, 10]),
        Err(ConfigError::NoMemory)
    );
}

#[test]
fn device_tree_fails_where_the_writer_refuses() {
    let mut vm = Vm::new();
    add(&mut vm, lent(0x8000_0000, 0x4000));
    // No node is open yet, so no property can be written.
    let mut fdt = FdtWriter::new().unwrap();
    assert_eq!(
        vm.create_fdt_basic_config(&mut fdt, &[1, 2, 3, 4], &[13, 14, 11, 10]),
        Err(ConfigError::Fdt(FdtError::PropertyBeforeBeginNode))
    );
    let mut fdt = FdtWriter::new().unwrap();
    let _root = fdt.begin_node("").unwrap();
    assert_eq!(
        vm.create_fdt_vm_config(&mut fdt, "no\0type", 0, None, 1),
        Err(FdtError::InvalidString)
    );
}
