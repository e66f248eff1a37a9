use gunyah_vmm::bus::{
    AccessId, Bus, BusAccessError, BusAccessInfo, BusDevice, BusDeviceEntry, BusDeviceSync, BusRange,
    DeviceError, Error,
};
use gunyah_vmm::fdt::{checked, checked_node, FdtError};
use vm_fdt::FdtWriter;

/// A memory of a fixed size that remembers the last access it saw.
#[derive(Debug)]
struct Ram {
    name: String,
    bytes: Vec<u8>,
    last: Option<BusAccessInfo>,
    regions: Option<Vec<u64>>,
}

impl Ram {
    fn new(name: &str, size: usize) -> Self {
        Ram { name: name.to_string(), bytes: vec![0; size], last: None, regions: None }
    }

    fn with_regions(name: &str, size: usize, regions: Vec<u64>) -> Self {
        Ram { name: name.to_string(), bytes: vec![0; size], last: None, regions: Some(regions) }
    }
}

impl BusDevice for Ram {
    fn debug_label(&self) -> String {
        self.name.clone()
    }

    fn read(&mut self, info: BusAccessInfo, data: &mut [u8]) -> Result<(), DeviceError> {
        self.last = Some(info);
        let start = info.offset as usize;
        if start + data.len() > self.bytes.len() {
            return Err(DeviceError::Failed("past the end".to_string()));
        }
        data.copy_from_slice(&self.bytes[start..start + data.len()]);
        Ok(())
    }

    fn write(&mut self, info: BusAccessInfo, data: &[u8]) -> Result<(), DeviceError> {
        self.last = Some(info);
        let start = info.offset as usize;
        if start + data.len() > self.bytes.len() {
            return Err(DeviceError::Failed("past the end".to_string()));
        }
        self.bytes[start..start + data.len()].copy_from_slice(data);
        Ok(())
    }

    fn memory_regions(&self) -> Option<Vec<u64>> {
        self.regions.clone()
    }

    fn gunyah_vdevice_config(&self, fdt: &mut FdtWriter) -> Result<(), FdtError> {
        checked(fdt.property_string("vdevice", &self.name))
    }

    fn device_config(&self, fdt: &mut FdtWriter) -> Result<(), FdtError> {
        let node = checked_node(fdt.begin_node(&self.name))?;
        checked(fdt.property_u32("size", self.bytes.len() as u32))?;
        checked(fdt.end_node(node))
    }
}

/// A device that synchronises itself and answers every read with one byte.
#[derive(Debug)]
struct Constant {
    value: u8,
}

impl BusDevice for Constant {
    fn debug_label(&self) -> String {
        "constant".to_string()
    }

    fn read(&mut self, _info: BusAccessInfo, _data: &mut [u8]) -> Result<(), DeviceError> {
        Err(DeviceError::UnhandledRead)
    }

    fn write(&mut self, _info: BusAccessInfo, _data: &[u8]) -> Result<(), DeviceError> {
        Err(DeviceError::UnhandledWrite)
    }

    fn memory_regions(&self) -> Option<Vec<u64>> {
        None
    }

    fn gunyah_vdevice_config(&self, _fdt: &mut FdtWriter) -> Result<(), FdtError> {
        Ok(())
    }

    fn device_config(&self, _fdt: &mut FdtWriter) -> Result<(), FdtError> {
        Ok(())
    }
}

impl BusDeviceSync for Constant {
    fn read(&self, _info: BusAccessInfo, data: &mut [u8]) -> Result<(), DeviceError> {
        for b in data.iter_mut() {
            *b = self.value;
        }
        Ok(())
    }

    fn write(&self, _info: BusAccessInfo, _data: &[u8]) -> Result<(), DeviceError> {
        Err(DeviceError::UnhandledWrite)
    }
}

fn ram_at(bus: &Bus<Ram, Constant>, addr: u64) -> &Ram {
    match bus.get_device(addr) {
        Some((_, _, BusDeviceEntry::OuterSync(ram))) => ram,
        _ => panic!("no memory at {:#x}", addr),
    }
}

#[test]
fn range_contains_its_addresses_only() {
    let range = BusRange { base: 0x1000, len: 0x400 };
    assert!(range.contains(0x1000));
    assert!(range.contains(0x13ff));
    assert!(!range.contains(0x1400));
    assert!(!range.contains(0xfff));
}

#[test]
fn range_contains_the_last_address() {
    let range = BusRange { base: u64::MAX - 1, len: 2 };
    assert!(range.contains(u64::MAX - 1));
    assert!(range.contains(u64::MAX));
    assert!(!range.contains(u64::MAX - 2));
}

#[test]
fn range_overlaps_what_intersects_it() {
    let range = BusRange { base: 0x1000, len: 0x400 };
    assert!(range.overlaps(0x1000, 0x400));
    assert!(range.overlaps(0x0, 0x1001));
    assert!(range.overlaps(0x13ff, 1));
    assert!(range.overlaps(0x800, 0x1000));
    assert!(!range.overlaps(0x0, 0x1000));
    assert!(!range.overlaps(0x1400, 0x10));
}

#[test]
fn range_overlap_at_the_end_of_the_address_space() {
    let range = BusRange { base: u64::MAX - 1, len: 2 };
    assert!(range.overlaps(u64::MAX, 1));
    assert!(range.overlaps(0, u64::MAX));
    assert!(!range.overlaps(0, u64::MAX - 1));
}

#[test]
fn new_bus_is_empty() {
    let mut bus: Bus<Ram, Constant> = Bus::new();
    assert_eq!(bus.len(), 0);
    assert_eq!(bus.access_id(), AccessId::VmmUserspace);
    assert!(bus.get_device(0).is_none());
    let mut buf = [0u8; 4];
    assert!(matches!(bus.read(0x10, &mut buf), Err(BusAccessError::NoDevice)));
    assert!(matches!(bus.write(0x10, &buf), Err(BusAccessError::NoDevice)));
}

#[test]
fn insert_rejects_empty_range() {
    let mut bus: Bus<Ram, Constant> = Bus::new();
    assert_eq!(
        bus.insert(Ram::new("a", 16), 0x1000, 0),
        Err(Error::Overlap { base: 0x1000, len: 0, other_base: 0, other_len: 0 })
    );
    assert_eq!(bus.len(), 0);
}

#[test]
fn insert_keeps_entries_in_order_of_base() {
    let mut bus: Bus<Ram, Constant> = Bus::new();
    assert_eq!(bus.insert(Ram::new("b", 16), 0x2000, 0x10), Ok(()));
    assert_eq!(bus.insert(Ram::new("a", 16), 0x1000, 0x10), Ok(()));
    assert_eq!(bus.insert_sync(Constant { value: 7 }, 0x1800, 0x10), Ok(()));
    assert_eq!(bus.len(), 3);
    assert_eq!(bus.range_at(0), Some(BusRange { base: 0x1000, len: 0x10 }));
    assert_eq!(bus.range_at(1), Some(BusRange { base: 0x1800, len: 0x10 }));
    assert_eq!(bus.range_at(2), Some(BusRange { base: 0x2000, len: 0x10 }));
    assert_eq!(bus.range_at(3), None);
}

#[test]
fn every_address_of_a_range_reaches_its_device() {
    let mut bus: Bus<Ram, Constant> = Bus::new();
    bus.insert(Ram::new("low", 0x100), 0x1000, 0x100).unwrap();
    bus.insert(Ram::new("high", 0x100), 0x1100, 0x100).unwrap();
    for addr in [0x1000u64, 0x1001, 0x10ff] {
        let (offset, address, _) = bus.get_device(addr).unwrap();
        assert_eq!(offset, addr - 0x1000);
        assert_eq!(address, addr);
        assert_eq!(ram_at(&bus, addr).name, "low");
    }
    for addr in [0x1100u64, 0x11ff] {
        let (offset, _, _) = bus.get_device(addr).unwrap();
        assert_eq!(offset, addr - 0x1100);
        assert_eq!(ram_at(&bus, addr).name, "high");
    }
    for addr in [0u64, 0xfff, 0x1200, u64::MAX] {
        assert!(bus.get_device(addr).is_none());
        let mut buf = [0u8; 1];
        assert!(matches!(bus.read(addr, &mut buf), Err(BusAccessError::NoDevice)));
        assert!(matches!(bus.write(addr, &buf), Err(BusAccessError::NoDevice)));
    }
}

#[test]
fn access_carries_offset_address_and_identity() {
    let mut bus: Bus<Ram, Constant> = Bus::new();
    bus.insert(Ram::new("ram", 0x100), 0x6000, 0x100).unwrap();
    bus.set_access_id(AccessId::Vcpu(3));
    bus.write(0x6008, &[1, 2, 3, 4]).unwrap();
    assert_eq!(
        ram_at(&bus, 0x6000).last,
        Some(BusAccessInfo { offset: 8, address: 0x6008, id: AccessId::Vcpu(3) })
    );
    bus.set_access_id(AccessId::VmmUserspace);
    let mut buf = [0u8; 2];
    bus.read(0x60ff, &mut buf[..1]).unwrap();
    assert_eq!(
        ram_at(&bus, 0x6000).last,
        Some(BusAccessInfo { offset: 0xff, address: 0x60ff, id: AccessId::VmmUserspace })
    );
}

#[test]
fn overlapping_insert_fails_and_changes_nothing() {
    let mut bus: Bus<Ram, Constant> = Bus::new();
    bus.insert(Ram::new("first", 0x100), 0x1000, 0x100).unwrap();
    bus.insert(Ram::new("second", 0x100), 0x3000, 0x100).unwrap();
    bus.write(0x1010, &[0xaa]).unwrap();
    assert_eq!(
        bus.insert(Ram::new("clash", 0x100), 0x10ff, 0x10),
        Err(Error::Overlap { base: 0x10ff, len: 0x10, other_base: 0x1000, other_len: 0x100 })
    );
    assert_eq!(
        bus.insert_sync(Constant { value: 1 }, 0x0, 0x4000),
        Err(Error::Overlap { base: 0x0, len: 0x4000, other_base: 0x1000, other_len: 0x100 })
    );
    assert_eq!(
        bus.insert(Ram::new("same", 0x100), 0x3000, 0x100),
        Err(Error::Overlap { base: 0x3000, len: 0x100, other_base: 0x3000, other_len: 0x100 })
    );
    assert_eq!(bus.len(), 2);
    assert_eq!(ram_at(&bus, 0x1010).name, "first");
    let mut buf = [0u8; 1];
    bus.read(0x1010, &mut buf).unwrap();
    assert_eq!(buf, [0xaa]);
}

#[test]
fn adjacent_ranges_do_not_overlap() {
    let mut bus: Bus<Ram, Constant> = Bus::new();
    assert_eq!(bus.insert(Ram::new("a", 0x100), 0x1000, 0x100), Ok(()));
    assert_eq!(bus.insert(Ram::new("b", 0x100), 0x1100, 0x100), Ok(()));
    assert_eq!(bus.insert(Ram::new("c", 0x100), 0xf00, 0x100), Ok(()));
    assert_eq!(bus.len(), 3);
}

#[test]
fn ranges_at_the_end_of_the_address_space() {
    let mut bus: Bus<Ram, Constant> = Bus::new();
    assert_eq!(bus.insert(Ram::new("top", 2), u64::MAX - 1, 2), Ok(()));
    assert_eq!(
        bus.insert(Ram::new("last", 1), u64::MAX, 1),
        Err(Error::Overlap { base: u64::MAX, len: 1, other_base: u64::MAX - 1, other_len: 2 })
    );
    let (offset, _, _) = bus.get_device(u64::MAX).unwrap();
    assert_eq!(offset, 1);
}

#[test]
fn remove_needs_the_exact_range() {
    let mut bus: Bus<Ram, Constant> = Bus::new();
    bus.insert(Ram::new("a", 0x100), 0x1000, 0x100).unwrap();
    bus.insert(Ram::new("b", 0x100), 0x2000, 0x100).unwrap();
    assert_eq!(bus.remove(0x1000, 0x80), Err(Error::Empty));
    assert_eq!(bus.remove(0x1001, 0x100), Err(Error::Empty));
    assert_eq!(bus.remove(0x1000, 0), Err(Error::Empty));
    assert_eq!(bus.remove(0x5000, 0x100), Err(Error::Empty));
    assert_eq!(bus.len(), 2);
    assert!(bus.contains_range(0x1000, 0x100));
    assert!(!bus.contains_range(0x1000, 0x80));
    assert_eq!(bus.remove(0x1000, 0x100), Ok(()));
    assert_eq!(bus.len(), 1);
    assert!(bus.get_device(0x1000).is_none());
    assert_eq!(ram_at(&bus, 0x2000).name, "b");
    assert_eq!(bus.remove(0x1000, 0x100), Err(Error::Empty));
    assert!(!bus.contains_range(0x1000, 0x100));
}

#[test]
fn removed_range_can_be_inserted_again() {
    let mut bus: Bus<Ram, Constant> = Bus::new();
    bus.insert(Ram::new("a", 0x100), 0x1000, 0x100).unwrap();
    bus.remove(0x1000, 0x100).unwrap();
    assert_eq!(bus.insert(Ram::new("again", 0x80), 0x1000, 0x80), Ok(()));
    assert_eq!(ram_at(&bus, 0x107f).name, "again");
    assert!(bus.get_device(0x1080).is_none());
}

#[test]
fn write_then_read_returns_what_was_written() {
    let mut bus: Bus<Ram, Constant> = Bus::new();
    bus.insert(Ram::new("ram", 0x1000), 0x8000_0000, 0x1000).unwrap();
    let data: Vec<u8> = (0..=255u8).collect();
    bus.write(0x8000_0100, &data).unwrap();
    let mut back = vec![0u8; data.len()];
    bus.read(0x8000_0100, &mut back).unwrap();
    assert_eq!(back, data);
    let mut whole = vec![0u8; 0x1000];
    bus.write(0x8000_0000, &vec![0x5a; 0x1000]).unwrap();
    bus.read(0x8000_0000, &mut whole).unwrap();
    assert_eq!(whole, vec![0x5a; 0x1000]);
}

#[test]
fn device_failure_is_wrapped_with_its_label() {
    let mut bus: Bus<Ram, Constant> = Bus::new();
    bus.insert(Ram::new("small", 4), 0x1000, 0x100).unwrap();
    bus.insert_sync(Constant { value: 9 }, 0x2000, 0x10).unwrap();
    let mut buf = [0xffu8; 8];
    match bus.read(0x1000, &mut buf) {
        Err(BusAccessError::Device { label, write, error }) => {
            assert_eq!(label, "small");
            assert!(!write);
            assert!(matches!(error, DeviceError::Failed(_)));
        }
        other => panic!("unexpected {:?}", other),
    }
    assert_eq!(buf, [0xff; 8]);
    match bus.write(0x1002, &buf) {
        Err(BusAccessError::Device { label, write, .. }) => {
            assert_eq!(label, "small");
            assert!(write);
        }
        other => panic!("unexpected {:?}", other),
    }
    match bus.write(0x2000, &buf) {
        Err(BusAccessError::Device { label, write, error }) => {
            assert_eq!(label, "constant");
            assert!(write);
            assert!(matches!(error, DeviceError::UnhandledWrite));
        }
        other => panic!("unexpected {:?}", other),
    }
}

#[test]
fn self_synchronised_device_is_called_through_its_own_handlers() {
    let mut bus: Bus<Ram, Constant> = Bus::new();
    bus.insert_sync(Constant { value: 0x42 }, 0x2000, 0x10).unwrap();
    let mut buf = [0u8; 4];
    assert!(bus.read(0x2004, &mut buf).is_ok());
    assert_eq!(buf, [0x42; 4]);
    assert!(matches!(bus.get_device(0x2004), Some((4, 0x2004, BusDeviceEntry::InnerSync(_)))));
}

#[test]
fn memory_regions_come_in_order_of_base() {
    let mut bus: Bus<Ram, Constant> = Bus::new();
    bus.insert(Ram::with_regions("high", 16, vec![0x9000_0000, 0x1000]), 0x9000_0000, 0x1000).unwrap();
    bus.insert(Ram::new("device", 16), 0x1000, 0x10).unwrap();
    bus.insert_sync(Constant { value: 0 }, 0x2000, 0x10).unwrap();
    bus.insert(Ram::with_regions("low", 16, vec![0x8000_0000, 0x4000]), 0x8000_0000, 0x4000).unwrap();
    assert_eq!(bus.list_memory_regions(), vec![0x8000_0000, 0x4000, 0x9000_0000, 0x1000]);
    let empty: Bus<Ram, Constant> = Bus::new();
    assert_eq!(empty.list_memory_regions(), Vec::<u64>::new());
}

#[test]
fn device_configs_are_written_in_order_of_base() {
    let mut bus: Bus<Ram, Constant> = Bus::new();
    bus.insert(Ram::new("second", 32), 0x2000, 0x10).unwrap();
    bus.insert(Ram::new("first", 16), 0x1000, 0x10).unwrap();
    bus.insert_sync(Constant { value: 0 }, 0x1800, 0x10).unwrap();

    let mut fdt = FdtWriter::new().unwrap();
    let root = fdt.begin_node("").unwrap();
    bus.generate_gunyah_vdevice_config(&mut fdt).unwrap();
    bus.generate_device_config(&mut fdt).unwrap();
    fdt.end_node(root).unwrap();
    let actual = fdt.finish().unwrap();

    let mut fdt = FdtWriter::new().unwrap();
    let root = fdt.begin_node("").unwrap();
    fdt.property_string("vdevice", "first").unwrap();
    fdt.property_string("vdevice", "second").unwrap();
    let node = fdt.begin_node("first").unwrap();
    fdt.property_u32("size", 16).unwrap();
    fdt.end_node(node).unwrap();
    let node = fdt.begin_node("second").unwrap();
    fdt.property_u32("size", 32).unwrap();
    fdt.end_node(node).unwrap();
    fdt.end_node(root).unwrap();
    let expected = fdt.finish().unwrap();
    assert_eq!(actual, expected);
}

#[test]
fn device_config_stops_at_the_first_failure() {
    let mut bus: Bus<Ram, Constant> = Bus::new();
    bus.insert(Ram::new("bad name!", 16), 0x1000, 0x10).unwrap();
    bus.insert(Ram::new("good", 16), 0x2000, 0x10).unwrap();
    let mut fdt = FdtWriter::new().unwrap();
    let _root = fdt.begin_node("").unwrap();
    assert_eq!(bus.generate_device_config(&mut fdt), Err(FdtError::InvalidNodeName));
}

#[test]
fn ranges_are_ordered_by_base() {
    let low = BusRange { base: 0x1000, len: 0x100 };
    let high = BusRange { base: 0x2000, len: 0x10 };
    assert!(low < high);
    assert!(BusRange { base: 0x1000, len: 0x10 } < low);
    assert_eq!(low, BusRange { base: 0x1000, len: 0x100 });
    assert_ne!(low, BusRange { base: 0x1000, len: 0x10 });
    let mut ranges = vec![high, low];
    ranges.sort();
    assert_eq!(ranges, vec![low, high]);
}

#[test]
fn errors_in_words() {
    assert_eq!(Error::Empty.to_string(), "Bus Range not found");
    assert_eq!(
        Error::Overlap { base: 0x1000, len: 16, other_base: 4095, other_len: 2 }.to_string(),
        "new device 4096,16 overlaps with an old device 4095,2"
    );
    assert_eq!(
        Error::Overlap { base: 0, len: 0, other_base: 0, other_len: 0 }.to_string(),
        "new device 0,0 overlaps with an old device 0,0"
    );
    assert_eq!(
        Error::Overlap { base: u64::MAX, len: 1, other_base: 10, other_len: 100 }.to_string(),
        "new device 18446744073709551615,1 overlaps with an old device 10,100"
    );
    assert_eq!(BusAccessError::NoDevice.to_string(), "No device suitable");
    assert_eq!(
        BusAccessError::Device { label: "ram".to_string(), write: false, error: DeviceError::UnhandledRead }
            .to_string(),
        "ram failed to handle read"
    );
    assert_eq!(
        BusAccessError::Device { label: "ram".to_string(), write: true, error: DeviceError::UnhandledWrite }
            .to_string(),
        "ram failed to handle write"
    );
    assert_eq!(DeviceError::UnhandledRead.to_string(), "Unhandled read");
    assert_eq!(DeviceError::UnhandledWrite.to_string(), "Unhandled write");
    assert_eq!(DeviceError::Failed("out of paper".to_string()).to_string(), "out of paper");
}

#[test]
fn range_is_shown_in_hexadecimal() {
    assert_eq!(BusRange { base: 0x1000, len: 0x100 }.to_string(), "0x1000..+0x100");
    assert_eq!(BusRange { base: 0, len: 0 }.to_string(), "0x0..+0x0");
    assert_eq!(
        BusRange { base: u64::MAX, len: 1 }.to_string(),
        format!("{:#x}..+{:#x}", u64::MAX, 1)
    );
}

#[test]
fn default_bus_is_a_new_bus() {
    let bus: Bus<Ram, Constant> = Bus::default();
    assert_eq!(bus.len(), 0);
    assert_eq!(bus.access_id(), AccessId::VmmUserspace);
}

#[test]
fn bus_without_devices_writes_nothing_and_succeeds() {
    let bus: Bus<Ram, Constant> = Bus::new();
    let mut fdt = FdtWriter::new().unwrap();
    // Neither call needs an open node, since no device writes.
    assert_eq!(bus.generate_gunyah_vdevice_config(&mut fdt), Ok(()));
    assert_eq!(bus.generate_device_config(&mut fdt), Ok(()));
    let root = fdt.begin_node("").unwrap();
    assert_eq!(bus.generate_gunyah_vdevice_config(&mut fdt), Ok(()));
    assert_eq!(bus.generate_device_config(&mut fdt), Ok(()));
    fdt.end_node(root).unwrap();
    let mut plain = FdtWriter::new().unwrap();
    let root = plain.begin_node("").unwrap();
    plain.end_node(root).unwrap();
    assert_eq!(fdt.finish().unwrap(), plain.finish().unwrap());
}

#[test]
fn devices_after_one_that_fails_are_not_called() {
    let mut bus: Bus<Ram, Constant> = Bus::new();
    bus.insert(Ram::new("first", 16), 0x1000, 0x10).unwrap();
    bus.insert(Ram::new("bad name!", 16), 0x2000, 0x10).unwrap();
    bus.insert(Ram::new("third", 16), 0x3000, 0x10).unwrap();
    let mut fdt = FdtWriter::new().unwrap();
    let root = fdt.begin_node("").unwrap();
    assert_eq!(bus.generate_device_config(&mut fdt), Err(FdtError::InvalidNodeName));
    fdt.end_node(root).unwrap();
    // The first device has written its node, the third has not.
    let mut expected = FdtWriter::new().unwrap();
    let root = expected.begin_node("").unwrap();
    let node = expected.begin_node("first").unwrap();
    expected.property_u32("size", 16).unwrap();
    expected.end_node(node).unwrap();
    expected.end_node(root).unwrap();
    assert_eq!(fdt.finish().unwrap(), expected.finish().unwrap());
}
