use gunyah_vmm::bus::{AccessId, BusAccessInfo};
use gunyah_vmm::fdt::FdtError;
use gunyah_vmm::hypervisor::{
    create_guest_memory, create_guest_memory_with_cloexec, gunyah_vm_boot_context_reg_id, set_boot_pc,
    set_boot_sp, BootContext, CreateMemArgs, IoeventfdFunction, IrqfdFunction, VcpuFunction, VmFunction,
};
use gunyah_vmm::interrupt::{GunyahInterrupt, Ioeventfd, IoeventfdArg, Irqfd, IrqfdArg};
use gunyah_vmm::serial::{SerialDevice, SerialError, SERIAL_MMIO_SIZE};
use vm_fdt::FdtWriter;

#[test]
fn doorbell_is_registered_with_its_label_and_trigger() {
    let edge = Irqfd::new(7, false);
    assert_eq!(edge.label(), 7);
    assert!(!edge.level());
    assert_eq!(edge.function_arg(12), IrqfdArg { fd: 12, label: 7, flags: 0, padding: 0 });
    let level = Irqfd::new(0, true);
    assert!(level.level());
    assert_eq!(level.function_arg(3), IrqfdArg { fd: 3, label: 0, flags: 1, padding: 0 });
}

#[test]
fn trigger_fails_where_nothing_was_written() {
    assert!(!Irqfd::trigger_failed(8));
    assert!(!Irqfd::trigger_failed(1));
    assert!(Irqfd::trigger_failed(0));
    assert!(Irqfd::trigger_failed(-1));
}

#[test]
fn event_is_registered_with_or_without_a_value_to_match() {
    assert_eq!(
        Ioeventfd::new(0x8000, 4, None).function_arg(5),
        IoeventfdArg { datamatch: 0, addr: 0x8000, len: 4, fd: 5, flags: 0, padding: 0 }
    );
    assert_eq!(
        Ioeventfd::new(0x8008, 8, Some(0x1)).function_arg(6),
        IoeventfdArg { datamatch: 1, addr: 0x8008, len: 8, fd: 6, flags: 1, padding: 0 }
    );
    assert_eq!(
        Ioeventfd::new(0x8008, 8, Some(0)).function_arg(6),
        IoeventfdArg { datamatch: 0, addr: 0x8008, len: 8, fd: 6, flags: 1, padding: 0 }
    );
}

#[test]
fn interrupt_cells_in_a_device_tree() {
    assert_eq!(GunyahInterrupt::new_level(33).fdt_config(), [0, 33, 4]);
    assert_eq!(GunyahInterrupt::new_edge(1).fdt_config(), [0, 1, 1]);
    assert_eq!(GunyahInterrupt::new_edge(1).line(), 1);
    assert_eq!(GunyahInterrupt::new_level(9).irqfd, Irqfd { label: 9, level: true });
}

#[test]
fn doorbell_node_for_the_hypervisor() {
    let mut fdt = FdtWriter::new().unwrap();
    let root = fdt.begin_node("").unwrap();
    GunyahInterrupt::new_level(0x2a).generate_vdevice(&mut fdt).unwrap();
    GunyahInterrupt::new_edge(0).generate_vdevice(&mut fdt).unwrap();
    fdt.end_node(root).unwrap();
    let actual = fdt.finish().unwrap();

    let mut fdt = FdtWriter::new().unwrap();
    let root = fdt.begin_node("").unwrap();
    for (line, trigger) in [(0x2au32, 4u32), (0, 1)] {
        let node = fdt.begin_node(&format!("bell-{:x}", line)).unwrap();
        fdt.property_string("vdevice-type", "doorbell").unwrap();
        fdt.property_string("generate", &format!("/hypervisor/bell-{:x}", line)).unwrap();
        fdt.property_u32("label", line).unwrap();
        fdt.property_null("peer-default").unwrap();
        fdt.property_null("source-can-clean").unwrap();
        fdt.property_array_u32("interrupts", &[0, line, trigger]).unwrap();
        fdt.end_node(node).unwrap();
    }
    fdt.end_node(root).unwrap();
    assert_eq!(actual, fdt.finish().unwrap());
}

#[test]
fn doorbell_node_fails_where_the_tree_is_too_deep() {
    let mut full = FdtWriter::new().unwrap();
    let mut nodes = Vec::new();
    for _ in 0..64 {
        nodes.push(full.begin_node("n").unwrap());
    }
    assert_eq!(
        GunyahInterrupt::new_edge(1).generate_vdevice(&mut full),
        Err(FdtError::NodeDepthTooLarge)
    );
}

#[test]
fn serial_port_names_and_range() {
    let port = SerialDevice::new(0x3f800, GunyahInterrupt::new_edge(1));
    assert_eq!(port.device_name(), "serial@3f800");
    assert_eq!(port.debug_label(), "ns16550a serial");
    assert_eq!(SERIAL_MMIO_SIZE, 8);
    assert_eq!(port.bus_len(), Some(0x3f808));
    assert_eq!(SerialDevice::new(0, GunyahInterrupt::new_edge(1)).device_name(), "serial@0");
    assert_eq!(SerialDevice::new(0, GunyahInterrupt::new_edge(1)).bus_len(), Some(8));
    assert_eq!(SerialDevice::new(u64::MAX - 8, GunyahInterrupt::new_edge(1)).bus_len(), Some(u64::MAX));
    assert_eq!(SerialDevice::new(u64::MAX - 7, GunyahInterrupt::new_edge(1)).bus_len(), None);
}

#[test]
fn serial_port_takes_single_bytes() {
    let at = |offset: u64| BusAccessInfo { offset, address: 0x3f800 + offset, id: AccessId::Vcpu(0) };
    assert_eq!(SerialDevice::register(at(0), 1), Ok(0));
    assert_eq!(SerialDevice::register(at(7), 1), Ok(7));
    assert_eq!(SerialDevice::register(at(255), 1), Ok(255));
    assert_eq!(SerialDevice::register(at(256), 1), Err(SerialError::Offset));
    assert_eq!(SerialDevice::register(at(0), 0), Err(SerialError::AccessSize));
    assert_eq!(SerialDevice::register(at(0), 2), Err(SerialError::AccessSize));
    assert_eq!(SerialDevice::register(at(256), 4), Err(SerialError::AccessSize));
}

#[test]
fn serial_port_node_for_the_guest() {
    let port = SerialDevice::new(0x3f800, GunyahInterrupt::new_edge(1));
    let mut fdt = FdtWriter::new().unwrap();
    let root = fdt.begin_node("").unwrap();
    port.device_config(&mut fdt).unwrap();
    fdt.end_node(root).unwrap();
    let actual = fdt.finish().unwrap();

    let mut fdt = FdtWriter::new().unwrap();
    let root = fdt.begin_node("").unwrap();
    let node = fdt.begin_node("serial@3f800").unwrap();
    fdt.property_string_list("compatible", vec!["ns16550a".to_string()]).unwrap();
    fdt.property_array_u64("reg", &[0x3f800, 8]).unwrap();
    fdt.property_array_u32("interrupts", &[0, 1, 1]).unwrap();
    fdt.property_u32("clock-frequency", 0x1C2000).unwrap();
    fdt.end_node(node).unwrap();
    fdt.end_node(root).unwrap();
    assert_eq!(actual, fdt.finish().unwrap());
}

#[test]
fn register_ids_of_the_boot_context() {
    assert_eq!(gunyah_vm_boot_context_reg_id(0, 0), 0);
    assert_eq!(gunyah_vm_boot_context_reg_id(0, 31), 31);
    assert_eq!(gunyah_vm_boot_context_reg_id(1, 0), 0x100);
    assert_eq!(gunyah_vm_boot_context_reg_id(2, 1), 0x201);
    assert_eq!(gunyah_vm_boot_context_reg_id(0xff, 0xff), 0xffff);
    assert_eq!(gunyah_vm_boot_context_reg_id(0x1ff, 5), 0xff05);
    assert_eq!(gunyah_vm_boot_context_reg_id(u32::MAX, 0), 0xff00);
    assert_eq!(set_boot_pc(0x8000_0000), BootContext { reg: 0x100, value: 0x8000_0000 });
    assert_eq!(set_boot_sp(0x8800_0000), BootContext { reg: 0x201, value: 0x8800_0000 });
}

#[test]
fn kinds_of_functions() {
    assert_eq!(VcpuFunction::function_type(), 1);
    assert_eq!(IrqfdFunction::function_type(), 2);
    assert_eq!(IoeventfdFunction::function_type(), 3);
}

#[test]
fn arguments_that_create_guest_memory() {
    assert_eq!(create_guest_memory(10485760, false), CreateMemArgs { flags: 0, size: 10485760 });
    assert_eq!(create_guest_memory(4096, true), CreateMemArgs { flags: 2, size: 4096 });
    assert_eq!(create_guest_memory_with_cloexec(4096), CreateMemArgs { flags: 1, size: 4096 });
}

#[test]
fn doorbell_node_needs_room_for_its_properties() {
    // The writer takes the node at depth 63, the last that it allows.
    let mut fdt = FdtWriter::new().unwrap();
    let mut nodes = Vec::new();
    for _ in 0..63 {
        nodes.push(fdt.begin_node("n").unwrap());
    }
    assert_eq!(GunyahInterrupt::new_edge(1).generate_vdevice(&mut fdt), Ok(()));
    // A writer that has ended a node takes the next node as well.
    assert_eq!(GunyahInterrupt::new_level(2).generate_vdevice(&mut fdt), Ok(()));
    // A writer that has ended a node takes no property before the next node.
    let port = SerialDevice::new(0x3f800, GunyahInterrupt::new_edge(1));
    assert_eq!(port.device_config(&mut fdt), Ok(()));
    assert_eq!(
        gunyah_vmm::fdt::checked(fdt.property_null("late")),
        Err(FdtError::PropertyAfterEndNode)
    );
}
