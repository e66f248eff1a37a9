use gunyah_vmm::bus::{
    AccessId, Bus, BusAccessError, BusAccessInfo, BusDevice, BusDeviceSync, DeviceError,
};
use gunyah_vmm::vcpu::{
    GunyahVcpu, MmioExit, PageFaultExit, RunEvent, RunState, RunStep, StatusExit, VcpuError, VcpuRun,
    GUNYAH_VCPU_EXIT_MMIO,
    GUNYAH_VCPU_EXIT_PAGE_FAULT, GUNYAH_VCPU_EXIT_STATUS, GUNYAH_VCPU_EXIT_UNKNOWN,
    GUNYAH_VCPU_RESUME_FAULT, GUNYAH_VCPU_RESUME_HANDLED,
};
use gunyah_vmm::fdt::FdtError;
use vm_fdt::FdtWriter;

/// Registers that remember what was written and who wrote it.
#[derive(Debug, Default)]
struct Registers {
    bytes: Vec<u8>,
    writes: Vec<(BusAccessInfo, Vec<u8>)>,
    reads: Vec<(BusAccessInfo, usize)>,
    fail: bool,
}

impl BusDevice for Registers {
    fn debug_label(&self) -> String {
        "registers".to_string()
    }

    fn read(&mut self, info: BusAccessInfo, data: &mut [u8]) -> Result<(), DeviceError> {
        self.reads.push((info, data.len()));
        if self.fail {
            return Err(DeviceError::UnhandledRead);
        }
        let start = info.offset as usize;
        data.copy_from_slice(&self.bytes[start..start + data.len()]);
        Ok(())
    }

    fn write(&mut self, info: BusAccessInfo, data: &[u8]) -> Result<(), DeviceError> {
        self.writes.push((info, data.to_vec()));
        if self.fail {
            return Err(DeviceError::UnhandledWrite);
        }
        Ok(())
    }

    fn memory_regions(&self) -> Option<Vec<u64>> {
        None
    }

    fn gunyah_vdevice_config(&self, _fdt: &mut FdtWriter) -> Result<(), FdtError> {
        Ok(())
    }

    fn device_config(&self, _fdt: &mut FdtWriter) -> Result<(), FdtError> {
        Ok(())
    }
}

/// No device of this kind is ever put on the bus.
#[derive(Debug)]
struct Never;

impl BusDevice for Never {
    fn debug_label(&self) -> String {
        String::new()
    }

    fn read(&mut self, _info: BusAccessInfo, _data: &mut [u8]) -> Result<(), DeviceError> {
        Err(DeviceError::UnhandledRead)
    }

    fn write(&mut self, _info: BusAccessInfo, _data: &[u8]) -> Result<(), DeviceError> {
        Err(DeviceError::UnhandledWrite)
    }

    fn memory_regions(&self) -> Option<Vec<u64>> {
        None
    }

    fn gunyah_vdevice_config(&self, _fdt: &mut FdtWriter) -> Result<(), FdtError> {
        Ok(())
    }

    fn device_config(&self, _fdt: &mut FdtWriter) -> Result<(), FdtError> {
        Ok(())
    }
}

impl BusDeviceSync for Never {
    fn read(&self, _info: BusAccessInfo, _data: &mut [u8]) -> Result<(), DeviceError> {
        Err(DeviceError::UnhandledRead)
    }

    fn write(&self, _info: BusAccessInfo, _data: &[u8]) -> Result<(), DeviceError> {
        Err(DeviceError::UnhandledWrite)
    }
}

fn run_with(exit_reason: u32) -> VcpuRun {
    VcpuRun {
        immediate_exit: 0,
        exit_reason,
        mmio: MmioExit { phys_addr: 0, data: [0; 8], len: 0, is_write: 0, resume_action: 0xee },
        status: StatusExit { status: 0, exit_reason: 0 },
        page_fault: PageFaultExit { phys_addr: 0, attempt: 0, resume_action: 0 },
    }
}

fn mmio(phys_addr: u64, data: [u8; 8], len: u32, is_write: u8) -> VcpuRun {
    VcpuRun {
        mmio: MmioExit { phys_addr, data, len, is_write, resume_action: 0xee },
        ..run_with(GUNYAH_VCPU_EXIT_MMIO)
    }
}

fn bus_with_registers(fail: bool) -> Bus<Registers, Never> {
    let mut bus = Bus::new();
    let registers = Registers { bytes: (0x10..0x20).collect(), fail, ..Registers::default() };
    bus.insert(registers, 0x6000, 0x10).unwrap();
    bus
}

fn registers(bus: &Bus<Registers, Never>) -> &Registers {
    match bus.get_device(0x6000) {
        Some((_, _, gunyah_vmm::bus::BusDeviceEntry::OuterSync(r))) => r,
        _ => panic!("no registers"),
    }
}

#[test]
fn exit_reasons_are_numbered_as_the_hypervisor_numbers_them() {
    assert_eq!(GUNYAH_VCPU_EXIT_UNKNOWN, 0);
    assert_eq!(GUNYAH_VCPU_EXIT_MMIO, 1);
    assert_eq!(GUNYAH_VCPU_EXIT_STATUS, 2);
    assert_eq!(GUNYAH_VCPU_EXIT_PAGE_FAULT, 3);
    assert_eq!(GUNYAH_VCPU_RESUME_HANDLED, 0);
    assert_eq!(GUNYAH_VCPU_RESUME_FAULT, 1);
}

#[test]
fn vcpu_has_its_id() {
    assert_eq!(GunyahVcpu::new(0).id(), 0);
    assert_eq!(GunyahVcpu::new(255).id(), 255);
}

#[test]
fn exits_that_are_not_mmio_end_the_loop() {
    let vcpu = GunyahVcpu::new(1);
    let mut bus = bus_with_registers(false);

    let mut run = run_with(GUNYAH_VCPU_EXIT_UNKNOWN);
    assert_eq!(vcpu.handle_exit(&mut bus, &mut run), Err(VcpuError::UnknownExit));
    assert_eq!(run, run_with(GUNYAH_VCPU_EXIT_UNKNOWN));

    let mut run = run_with(GUNYAH_VCPU_EXIT_STATUS);
    assert_eq!(vcpu.handle_exit(&mut bus, &mut run), Err(VcpuError::Status));

    let mut run = run_with(GUNYAH_VCPU_EXIT_PAGE_FAULT);
    run.page_fault.phys_addr = 0xdead_0000;
    assert_eq!(
        vcpu.handle_exit(&mut bus, &mut run),
        Err(VcpuError::PageFault { phys_addr: 0xdead_0000 })
    );

    for reason in [4u32, 77, u32::MAX] {
        let mut run = run_with(reason);
        assert_eq!(
            vcpu.handle_exit(&mut bus, &mut run),
            Err(VcpuError::UnknownExitReason { exit_reason: reason })
        );
        assert_eq!(run, run_with(reason));
    }
    assert!(registers(&bus).writes.is_empty());
    assert!(registers(&bus).reads.is_empty());
    assert_eq!(bus.access_id(), AccessId::VmmUserspace);
}

#[test]
fn mmio_write_goes_through_the_bus_as_the_vcpu() {
    let vcpu = GunyahVcpu::new(2);
    let mut bus = bus_with_registers(false);
    let mut run = mmio(0x6000, [0; 8], 8, 1);
    assert_eq!(vcpu.handle_exit(&mut bus, &mut run), Ok(Ok(())));
    assert_eq!(run.exit_reason, GUNYAH_VCPU_EXIT_MMIO);
    assert_eq!(run.mmio.phys_addr, 0x6000);
    assert_eq!(run.mmio.is_write, 1);
    assert_eq!(run.mmio.resume_action, GUNYAH_VCPU_RESUME_HANDLED);
    assert_eq!(run.mmio.data, [0; 8]);
    assert_eq!(
        registers(&bus).writes,
        vec![(BusAccessInfo { offset: 0, address: 0x6000, id: AccessId::Vcpu(2) }, vec![0u8; 8])]
    );
}

#[test]
fn mmio_write_carries_the_first_bytes_of_the_record() {
    let vcpu = GunyahVcpu::new(0);
    let mut bus = bus_with_registers(false);
    let mut run = mmio(0x6004, [1, 2, 3, 4, 5, 6, 7, 8], 3, 1);
    assert_eq!(vcpu.handle_exit(&mut bus, &mut run), Ok(Ok(())));
    assert_eq!(
        registers(&bus).writes,
        vec![(BusAccessInfo { offset: 4, address: 0x6004, id: AccessId::Vcpu(0) }, vec![1, 2, 3])]
    );
    let mut run = mmio(0x6004, [9; 8], 0, 1);
    assert_eq!(vcpu.handle_exit(&mut bus, &mut run), Ok(Ok(())));
    assert_eq!(registers(&bus).writes[1].1, Vec::<u8>::new());
}

#[test]
fn mmio_read_puts_the_bytes_into_the_record() {
    let vcpu = GunyahVcpu::new(5);
    let mut bus = bus_with_registers(false);
    let mut run = mmio(0x6002, [0xaa; 8], 4, 0);
    assert_eq!(vcpu.handle_exit(&mut bus, &mut run), Ok(Ok(())));
    assert_eq!(run.mmio.data, [0x12, 0x13, 0x14, 0x15, 0xaa, 0xaa, 0xaa, 0xaa]);
    assert_eq!(run.mmio.resume_action, GUNYAH_VCPU_RESUME_HANDLED);
    assert_eq!(run.mmio.len, 4);
    assert_eq!(
        registers(&bus).reads,
        vec![(BusAccessInfo { offset: 2, address: 0x6002, id: AccessId::Vcpu(5) }, 4)]
    );
    let mut run = mmio(0x6008, [0; 8], 8, 0);
    assert_eq!(vcpu.handle_exit(&mut bus, &mut run), Ok(Ok(())));
    assert_eq!(run.mmio.data, [0x18, 0x19, 0x1a, 0x1b, 0x1c, 0x1d, 0x1e, 0x1f]);
}

#[test]
fn failed_mmio_faults_the_guest_and_the_loop_goes_on() {
    let vcpu = GunyahVcpu::new(0);
    let mut bus = bus_with_registers(true);
    let mut run = mmio(0x6000, [7; 8], 8, 1);
    assert_eq!(
        vcpu.handle_exit(&mut bus, &mut run),
        Ok(Err(BusAccessError::Device {
            label: "registers".to_string(),
            write: true,
            error: DeviceError::UnhandledWrite,
        }))
    );
    assert_eq!(run.mmio.resume_action, GUNYAH_VCPU_RESUME_FAULT);
    let mut run = mmio(0x6000, [7; 8], 2, 0);
    assert_eq!(
        vcpu.handle_exit(&mut bus, &mut run),
        Ok(Err(BusAccessError::Device {
            label: "registers".to_string(),
            write: false,
            error: DeviceError::UnhandledRead,
        }))
    );
    assert_eq!(run.mmio.resume_action, GUNYAH_VCPU_RESUME_FAULT);
    assert_eq!(run.mmio.data, [7; 8]);
}

#[test]
fn mmio_where_no_device_is_faults_the_guest() {
    let vcpu = GunyahVcpu::new(0);
    let mut bus = bus_with_registers(false);
    for is_write in [0u8, 1] {
        let mut run = mmio(0x7000, [3; 8], 4, is_write);
        assert_eq!(vcpu.handle_exit(&mut bus, &mut run), Ok(Err(BusAccessError::NoDevice)));
        assert_eq!(run.mmio.resume_action, GUNYAH_VCPU_RESUME_FAULT);
        assert_eq!(run.mmio.data, [3; 8]);
    }
    assert!(registers(&bus).writes.is_empty());
    assert!(registers(&bus).reads.is_empty());
}

#[test]
fn malformed_mmio_record_ends_the_loop() {
    let vcpu = GunyahVcpu::new(0);
    let mut bus = bus_with_registers(false);
    let mut run = mmio(0x6000, [0; 8], 9, 1);
    assert_eq!(vcpu.handle_exit(&mut bus, &mut run), Err(VcpuError::InvalidMmio));
    assert_eq!(run, mmio(0x6000, [0; 8], 9, 1));
    let mut run = mmio(0x6000, [0; 8], 4, 2);
    assert_eq!(vcpu.handle_exit(&mut bus, &mut run), Err(VcpuError::InvalidMmio));
    assert_eq!(run, mmio(0x6000, [0; 8], 4, 2));
    assert!(registers(&bus).writes.is_empty());
}

#[test]
fn pending_read_is_completed_from_outside() {
    let vcpu = GunyahVcpu::new(0);
    let mut run = mmio(0x9000, [0xcc; 8], 4, 0);
    assert_eq!(vcpu.vmmio_provide_read(&mut run, 0x9000, &[1, 2, 3, 4]), Ok(()));
    assert_eq!(run.mmio.data, [1, 2, 3, 4, 0xcc, 0xcc, 0xcc, 0xcc]);
    assert_eq!(run.mmio.resume_action, GUNYAH_VCPU_RESUME_HANDLED);
    assert_eq!(run.mmio.len, 4);
    assert_eq!(run.mmio.phys_addr, 0x9000);

    let mut run = mmio(0x9000, [0xcc; 8], 8, 0);
    assert_eq!(vcpu.vmmio_provide_read(&mut run, 0x9000, &[8, 7, 6, 5, 4, 3, 2, 1]), Ok(()));
    assert_eq!(run.mmio.data, [8, 7, 6, 5, 4, 3, 2, 1]);

    let mut run = mmio(0x9000, [0xcc; 8], 0, 0);
    assert_eq!(vcpu.vmmio_provide_read(&mut run, 0x9000, &[]), Ok(()));
    assert_eq!(run.mmio.data, [0xcc; 8]);
    assert_eq!(run.mmio.resume_action, GUNYAH_VCPU_RESUME_HANDLED);
}

#[test]
fn read_that_does_not_match_the_pending_exit_changes_nothing() {
    let vcpu = GunyahVcpu::new(0);

    let mut run = run_with(GUNYAH_VCPU_EXIT_UNKNOWN);
    assert_eq!(vcpu.vmmio_provide_read(&mut run, 0, &[]), Err(VcpuError::NotMmio));
    assert_eq!(run, run_with(GUNYAH_VCPU_EXIT_UNKNOWN));

    let mut run = mmio(0x9000, [0xcc; 8], 4, 1);
    assert_eq!(vcpu.vmmio_provide_read(&mut run, 0x9000, &[1, 2, 3, 4]), Err(VcpuError::NotMmioRead));
    assert_eq!(run, mmio(0x9000, [0xcc; 8], 4, 1));

    let mut run = mmio(0x9000, [0xcc; 8], 4, 0);
    assert_eq!(
        vcpu.vmmio_provide_read(&mut run, 0x9004, &[1, 2, 3, 4]),
        Err(VcpuError::WrongAddress { phys_addr: 0x9004 })
    );
    assert_eq!(vcpu.vmmio_provide_read(&mut run, 0x9000, &[1, 2, 3]), Err(VcpuError::LengthMismatch));
    assert_eq!(vcpu.vmmio_provide_read(&mut run, 0x9000, &[1; 8]), Err(VcpuError::LengthMismatch));
    assert_eq!(run, mmio(0x9000, [0xcc; 8], 4, 0));

    let mut run = mmio(0x9000, [0xcc; 8], 9, 0);
    assert_eq!(vcpu.vmmio_provide_read(&mut run, 0x9000, &[1; 9]), Err(VcpuError::InvalidMmio));
    assert_eq!(run, mmio(0x9000, [0xcc; 8], 9, 0));
}

#[test]
fn run_loop_starts_runs_and_ends() {
    let vcpu = GunyahVcpu::new(4);
    let mut bus = bus_with_registers(false);
    let mut run = run_with(GUNYAH_VCPU_EXIT_UNKNOWN);

    // An idle loop starts, whatever the run structure holds.
    let step = vcpu.step(RunState::Idle, RunEvent::Start, &mut bus, &mut run);
    assert_eq!(step, RunStep { state: RunState::Running, refusal: None });
    assert_eq!(run, run_with(GUNYAH_VCPU_EXIT_UNKNOWN));

    // A running loop handles an MMIO exit and runs on.
    let mut run = mmio(0x6001, [5; 8], 2, 1);
    let step = vcpu.step(RunState::Running, RunEvent::Exited, &mut bus, &mut run);
    assert_eq!(step, RunStep { state: RunState::Running, refusal: None });
    assert_eq!(run.mmio.resume_action, GUNYAH_VCPU_RESUME_HANDLED);
    assert_eq!(registers(&bus).writes.len(), 1);
    assert_eq!(registers(&bus).writes[0].0.id, AccessId::Vcpu(4));

    // An access that no device takes faults the guest, and the loop runs on.
    let mut run = mmio(0x7000, [5; 8], 2, 0);
    let step = vcpu.step(RunState::Running, RunEvent::Exited, &mut bus, &mut run);
    assert_eq!(step, RunStep { state: RunState::Running, refusal: Some(BusAccessError::NoDevice) });
    assert_eq!(run.mmio.resume_action, GUNYAH_VCPU_RESUME_FAULT);

    // Every other exit ends the loop.
    let mut run = run_with(GUNYAH_VCPU_EXIT_STATUS);
    let step = vcpu.step(RunState::Running, RunEvent::Exited, &mut bus, &mut run);
    assert_eq!(step, RunStep { state: RunState::Terminated(VcpuError::Status), refusal: None });

    // So does a failure of the hypervisor.
    let step = vcpu.step(RunState::Running, RunEvent::Failed { errno: 4 }, &mut bus, &mut run);
    assert_eq!(
        step,
        RunStep { state: RunState::Terminated(VcpuError::Hypervisor { errno: 4 }), refusal: None }
    );
}

#[test]
fn run_loop_that_has_ended_stays_ended() {
    let vcpu = GunyahVcpu::new(0);
    let mut bus = bus_with_registers(false);
    let ended = RunState::Terminated(VcpuError::UnknownExit);
    for event in [RunEvent::Start, RunEvent::Exited, RunEvent::Failed { errno: 1 }] {
        let mut run = mmio(0x6000, [1; 8], 8, 1);
        let step = vcpu.step(ended, event, &mut bus, &mut run);
        assert_eq!(step, RunStep { state: ended, refusal: None });
        assert_eq!(run, mmio(0x6000, [1; 8], 8, 1));
    }
    assert!(registers(&bus).writes.is_empty());
}

#[test]
fn run_loop_ignores_what_does_not_fit_its_state() {
    let vcpu = GunyahVcpu::new(0);
    let mut bus = bus_with_registers(false);
    let mut run = mmio(0x6000, [1; 8], 8, 1);
    for event in [RunEvent::Exited, RunEvent::Failed { errno: 1 }] {
        let step = vcpu.step(RunState::Idle, event, &mut bus, &mut run);
        assert_eq!(step, RunStep { state: RunState::Idle, refusal: None });
    }
    let step = vcpu.step(RunState::Running, RunEvent::Start, &mut bus, &mut run);
    assert_eq!(step, RunStep { state: RunState::Running, refusal: None });
    assert_eq!(run, mmio(0x6000, [1; 8], 8, 1));
    assert!(registers(&bus).writes.is_empty());
}

#[test]
fn vcpu_errors_in_words() {
    assert_eq!(VcpuError::UnknownExit.to_string(), "Unexpected exit for unknown reason");
    assert_eq!(VcpuError::Status.to_string(), "Unexpected exit for a change of status");
    assert_eq!(
        VcpuError::PageFault { phys_addr: 0xdead_f00d }.to_string(),
        "Unexpected page fault at deadf00d"
    );
    assert_eq!(VcpuError::UnknownExitReason { exit_reason: 77 }.to_string(), "Unknown exit reason: 77");
    assert_eq!(VcpuError::InvalidMmio.to_string(), "vCPU exited for mmio with a malformed record");
    assert_eq!(VcpuError::NotMmio.to_string(), "vCPU didn't exit for mmio");
    assert_eq!(VcpuError::NotMmioRead.to_string(), "vCPU didn't exit for mmio read");
    assert_eq!(
        VcpuError::WrongAddress { phys_addr: 0x6000 }.to_string(),
        "vCPU didn't exit for mmio read at 24576"
    );
    assert_eq!(VcpuError::LengthMismatch.to_string(), "vCPU length didn't match");
    assert_eq!(
        VcpuError::Hypervisor { errno: 22 }.to_string(),
        "Hypervisor failed to run the vCPU: error 22"
    );
    assert_eq!(
        VcpuError::Hypervisor { errno: -22 }.to_string(),
        "Hypervisor failed to run the vCPU: error -22"
    );
    assert_eq!(
        VcpuError::Hypervisor { errno: i32::MIN }.to_string(),
        "Hypervisor failed to run the vCPU: error -2147483648"
    );
    assert_eq!(VcpuError::Hypervisor { errno: 0 }.to_string(), "Hypervisor failed to run the vCPU: error 0");
}
