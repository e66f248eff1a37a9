//! Core of a virtual machine monitor for the Gunyah hypervisor: the MMIO bus,
//! the bookkeeping of guest memory, the decisions of the vCPU run loop, the
//! device tree of the guest and the layout of what is loaded before boot.
//!
//! The library decides and computes; it makes no call into the hypervisor.
//! Its caller opens the devices, maps the memory, runs the vCPUs and hands the
//! library what came back.

pub mod boot;
pub mod bus;
pub mod bus_laws;
pub mod fdt;
pub mod hypervisor;
pub mod interrupt;
pub mod memory;
pub mod names;
pub mod serial;
pub mod text;
pub mod types;
pub mod vcpu;
pub mod virtual_machine;

pub use boot::LoadFileArg;
pub use boot::RunCommand;
pub use bus::AccessId;
pub use bus::Bus;
pub use bus::BusAccessError;
pub use bus::BusAccessInfo;
pub use bus::BusDevice;
pub use bus::BusDeviceSync;
pub use bus::BusRange;
pub use bus::DeviceError;
pub use bus::Error;
pub use hypervisor::gunyah_vm_boot_context_reg_id;
pub use hypervisor::VmFunction;
pub use interrupt::GunyahInterrupt;
pub use interrupt::Ioeventfd;
pub use interrupt::Irqfd;
pub use memory::GuestMem;
pub use memory::GuestMemRegion;
pub use memory::GuestMemoryAccess;
pub use memory::GunyahGuestMemoryRegion;
pub use memory::ShareType;
pub use serial::SerialDevice;
pub use types::GuestAddress;
pub use types::GuestSize;
pub use vcpu::GunyahVcpu;
pub use virtual_machine::GunyahVirtualMachine;
