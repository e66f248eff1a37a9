//! The arguments of the hypervisor's calls that the monitor computes: the
//! kinds of functions of a virtual machine, the registers of its boot context
//! and the place of its device tree.

use vstd::prelude::*;
use crate::interrupt::IoeventfdArg;
use crate::interrupt::IrqfdArg;

verus! {

/// The kinds of functions, as the kernel's `gunyah.h` numbers them.
pub const GUNYAH_FN_VCPU: u32 = 1;

pub const GUNYAH_FN_IRQFD: u32 = 2;

pub const GUNYAH_FN_IOEVENTFD: u32 = 3;

/// The register sets of the boot context, as the kernel's `gunyah.h` numbers
/// them.
pub const REG_SET_X: u32 = 0;

pub const REG_SET_PC: u32 = 1;

pub const REG_SET_SP: u32 = 2;

/// By how many bits the register set is shifted in a register id.
pub const GUNYAH_VM_BOOT_CONTEXT_REG_SHIFT: u32 = 8;

/// A kind of function that is added to a virtual machine and removed from
/// it, with the type of its argument.
pub trait VmFunction {
    type FunctionArg;

    /// The number of the kind.
    spec fn spec_function_type() -> u32;

    /// The number of the kind.
    fn function_type() -> (t: u32)
        ensures
            t == Self::spec_function_type(),
    ;
}

/// The argument of a vCPU: its id.
#[derive(Copy, Clone, Debug, PartialEq, Eq, Structural)]
pub struct VcpuArg {
    pub id: u32,
}

/// A vCPU.
pub struct VcpuFunction;

/// An event that the hypervisor fires on a write of the guest.
pub struct IoeventfdFunction;

/// A doorbell.
pub struct IrqfdFunction;

impl VmFunction for VcpuFunction {
    type FunctionArg = VcpuArg;

    open spec fn spec_function_type() -> u32 {
        GUNYAH_FN_VCPU
    }

    fn function_type() -> (t: u32) {
        GUNYAH_FN_VCPU
    }
}

impl VmFunction for IoeventfdFunction {
    type FunctionArg = IoeventfdArg;

    open spec fn spec_function_type() -> u32 {
        GUNYAH_FN_IOEVENTFD
    }

    fn function_type() -> (t: u32) {
        GUNYAH_FN_IOEVENTFD
    }
}

impl VmFunction for IrqfdFunction {
    type FunctionArg = IrqfdArg;

    open spec fn spec_function_type() -> u32 {
        GUNYAH_FN_IRQFD
    }

    fn function_type() -> (t: u32) {
        GUNYAH_FN_IRQFD
    }
}

/// The id of a register of the boot context: the low eight bits of the
/// register set, shifted up by eight bits, and the index in the eight bits
/// below them.
pub open spec fn spec_boot_context_reg_id(reg_type: u32, reg_idx: u8) -> u32 {
    ((reg_type % 0x100) * 0x100 + reg_idx) as u32
}

/// Computes the id of the register `reg_idx` of the set `reg_type`.
pub fn gunyah_vm_boot_context_reg_id(reg_type: u32, reg_idx: u8) -> (id: u32)
    ensures
        id == spec_boot_context_reg_id(reg_type, reg_idx),
{
    let idx: u32 = reg_idx as u32;
    assert((((reg_type & 0xff) << 8) | idx) == ((reg_type % 0x100) * 0x100 + idx) as u32) by (bit_vector)
        requires
            idx < 0x100,
    ;
    ((reg_type & 0xff) << GUNYAH_VM_BOOT_CONTEXT_REG_SHIFT) | idx
}

/// One register of the boot context and the value that it gets.
#[derive(Copy, Clone, Debug, PartialEq, Eq, Structural)]
pub struct BootContext {
    pub reg: u32,
    pub value: u64,
}

/// The boot context that starts the guest at `value`.
pub fn set_boot_pc(value: u64) -> (context: BootContext)
    ensures
        context == (BootContext { reg: spec_boot_context_reg_id(REG_SET_PC, 0), value }),
{
    BootContext { reg: gunyah_vm_boot_context_reg_id(REG_SET_PC, 0), value }
}

/// The boot context that starts the guest with its stack at `value`.
pub fn set_boot_sp(value: u64) -> (context: BootContext)
    ensures
        context == (BootContext { reg: spec_boot_context_reg_id(REG_SET_SP, 1), value }),
{
    BootContext { reg: gunyah_vm_boot_context_reg_id(REG_SET_SP, 1), value }
}

/// Where the device tree of a guest lies.
#[derive(Copy, Clone, Debug, PartialEq, Eq, Structural)]
pub struct DtbConfig {
    pub guest_phys_addr: u64,
    pub size: u64,
}


/// Flags of guest memory, as the kernel's `gunyah.h` numbers them.
pub const GHMF_CLOEXEC: u64 = 1;

pub const GHMF_ALLOW_HUGEPAGE: u64 = 2;

/// The arguments with which guest memory is created.
#[derive(Copy, Clone, Debug, PartialEq, Eq, Structural)]
pub struct CreateMemArgs {
    pub flags: u64,
    pub size: u64,
}

/// The arguments that create guest memory of `size` bytes, with huge pages
/// allowed or not.
pub fn create_guest_memory(size: usize, huge_pages: bool) -> (args: CreateMemArgs)
    ensures
        args == (CreateMemArgs {
            flags: if huge_pages {
                GHMF_ALLOW_HUGEPAGE
            } else {
                0
            },
            size: size as u64,
        }),
{
    CreateMemArgs {
        flags: if huge_pages {
            GHMF_ALLOW_HUGEPAGE
        } else {
            0u64
        },
        size: size as u64,
    }
}

/// The arguments that create guest memory of `size` bytes whose descriptor
/// is closed when the process executes another program.
pub fn create_guest_memory_with_cloexec(size: usize) -> (args: CreateMemArgs)
    ensures
        args == (CreateMemArgs { flags: GHMF_CLOEXEC, size: size as u64 }),
{
    CreateMemArgs { flags: GHMF_CLOEXEC, size: size as u64 }
}

} // verus!
