//! Interrupt lines of a guest and the doorbells that raise them.

use vstd::prelude::*;
use vm_fdt::FdtWriter;
use crate::fdt::begin_write;
use crate::fdt::cells32_item;
use crate::fdt::end_write;
use crate::fdt::fdt_items;
use crate::fdt::items_of;
use crate::fdt::lemma_at_end;
use crate::fdt::lemma_at_start;
use crate::fdt::null_item;
use crate::fdt::plain_write;
use crate::fdt::put_begin;
use crate::fdt::put_cells32;
use crate::fdt::put_end;
use crate::fdt::put_null;
use crate::fdt::put_string;
use crate::fdt::put_u32;
use crate::fdt::string_write;
use crate::fdt::u32_item;
use crate::fdt::write_error;
use crate::fdt::wrote;
use crate::fdt::FdtWrite;
use crate::fdt::FdtError;
use crate::fdt::FdtItem;
use crate::text::hex_digits;
use crate::text::push_hex;

verus! {

/// The flag of a doorbell whose interrupt is level triggered, as the kernel's
/// `gunyah.h` numbers it.
pub const GUNYAH_IRQFD_FLAGS_LEVEL: u32 = 1;

/// The flag of an event that fires only for one value written, as the
/// kernel's `gunyah.h` numbers it.
pub const GUNYAH_IOEVENTFD_FLAGS_DATAMATCH: u32 = 1;

/// The interrupt type of a shared peripheral interrupt in a device tree.
pub const GIC_FDT_IRQ_TYPE_SPI: u32 = 0;

pub const IRQ_TYPE_EDGE_RISING: u32 = 0x00000001;

pub const IRQ_TYPE_LEVEL_HIGH: u32 = 0x00000004;

/// The argument with which a doorbell is added to a virtual machine, and with
/// which it is removed again.
#[derive(Copy, Clone, Debug, PartialEq, Eq, Structural)]
pub struct IrqfdArg {
    pub fd: u32,
    pub label: u32,
    pub flags: u32,
    pub padding: u32,
}

/// A doorbell: an event descriptor bound to an interrupt of the guest.
#[derive(Copy, Clone, Debug, PartialEq, Eq, Structural)]
pub struct Irqfd {
    pub label: u32,
    pub level: bool,
}

impl Irqfd {
    pub fn new(label: u32, level: bool) -> (irqfd: Self)
        ensures
            irqfd == (Irqfd { label, level }),
    {
        Irqfd { label, level }
    }

    pub fn label(&self) -> (label: u32)
        ensures
            label == self.label,
    {
        self.label
    }

    pub fn level(&self) -> (level: bool)
        ensures
            level == self.level,
    {
        self.level
    }

    /// The argument that registers the doorbell on the event descriptor `fd`.
    /// The same argument removes it.
    pub fn function_arg(&self, fd: u32) -> (arg: IrqfdArg)
        ensures
            arg == (IrqfdArg {
                fd,
                label: self.label,
                flags: if self.level {
                    GUNYAH_IRQFD_FLAGS_LEVEL
                } else {
                    0
                },
                padding: 0,
            }),
    {
        let mut flags: u32 = 0;
        if self.level {
            flags = GUNYAH_IRQFD_FLAGS_LEVEL;
        }
        IrqfdArg { fd, label: self.label, flags, padding: 0 }
    }

    /// Whether the write that triggers the doorbell has failed, given what the
    /// write returned. A failure is reported and goes no further.
    pub fn trigger_failed(written: isize) -> (failed: bool)
        ensures
            failed == (written <= 0),
    {
        written <= 0
    }
}

/// The argument with which an event on a guest's write is added to a virtual
/// machine, and with which it is removed again.
#[derive(Copy, Clone, Debug, PartialEq, Eq, Structural)]
pub struct IoeventfdArg {
    pub datamatch: u64,
    pub addr: u64,
    pub len: u32,
    pub fd: i32,
    pub flags: u32,
    pub padding: u32,
}

/// An event that the hypervisor fires when the guest writes `len` bytes to
/// `addr`: every write, or only the write of `datamatch`.
#[derive(Copy, Clone, Debug, PartialEq, Eq, Structural)]
pub struct Ioeventfd {
    pub addr: u64,
    pub len: u32,
    pub datamatch: Option<u64>,
}

impl Ioeventfd {
    pub fn new(addr: u64, len: u32, datamatch: Option<u64>) -> (event: Self)
        ensures
            event == (Ioeventfd { addr, len, datamatch }),
    {
        Ioeventfd { addr, len, datamatch }
    }

    /// The argument that registers the event on the event descriptor `fd`.
    /// The same argument removes it.
    pub fn function_arg(&self, fd: i32) -> (arg: IoeventfdArg)
        ensures
            arg == (IoeventfdArg {
                datamatch: match self.datamatch {
                    Some(d) => d,
                    None => 0,
                },
                addr: self.addr,
                len: self.len,
                fd,
                flags: if self.datamatch is Some {
                    GUNYAH_IOEVENTFD_FLAGS_DATAMATCH
                } else {
                    0
                },
                padding: 0,
            }),
    {
        let (datamatch, flags): (u64, u32) = match self.datamatch {
            Some(d) => (d, GUNYAH_IOEVENTFD_FLAGS_DATAMATCH),
            None => (0, 0),
        };
        IoeventfdArg { datamatch, addr: self.addr, len: self.len, fd, flags, padding: 0 }
    }
}

/// An interrupt line of the guest with the doorbell that raises it.
#[derive(Copy, Clone, Debug, PartialEq, Eq, Structural)]
pub struct GunyahInterrupt {
    pub line: u32,
    pub irqfd: Irqfd,
}

impl GunyahInterrupt {
    /// A level triggered interrupt on `line`; its doorbell has the line as
    /// its label.
    pub fn new_level(line: u32) -> (interrupt: Self)
        ensures
            interrupt == (GunyahInterrupt { line, irqfd: Irqfd { label: line, level: true } }),
    {
        GunyahInterrupt { line, irqfd: Irqfd::new(line, true) }
    }

    /// An edge triggered interrupt on `line`; its doorbell has the line as its
    /// label.
    pub fn new_edge(line: u32) -> (interrupt: Self)
        ensures
            interrupt == (GunyahInterrupt { line, irqfd: Irqfd { label: line, level: false } }),
    {
        GunyahInterrupt { line, irqfd: Irqfd::new(line, false) }
    }

    pub fn line(&self) -> (line: u32)
        ensures
            line == self.line,
    {
        self.line
    }

    /// The three cells that describe the interrupt in a device tree.
    pub open spec fn spec_fdt_config(&self) -> Seq<u32> {
        seq![
            GIC_FDT_IRQ_TYPE_SPI,
            self.line,
            if self.irqfd.level {
                IRQ_TYPE_LEVEL_HIGH
            } else {
                IRQ_TYPE_EDGE_RISING
            },
        ]
    }

    /// The three cells that describe the interrupt in a device tree: the type
    /// of a shared peripheral interrupt, the line, and the trigger.
    pub fn fdt_config(&self) -> (cells: [u32; 3])
        ensures
            cells@ == self.spec_fdt_config(),
    {
        let cells: [u32; 3] = [
            GIC_FDT_IRQ_TYPE_SPI,
            self.line(),
            if self.irqfd.level() {
                IRQ_TYPE_LEVEL_HIGH
            } else {
                IRQ_TYPE_EDGE_RISING
            },
        ];
        assert(cells@ =~= self.spec_fdt_config());
        cells
    }

    /// What is handed to the writer for the node that tells the hypervisor of
    /// the doorbell.
    pub open spec fn vdevice_writes(&self) -> Seq<FdtWrite> {
        seq![
            begin_write("bell-"@ + hex_digits(self.line as nat)),
            string_write("vdevice-type"@, "doorbell"@),
            string_write("generate"@, "/hypervisor/bell-"@ + hex_digits(self.line as nat)),
            plain_write(u32_item("label"@, self.irqfd.label)),
            plain_write(null_item("peer-default"@)),
            plain_write(null_item("source-can-clean"@)),
            plain_write(cells32_item("interrupts"@, self.spec_fdt_config())),
            end_write(),
        ]
    }

    /// The node that tells the hypervisor of the doorbell.
    pub open spec fn vdevice_items(&self) -> Seq<FdtItem> {
        items_of(self.vdevice_writes())
    }

    /// Writes the node that tells the hypervisor of the doorbell: hands the
    /// writer the node's start, its properties and its end, one after the
    /// other, and stops at the first that the writer refuses. It succeeds
    /// where the writer takes them all.
    pub fn generate_vdevice(&self, fdt: &mut FdtWriter) -> (r: Result<(), FdtError>)
        ensures
            wrote(fdt_items(*old(fdt)), self.vdevice_writes(), fdt_items(*final(fdt)), r is Ok),
            r matches Err(e) ==> e == write_error(fdt_items(*old(fdt)), self.vdevice_writes(), fdt_items(*final(fdt))),
            r is Ok ==> fdt_items(*final(fdt)) == fdt_items(*old(fdt)) + self.vdevice_items(),
    {
        let ghost start = fdt_items(*fdt);
        let ghost ws = self.vdevice_writes();
        proof {
            lemma_at_start(start, ws);
        }
        let mut bell_name = String::from_str("bell-");
        push_hex(&mut bell_name, self.line as u64);
        let bell_node = put_begin(fdt, bell_name.as_str(), Ghost(start), Ghost(ws), Ghost(0))?;
        put_string(fdt, "vdevice-type", "doorbell", Ghost(start), Ghost(ws), Ghost(1))?;
        let mut path_name = String::from_str("/hypervisor/bell-");
        push_hex(&mut path_name, self.line as u64);
        put_string(fdt, "generate", path_name.as_str(), Ghost(start), Ghost(ws), Ghost(2))?;
        put_u32(fdt, "label", self.irqfd.label(), Ghost(start), Ghost(ws), Ghost(3))?;
        put_null(fdt, "peer-default", Ghost(start), Ghost(ws), Ghost(4))?;
        put_null(fdt, "source-can-clean", Ghost(start), Ghost(ws), Ghost(5))?;
        let cells: [u32; 3] = self.fdt_config();
        put_cells32(fdt, "interrupts", cells.as_slice(), Ghost(start), Ghost(ws), Ghost(6))?;
        put_end(fdt, bell_node, Ghost(start), Ghost(ws), Ghost(7))?;
        proof {
            lemma_at_end(start, ws, fdt_items(*fdt));
        }
        Ok(())
    }
}

} // verus!
