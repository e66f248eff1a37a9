//! The serial console of the guest, as far as the monitor decides about it:
//! where it sits on the bus, which accesses it takes, and how the guest is
//! told of it.

use vstd::prelude::*;
use vm_fdt::FdtWriter;
use crate::bus::BusAccessInfo;
use crate::fdt::begin_write;
use crate::fdt::cells32_item;
use crate::fdt::cells64_item;
use crate::fdt::end_write;
use crate::fdt::fdt_items;
use crate::fdt::items_of;
use crate::fdt::lemma_at_end;
use crate::fdt::lemma_at_start;
use crate::fdt::plain_write;
use crate::fdt::put_begin;
use crate::fdt::put_cells32;
use crate::fdt::put_cells64;
use crate::fdt::put_end;
use crate::fdt::put_string_list;
use crate::fdt::put_u32;
use crate::fdt::string_list_write;
use crate::fdt::string_write;
use crate::fdt::u32_item;
use crate::fdt::write_error;
use crate::fdt::wrote;
use crate::fdt::FdtWrite;
use crate::fdt::string_list_value;
use crate::fdt::FdtError;
use crate::fdt::FdtItem;
use crate::interrupt::GunyahInterrupt;
use crate::text::hex_digits;
use crate::text::push_hex;

verus! {

/// The number of registers of the serial port.
pub const SERIAL_MMIO_SIZE: u64 = 8;

/// Why the serial port refuses an access.
#[derive(Copy, Clone, Debug, PartialEq, Eq, Structural)]
pub enum SerialError {
    /// The access is not of one byte.
    AccessSize,
    /// The offset is no register of the port.
    Offset,
}

/// The serial port of a guest: its address and its interrupt.
#[derive(Copy, Clone, Debug, PartialEq, Eq, Structural)]
pub struct SerialDevice {
    pub start: u64,
    pub interrupt: GunyahInterrupt,
}

impl SerialDevice {
    pub fn new(start: u64, interrupt: GunyahInterrupt) -> (device: Self)
        ensures
            device == (SerialDevice { start, interrupt }),
    {
        SerialDevice { start, interrupt }
    }

    /// The name of the port's node in the device tree.
    pub fn device_name(&self) -> (name: String)
        ensures
            name@ == "serial@"@ + hex_digits(self.start as nat),
    {
        let mut name = String::from_str("serial@");
        push_hex(&mut name, self.start);
        name
    }

    /// The label under which the bus reports failures of the port.
    pub fn debug_label(&self) -> (label: String)
        ensures
            label@ == "ns16550a serial"@,
    {
        String::from_str("ns16550a serial")
    }

    /// The length of the port's range on the bus, which begins at the port's
    /// address: the address and the number of registers. `None` where that
    /// does not fit in 64 bits.
    pub fn bus_len(&self) -> (len: Option<u64>)
        ensures
            len == if self.start + SERIAL_MMIO_SIZE <= u64::MAX {
                Some((self.start + SERIAL_MMIO_SIZE) as u64)
            } else {
                None
            },
    {
        self.start.checked_add(SERIAL_MMIO_SIZE)
    }

    /// The register that an access of `len` bytes at `info` goes to. The port
    /// takes accesses of one byte only.
    pub fn register(info: BusAccessInfo, len: usize) -> (r: Result<u8, SerialError>)
        ensures
            r == if len != 1 {
                Err::<u8, SerialError>(SerialError::AccessSize)
            } else if info.offset > u8::MAX {
                Err(SerialError::Offset)
            } else {
                Ok(info.offset as u8)
            },
    {
        if len != 1 {
            return Err(SerialError::AccessSize);
        }
        if info.offset > 255 {
            return Err(SerialError::Offset);
        }
        Ok(info.offset as u8)
    }

    /// What is handed to the writer for the node that tells the guest of the
    /// port.
    pub open spec fn device_writes(&self) -> Seq<FdtWrite> {
        seq![
            begin_write("serial@"@ + hex_digits(self.start as nat)),
            string_write("compatible"@, "ns16550a"@),
            plain_write(cells64_item("reg"@, seq![self.start, SERIAL_MMIO_SIZE])),
            plain_write(cells32_item("interrupts"@, self.interrupt.spec_fdt_config())),
            plain_write(u32_item("clock-frequency"@, 0x1C2000)),
            end_write(),
        ]
    }

    /// The node that tells the guest of the port.
    pub open spec fn device_items(&self) -> Seq<FdtItem> {
        items_of(self.device_writes())
    }

    /// Writes the node that tells the guest of the port: hands the writer the
    /// node's start, its properties and its end, one after the other, and
    /// stops at the first that the writer refuses. It succeeds where the
    /// writer takes them all.
    pub fn device_config(&self, fdt: &mut FdtWriter) -> (r: Result<(), FdtError>)
        ensures
            wrote(fdt_items(*old(fdt)), self.device_writes(), fdt_items(*final(fdt)), r is Ok),
            r matches Err(e) ==> e == write_error(fdt_items(*old(fdt)), self.device_writes(), fdt_items(*final(fdt))),
            r is Ok ==> fdt_items(*final(fdt)) == fdt_items(*old(fdt)) + self.device_items(),
    {
        let ghost start = fdt_items(*fdt);
        let ghost ws = self.device_writes();
        proof {
            lemma_at_start(start, ws);
        }
        let name: String = self.device_name();
        let node = put_begin(fdt, name.as_str(), Ghost(start), Ghost(ws), Ghost(0))?;
        let mut compatible: Vec<String> = Vec::new();
        compatible.push(String::from_str("ns16550a"));
        proof {
            reveal_with_fuel(string_list_value, 2);
            assert(compatible@.drop_last() =~= Seq::<String>::empty());
            assert(string_list_value(compatible@) =~= crate::fdt::string_value("ns16550a"@));
            assert(compatible@.map_values(|s: String| s@) =~= seq!["ns16550a"@]);
            assert(ws[1] == string_list_write("compatible"@, compatible@));
        }
        put_string_list(fdt, "compatible", compatible, Ghost(start), Ghost(ws), Ghost(1))?;
        let reg: [u64; 2] = [self.start, SERIAL_MMIO_SIZE];
        assert(reg@ =~= seq![self.start, SERIAL_MMIO_SIZE]);
        put_cells64(fdt, "reg", reg.as_slice(), Ghost(start), Ghost(ws), Ghost(2))?;
        let irq_config: [u32; 3] = self.interrupt.fdt_config();
        put_cells32(fdt, "interrupts", irq_config.as_slice(), Ghost(start), Ghost(ws), Ghost(3))?;
        put_u32(fdt, "clock-frequency", 0x1C2000, Ghost(start), Ghost(ws), Ghost(4))?;
        put_end(fdt, node, Ghost(start), Ghost(ws), Ghost(5))?;
        proof {
            lemma_at_end(start, ws, fdt_items(*fdt));
        }
        Ok(())
    }
}

} // verus!
