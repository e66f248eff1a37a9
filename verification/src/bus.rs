//! The MMIO bus: a table of address ranges that do not overlap, each owned by a
//! device, and the routing of reads and writes to the device that owns an address.

use vstd::prelude::*;
use vm_fdt::FdtWriter;
use crate::fdt::FdtItem;
use crate::fdt::fdt_items;
use crate::fdt::FdtError;
use crate::text::decimal_digits;
use crate::text::push_decimal;
use crate::text::hex_digits;
use crate::text::push_hex;

verus! {

/// The address space occupied by a device: `len` bytes starting at `base`.
/// Ranges are ordered by their bases, and by their lengths where the bases
/// are the same; they are equal where both are the same.
#[derive(Copy, Clone, Debug, PartialEq, Eq, PartialOrd, Ord, Structural)]
pub struct BusRange {
    pub base: u64,
    pub len: u64,
}

impl BusRange {
    /// One past the last address of the range, as a mathematical integer.
    pub open spec fn end(self) -> int {
        self.base + self.len
    }

    /// Whether `addr` lies in the half-open interval `[base, base + len)`.
    pub open spec fn spec_contains(self, addr: u64) -> bool {
        self.base <= addr < self.end()
    }

    /// Whether the half-open intervals `[self.base, self.end())` and
    /// `[base, base + len)` intersect.
    pub open spec fn spec_overlaps(self, base: u64, len: u64) -> bool {
        self.base < base + len && base < self.end()
    }

    /// The range as it is shown: the base and, after `..+`, the length, both
    /// in hexadecimal.
    pub open spec fn shown(self) -> Seq<char> {
        "0x"@ + hex_digits(self.base as nat) + "..+0x"@ + hex_digits(self.len as nat)
    }

    /// The range as it is shown, such as `0x1000..+0x100`.
    pub fn to_string(&self) -> (s: String)
        ensures
            s@ == self.shown(),
    {
        let mut s = String::from_str("0x");
        push_hex(&mut s, self.base);
        s.append("..+0x");
        push_hex(&mut s, self.len);
        s
    }

    /// Returns true if `addr` is within the range.
    pub fn contains(&self, addr: u64) -> (r: bool)
        ensures
            r == self.spec_contains(addr),
    {
        self.base <= addr && addr - self.base < self.len
    }

    /// Returns true if there is overlap with the given range.
    pub fn overlaps(&self, base: u64, len: u64) -> (r: bool)
        ensures
            r == self.spec_overlaps(base, len),
    {
        if self.base <= base {
            base - self.base < self.len && (len > 0 || self.base < base)
        } else {
            self.base - base < len
        }
    }
}


/// Why a bus table refused a change.
#[derive(Debug, PartialEq, Eq, Structural)]
pub enum Error {
    /// No entry with exactly this base and length is in the table.
    Empty,
    /// The new range is empty (`other_len == 0`) or overlaps the range of an
    /// entry that is already in the table.
    Overlap { base: u64, len: u64, other_base: u64, other_len: u64 },
}

impl Error {
    /// The error in words, with the ranges that are in the way of each other.
    pub open spec fn message(&self) -> Seq<char> {
        match *self {
            Error::Empty => "Bus Range not found"@,
            Error::Overlap { base, len, other_base, other_len } => "new device "@ + decimal_digits(
                base as nat,
            ) + ","@ + decimal_digits(len as nat) + " overlaps with an old device "@ + decimal_digits(
                other_base as nat,
            ) + ","@ + decimal_digits(other_len as nat),
        }
    }

    /// The error in words.
    pub fn to_string(&self) -> (s: String)
        ensures
            s@ == self.message(),
    {
        match *self {
            Error::Empty => String::from_str("Bus Range not found"),
            Error::Overlap { base, len, other_base, other_len } => {
                let mut s = String::from_str("new device ");
                push_decimal(&mut s, base);
                s.append(",");
                push_decimal(&mut s, len);
                s.append(" overlaps with an old device ");
                push_decimal(&mut s, other_base);
                s.append(",");
                push_decimal(&mut s, other_len);
                s
            },
        }
    }
}

/// Who asks for an access.
#[derive(Copy, Clone, Debug, PartialEq, Eq, Structural)]
pub enum AccessId {
    VmmUserspace,
    Vcpu(u8),
}

/// Information about how a device was accessed.
#[derive(Copy, Clone, Debug, PartialEq, Eq, Structural)]
pub struct BusAccessInfo {
    /// Offset from base address that the device was accessed at.
    pub offset: u64,
    /// Absolute address of the device's access in its address space.
    pub address: u64,
    /// ID of the entity requesting a device access, usually the VCPU id.
    pub id: AccessId,
}

/// What a device reports when it cannot serve an access.
#[derive(Debug, PartialEq, Eq)]
pub enum DeviceError {
    /// The device does not take reads.
    UnhandledRead,
    /// The device does not take writes.
    UnhandledWrite,
    /// The device failed, for the reason given.
    Failed(String),
}

impl DeviceError {
    /// The error in words.
    pub open spec fn message(&self) -> Seq<char> {
        match *self {
            DeviceError::UnhandledRead => "Unhandled read"@,
            DeviceError::UnhandledWrite => "Unhandled write"@,
            DeviceError::Failed(reason) => reason@,
        }
    }

    /// The error in words.
    pub fn to_string(&self) -> (s: String)
        ensures
            s@ == self.message(),
    {
        match self {
            DeviceError::UnhandledRead => String::from_str("Unhandled read"),
            DeviceError::UnhandledWrite => String::from_str("Unhandled write"),
            DeviceError::Failed(reason) => reason.clone(),
        }
    }
}

/// A device that the bus serialises: the bus hands it out to one caller at a
/// time, so its handlers take `&mut self`.
///
/// What a device does is said by the relations below. Each of them admits
/// everything unless the device's implementation says more.
pub trait BusDevice: Sized {
    /// Whether `debug_label` may return `label`.
    open spec fn label_post(&self, label: Seq<char>) -> bool {
        true
    }

    /// What a read at `info` may do: the device becomes `next`, the buffer that
    /// held `before` holds `after`, and `r` is returned.
    open spec fn read_post(
        &self,
        info: BusAccessInfo,
        before: Seq<u8>,
        next: &Self,
        after: Seq<u8>,
        r: Result<(), DeviceError>,
    ) -> bool {
        true
    }

    /// What a write of `data` at `info` may do: the device becomes `next` and
    /// `r` is returned.
    open spec fn write_post(
        &self,
        info: BusAccessInfo,
        data: Seq<u8>,
        next: &Self,
        r: Result<(), DeviceError>,
    ) -> bool {
        true
    }

    /// Whether `memory_regions` may return `regions`: the extents of ordinary
    /// memory that the device reports, as pairs of address and size laid out
    /// one after the other.
    open spec fn regions_post(&self, regions: Option<Seq<u64>>) -> bool {
        true
    }

    /// Whether `gunyah_vdevice_config` may add `added` to the hypervisor's
    /// list of virtual devices.
    open spec fn vdevice_post(&self, added: Seq<FdtItem>) -> bool {
        true
    }

    /// Whether `device_config` may add `added` to the device tree of the
    /// guest.
    open spec fn device_post(&self, added: Seq<FdtItem>) -> bool {
        true
    }

    /// The label under which the bus reports a failure of this device.
    fn debug_label(&self) -> (s: String)
        ensures
            self.label_post(s@),
    ;

    /// Reads at `info.offset` from this device.
    fn read(&mut self, info: BusAccessInfo, data: &mut [u8]) -> (r: Result<(), DeviceError>)
        ensures
            final(data)@.len() == old(data)@.len(),
            old(self).read_post(info, old(data)@, final(self), final(data)@, r),
    ;

    /// Writes at `info.offset` into this device.
    fn write(&mut self, info: BusAccessInfo, data: &[u8]) -> (r: Result<(), DeviceError>)
        ensures
            old(self).write_post(info, data@, final(self), r),
    ;

    /// The extents of ordinary memory that the device reports, if any.
    fn memory_regions(&self) -> (r: Option<Vec<u64>>)
        ensures
            self.regions_post(
                match r {
                    Some(v) => Some(v@),
                    None => None,
                },
            ),
    ;

    /// Adds the device to the hypervisor's list of virtual devices. A device
    /// only appends to what the writer holds.
    fn gunyah_vdevice_config(&self, fdt: &mut FdtWriter) -> (r: Result<(), FdtError>)
        ensures
            r is Ok ==> exists|added: Seq<FdtItem>|
                #[trigger] self.vdevice_post(added) && fdt_items(*final(fdt)) == fdt_items(*old(fdt)) + added,
    ;

    /// Adds the device to the device tree of the guest. A device only appends
    /// to what the writer holds.
    fn device_config(&self, fdt: &mut FdtWriter) -> (r: Result<(), FdtError>)
        ensures
            r is Ok ==> exists|added: Seq<FdtItem>|
                #[trigger] self.device_post(added) && fdt_items(*final(fdt)) == fdt_items(*old(fdt)) + added,
    ;
}

/// A device that synchronises itself: the bus may call it from several threads
/// at once, so its handlers take `&self`.
pub trait BusDeviceSync: BusDevice {
    /// What a read at `info` may do: the buffer that held `before` holds
    /// `after`, and `r` is returned.
    open spec fn sync_read_post(
        &self,
        info: BusAccessInfo,
        before: Seq<u8>,
        after: Seq<u8>,
        r: Result<(), DeviceError>,
    ) -> bool {
        true
    }

    /// What a write of `data` at `info` may return.
    open spec fn sync_write_post(&self, info: BusAccessInfo, data: Seq<u8>, r: Result<(), DeviceError>) -> bool {
        true
    }

    /// Reads at `info.offset` from this device.
    fn read(&self, info: BusAccessInfo, data: &mut [u8]) -> (r: Result<(), DeviceError>)
        ensures
            final(data)@.len() == old(data)@.len(),
            self.sync_read_post(info, old(data)@, final(data)@, r),
    ;

    /// Writes at `info.offset` into this device.
    fn write(&self, info: BusAccessInfo, data: &[u8]) -> (r: Result<(), DeviceError>)
        ensures
            self.sync_write_post(info, data@, r),
    ;
}

/// How the bus keeps a device.
#[derive(Clone, Debug)]
pub enum BusDeviceEntry<O, I> {
    /// A device that the bus serialises.
    OuterSync(O),
    /// A device that synchronises itself.
    InnerSync(I),
}

/// One line of the bus table: a range and the device that owns it.
#[derive(Clone, Debug)]
pub struct BusEntry<O, I> {
    pub range: BusRange,
    pub device: BusDeviceEntry<O, I>,
}

/// Why an access through the bus failed.
#[derive(Debug, PartialEq, Eq)]
pub enum BusAccessError {
    /// No device owns the address.
    NoDevice,
    /// The device that owns the address failed; `label` is its debug label and
    /// `write` tells a write from a read.
    Device { label: String, write: bool, error: DeviceError },
}

impl BusAccessError {
    /// The error in words: that no device is there, or which device failed
    /// at what.
    pub open spec fn message(&self) -> Seq<char> {
        match *self {
            BusAccessError::NoDevice => "No device suitable"@,
            BusAccessError::Device { label, write, error } => label@ + if write {
                " failed to handle write"@
            } else {
                " failed to handle read"@
            },
        }
    }

    /// The error in words.
    pub fn to_string(&self) -> (s: String)
        ensures
            s@ == self.message(),
    {
        match self {
            BusAccessError::NoDevice => String::from_str("No device suitable"),
            BusAccessError::Device { label, write, error } => {
                let mut s = label.clone();
                if *write {
                    s.append(" failed to handle write");
                } else {
                    s.append(" failed to handle read");
                }
                s
            },
        }
    }
}

/// A device container for routing reads and writes over some address space.
///
/// No two devices overlap in this address space.
pub struct Bus<O, I> {
    devices: Vec<BusEntry<O, I>>,
    access_id: AccessId,
}

/// The entries are in ascending order of base, none is empty, and each ends
/// before the next begins.
pub open spec fn ordered<O, I>(s: Seq<BusEntry<O, I>>) -> bool {
    &&& forall|i: int| 0 <= i < s.len() ==> (#[trigger] s[i]).range.len > 0
    &&& forall|i: int, j: int|
        0 <= i < j < s.len() ==> (#[trigger] s[i]).range.end() <= (#[trigger] s[j]).range.base
}

/// Whether `label` may be the debug label of the device of an entry.
pub open spec fn entry_label_post<O: BusDevice, I: BusDeviceSync>(dev: BusDeviceEntry<O, I>, label: Seq<char>) -> bool {
    match dev {
        BusDeviceEntry::OuterSync(d) => d.label_post(label),
        BusDeviceEntry::InnerSync(d) => d.label_post(label),
    }
}

/// Whether the result `r` of the bus is the result `dr` of the device `dev`,
/// with a failure wrapped together with the device's label.
pub open spec fn wrapped<O: BusDevice, I: BusDeviceSync>(
    dr: Result<(), DeviceError>,
    dev: BusDeviceEntry<O, I>,
    write: bool,
    r: Result<(), BusAccessError>,
) -> bool {
    match dr {
        Ok(()) => r is Ok,
        Err(e) => r matches Err(BusAccessError::Device { label: l, write: w, error })
            && entry_label_post(dev, l@) && w == write && error == e,
    }
}

/// What a read through the entry `dev` may do.
pub open spec fn entry_read<O: BusDevice, I: BusDeviceSync>(
    dev: BusDeviceEntry<O, I>,
    info: BusAccessInfo,
    before: Seq<u8>,
    next: BusDeviceEntry<O, I>,
    after: Seq<u8>,
    r: Result<(), BusAccessError>,
) -> bool {
    match (dev, next) {
        (BusDeviceEntry::OuterSync(d), BusDeviceEntry::OuterSync(n)) => exists|
            dr: Result<(), DeviceError>,
        |
            d.read_post(info, before, &n, after, dr) && wrapped(dr, next, false, r),
        (BusDeviceEntry::InnerSync(d), BusDeviceEntry::InnerSync(n)) => n == d && exists|
            dr: Result<(), DeviceError>,
        |
            d.sync_read_post(info, before, after, dr) && wrapped(dr, next, false, r),
        _ => false,
    }
}

/// What a write through the entry `dev` may do.
pub open spec fn entry_write<O: BusDevice, I: BusDeviceSync>(
    dev: BusDeviceEntry<O, I>,
    info: BusAccessInfo,
    data: Seq<u8>,
    next: BusDeviceEntry<O, I>,
    r: Result<(), BusAccessError>,
) -> bool {
    match (dev, next) {
        (BusDeviceEntry::OuterSync(d), BusDeviceEntry::OuterSync(n)) => exists|
            dr: Result<(), DeviceError>,
        |
            d.write_post(info, data, &n, dr) && wrapped(dr, next, true, r),
        (BusDeviceEntry::InnerSync(d), BusDeviceEntry::InnerSync(n)) => n == d && exists|
            dr: Result<(), DeviceError>,
        |
            d.sync_write_post(info, data, dr) && wrapped(dr, next, true, r),
        _ => false,
    }
}

impl<O: BusDevice, I: BusDeviceSync> Default for Bus<O, I> {
    fn default() -> (bus: Self)
        ensures
            bus.wf(),
            bus.entries().len() == 0,
            bus.accessor() == AccessId::VmmUserspace,
    {
        Bus::new()
    }
}

impl<O: BusDevice, I: BusDeviceSync> BusDeviceEntry<O, I> {
    /// Reads through the entry: a device that the bus serialises is called
    /// through the exclusive borrow that the caller holds, a device that
    /// synchronises itself through its own handler. A failure is wrapped
    /// together with the device's label.
    pub fn read(&mut self, info: BusAccessInfo, data: &mut [u8]) -> (r: Result<(), BusAccessError>)
        ensures
            final(data)@.len() == old(data)@.len(),
            entry_read(*old(self), info, old(data)@, *final(self), final(data)@, r),
    {
        let ghost mut dr: Result<(), DeviceError> = Ok(());
        let r = match self {
            BusDeviceEntry::OuterSync(dev) => {
                let res = dev.read(info, data);
                proof {
                    dr = res;
                }
                match res {
                    Ok(()) => Ok(()),
                    Err(error) => Err(BusAccessError::Device { label: dev.debug_label(), write: false, error }),
                }
            },
            BusDeviceEntry::InnerSync(dev) => {
                let res = BusDeviceSync::read(&*dev, info, data);
                proof {
                    dr = res;
                }
                match res {
                    Ok(()) => Ok(()),
                    Err(error) => Err(BusAccessError::Device { label: dev.debug_label(), write: false, error }),
                }
            },
        };
        let ghost before = *old(self);
        let ghost now = *self;
        proof {
            match (before, now) {
                (BusDeviceEntry::OuterSync(d), BusDeviceEntry::OuterSync(n)) => {
                    assert(d.read_post(info, old(data)@, &n, data@, dr));
                    assert(wrapped(dr, now, false, r));
                },
                (BusDeviceEntry::InnerSync(d), BusDeviceEntry::InnerSync(n)) => {
                    assert(n == d);
                    assert(d.sync_read_post(info, old(data)@, data@, dr));
                    assert(wrapped(dr, now, false, r));
                },
                _ => {
                    assert(false);
                },
            }
        }
        r
    }

    /// Writes through the entry, as `read` reads through it.
    pub fn write(&mut self, info: BusAccessInfo, data: &[u8]) -> (r: Result<(), BusAccessError>)
        ensures
            entry_write(*old(self), info, data@, *final(self), r),
    {
        let ghost mut dr: Result<(), DeviceError> = Ok(());
        let r = match self {
            BusDeviceEntry::OuterSync(dev) => {
                let res = dev.write(info, data);
                proof {
                    dr = res;
                }
                match res {
                    Ok(()) => Ok(()),
                    Err(error) => Err(BusAccessError::Device { label: dev.debug_label(), write: true, error }),
                }
            },
            BusDeviceEntry::InnerSync(dev) => {
                let res = BusDeviceSync::write(&*dev, info, data);
                proof {
                    dr = res;
                }
                match res {
                    Ok(()) => Ok(()),
                    Err(error) => Err(BusAccessError::Device { label: dev.debug_label(), write: true, error }),
                }
            },
        };
        let ghost before = *old(self);
        let ghost now = *self;
        proof {
            match (before, now) {
                (BusDeviceEntry::OuterSync(d), BusDeviceEntry::OuterSync(n)) => {
                    assert(d.write_post(info, data@, &n, dr));
                    assert(wrapped(dr, now, true, r));
                },
                (BusDeviceEntry::InnerSync(d), BusDeviceEntry::InnerSync(n)) => {
                    assert(n == d);
                    assert(d.sync_write_post(info, data@, dr));
                    assert(wrapped(dr, now, true, r));
                },
                _ => {
                    assert(false);
                },
            }
        }
        r
    }
}

impl<O: BusDevice, I: BusDeviceSync> Bus<O, I> {
    /// The table, in ascending order of base.
    pub closed spec fn entries(&self) -> Seq<BusEntry<O, I>> {
        self.devices@
    }

    /// The identity that accesses through this bus carry.
    pub closed spec fn accessor(&self) -> AccessId {
        self.access_id
    }

    /// This bus with another identity.
    pub closed spec fn with_accessor(&self, id: AccessId) -> Self {
        Bus { devices: self.devices, access_id: id }
    }

    /// Another identity changes nothing but the identity.
    pub proof fn lemma_with_accessor(&self, id: AccessId)
        ensures
            self.with_accessor(id).entries() == self.entries(),
            self.with_accessor(id).accessor() == id,
            self.with_accessor(id).wf() == self.wf(),
            id == self.accessor() ==> self.with_accessor(id) == *self,
    {
    }

    /// The invariant of the table: see `ordered`.
    pub open spec fn wf(&self) -> bool {
        ordered(self.entries())
    }

    /// Whether some entry's range contains `addr`.
    pub open spec fn owned(&self, addr: u64) -> bool {
        exists|i: int| 0 <= i < self.entries().len() && (#[trigger] self.entries()[i]).range.spec_contains(addr)
    }

    /// The index of the entry whose range contains `addr`, where there is one.
    pub open spec fn owner(&self, addr: u64) -> int {
        choose|i: int| 0 <= i < self.entries().len() && (#[trigger] self.entries()[i]).range.spec_contains(addr)
    }

    /// What accesses at `addr` are handed to the device at index `i`.
    pub open spec fn info_at(&self, i: int, addr: u64) -> BusAccessInfo {
        BusAccessInfo {
            offset: (addr - self.entries()[i].range.base) as u64,
            address: addr,
            id: self.accessor(),
        }
    }

    /// Whether `next` is this bus but for the device at index `i`.
    pub open spec fn same_but(&self, i: int, next: &Self) -> bool {
        &&& next.accessor() == self.accessor()
        &&& next.entries().len() == self.entries().len()
        &&& next.entries()[i].range == self.entries()[i].range
        &&& forall|j: int|
            0 <= j < self.entries().len() && j != i ==> #[trigger] next.entries()[j] == self.entries()[j]
    }

    /// What `read` may do to the bus and to the buffer, and what it returns.
    pub open spec fn read_post(
        &self,
        addr: u64,
        before: Seq<u8>,
        next: &Self,
        after: Seq<u8>,
        r: Result<(), BusAccessError>,
    ) -> bool {
        if self.owned(addr) {
            let i = self.owner(addr);
            &&& self.same_but(i, next)
            &&& entry_read(
                self.entries()[i].device,
                self.info_at(i, addr),
                before,
                next.entries()[i].device,
                after,
                r,
            )
        } else {
            &&& next.entries() == self.entries()
            &&& next.accessor() == self.accessor()
            &&& after == before
            &&& r matches Err(BusAccessError::NoDevice)
        }
    }

    /// What `write` may do to the bus, and what it returns.
    pub open spec fn write_post(
        &self,
        addr: u64,
        data: Seq<u8>,
        next: &Self,
        r: Result<(), BusAccessError>,
    ) -> bool {
        if self.owned(addr) {
            let i = self.owner(addr);
            &&& self.same_but(i, next)
            &&& entry_write(
                self.entries()[i].device,
                self.info_at(i, addr),
                data,
                next.entries()[i].device,
                r,
            )
        } else {
            &&& next.entries() == self.entries()
            &&& next.accessor() == self.accessor()
            &&& r matches Err(BusAccessError::NoDevice)
        }
    }

    /// Constructs a bus with an empty address space.
    pub fn new() -> (bus: Self)
        ensures
            bus.wf(),
            bus.entries().len() == 0,
            bus.accessor() == AccessId::VmmUserspace,
    {
        Bus { devices: Vec::new(), access_id: AccessId::VmmUserspace }
    }

    /// Sets the id that will be used for `BusAccessInfo`.
    pub fn set_access_id(&mut self, id: AccessId)
        ensures
            *final(self) == old(self).with_accessor(id),
            final(self).entries() == old(self).entries(),
            final(self).accessor() == id,
    {
        self.access_id = id;
    }

    /// The id that accesses through this bus carry.
    pub fn access_id(&self) -> (id: AccessId)
        ensures
            id == self.accessor(),
    {
        self.access_id
    }

    /// The number of entries.
    pub fn len(&self) -> (n: usize)
        ensures
            n == self.entries().len(),
    {
        self.devices.len()
    }

    /// The range of the entry at index `i` in ascending order of base.
    pub fn range_at(&self, i: usize) -> (r: Option<BusRange>)
        ensures
            i < self.entries().len() ==> r == Some(self.entries()[i as int].range),
            i >= self.entries().len() ==> r is None,
    {
        if i < self.devices.len() {
            Some(self.devices[i].range)
        } else {
            None
        }
    }

    /// The index of the entry with the greatest base that is not above
    /// `addr`, or `None` where every base is above it.
    fn first_before(&self, addr: u64) -> (r: Option<usize>)
        requires
            self.wf(),
        ensures
            match r {
                Some(k) => k < self.entries().len() && self.entries()[k as int].range.base <= addr
                    && forall|j: int|
                    k < j < self.entries().len() ==> (#[trigger] self.entries()[j]).range.base > addr,
                None => forall|j: int|
                    0 <= j < self.entries().len() ==> (#[trigger] self.entries()[j]).range.base > addr,
            },
    {
        let mut lo: usize = 0;
        let mut hi: usize = self.devices.len();
        while lo < hi
            invariant
                self.wf(),
                0 <= lo <= hi <= self.devices.len(),
                forall|j: int| 0 <= j < lo ==> (#[trigger] self.entries()[j]).range.base <= addr,
                forall|j: int|
                    hi <= j < self.entries().len() ==> (#[trigger] self.entries()[j]).range.base > addr,
            decreases hi - lo,
        {
            let mid: usize = lo + (hi - lo) / 2;
            if self.devices[mid].range.base <= addr {
                lo = mid + 1;
            } else {
                hi = mid;
            }
        }
        if lo == 0 {
            None
        } else {
            Some(lo - 1)
        }
    }

    /// At most one entry's range contains an address.
    pub proof fn lemma_owner_unique(&self, addr: u64, i: int, j: int)
        requires
            self.wf(),
            0 <= i < self.entries().len(),
            0 <= j < self.entries().len(),
            self.entries()[i].range.spec_contains(addr),
            self.entries()[j].range.spec_contains(addr),
        ensures
            i == j,
    {
        if i < j {
            assert(self.entries()[i].range.end() <= self.entries()[j].range.base);
        } else if j < i {
            assert(self.entries()[j].range.end() <= self.entries()[i].range.base);
        }
    }

    /// Finds the device that owns `addr`: the offset of `addr` in the device's
    /// range, `addr` itself, and the device.
    pub fn get_device(&self, addr: u64) -> (r: Option<(u64, u64, &BusDeviceEntry<O, I>)>)
        requires
            self.wf(),
        ensures
            r is Some == self.owned(addr),
            r matches Some((offset, address, device)) ==> {
                &&& offset == addr - self.entries()[self.owner(addr)].range.base
                &&& address == addr
                &&& *device == self.entries()[self.owner(addr)].device
            },
    {
        match self.first_before(addr) {
            Some(k) => {
                let offset: u64 = addr - self.devices[k].range.base;
                if offset < self.devices[k].range.len {
                    proof {
                        assert(self.entries()[k as int].range.spec_contains(addr));
                        self.lemma_owner_unique(addr, k as int, self.owner(addr));
                    }
                    Some((offset, addr, &self.devices[k].device))
                } else {
                    proof {
                        assert forall|i: int| 0 <= i < self.entries().len() implies !(
                        #[trigger] self.entries()[i]).range.spec_contains(addr) by {
                            if i < k {
                                assert(self.entries()[i].range.end() <= self.entries()[k as int].range.base);
                            }
                        }
                    }
                    None
                }
            },
            None => None,
        }
    }

    /// The index of the first entry, in ascending order of base, that overlaps
    /// the range of `len` bytes at `base`.
    fn first_overlap(&self, base: u64, len: u64) -> (r: Option<usize>)
        ensures
            match r {
                Some(k) => k < self.entries().len() && self.entries()[k as int].range.spec_overlaps(base, len)
                    && forall|j: int| 0 <= j < k ==> !(#[trigger] self.entries()[j]).range.spec_overlaps(base, len),
                None => forall|j: int|
                    0 <= j < self.entries().len() ==> !(#[trigger] self.entries()[j]).range.spec_overlaps(
                        base,
                        len,
                    ),
            },
    {
        let mut i: usize = 0;
        while i < self.devices.len()
            invariant
                0 <= i <= self.devices.len(),
                forall|j: int| 0 <= j < i ==> !(#[trigger] self.entries()[j]).range.spec_overlaps(base, len),
            decreases self.devices.len() - i,
        {
            if self.devices[i].range.overlaps(base, len) {
                return Some(i);
            }
            i += 1;
        }
        None
    }

    /// Whether the range of `len` bytes at `base` overlaps the range of an
    /// entry.
    pub open spec fn overlapped(&self, base: u64, len: u64) -> bool {
        exists|j: int|
            0 <= j < self.entries().len() && (#[trigger] self.entries()[j]).range.spec_overlaps(base, len)
    }

    /// What `insert` and `insert_sync` do with the entry `device`: an empty
    /// range and a range that overlaps an entry's are refused, with the first
    /// such entry in ascending order of base; else the entry is put where
    /// its base belongs.
    pub open spec fn insert_post(
        &self,
        device: BusDeviceEntry<O, I>,
        base: u64,
        len: u64,
        next: &Self,
        r: Result<(), Error>,
    ) -> bool {
        let s = self.entries();
        &&& next.accessor() == self.accessor()
        &&& r is Ok == (len > 0 && !self.overlapped(base, len))
        &&& match r {
            Ok(()) => {
                &&& len > 0
                &&& forall|j: int| 0 <= j < s.len() ==> !(#[trigger] s[j]).range.spec_overlaps(base, len)
                &&& exists|k: int|
                    0 <= k <= s.len() && #[trigger] s.insert(
                        k,
                        BusEntry { range: BusRange { base, len }, device },
                    ) == next.entries()
            },
            Err(e) => {
                &&& next.entries() == s
                &&& if len == 0 {
                    e == (Error::Overlap { base, len, other_base: 0, other_len: 0 })
                } else {
                    exists|k: int|
                        {
                            &&& 0 <= k < s.len()
                            &&& (#[trigger] s[k]).range.spec_overlaps(base, len)
                            &&& forall|j: int| 0 <= j < k ==> !(#[trigger] s[j]).range.spec_overlaps(base, len)
                            &&& e == (Error::Overlap {
                                base,
                                len,
                                other_base: s[k].range.base,
                                other_len: s[k].range.len,
                            })
                        }
                }
            },
        }
    }

    fn insert_entry(&mut self, device: BusDeviceEntry<O, I>, base: u64, len: u64) -> (r: Result<(), Error>)
        requires
            old(self).wf(),
        ensures
            final(self).wf(),
            old(self).insert_post(device, base, len, final(self), r),
    {
        if len == 0 {
            return Err(Error::Overlap { base, len, other_base: 0, other_len: 0 });
        }
        // Reject all cases where the new device's range overlaps with an existing device.
        match self.first_overlap(base, len) {
            Some(k) => {
                let other: BusRange = self.devices[k].range;
                return Err(Error::Overlap { base, len, other_base: other.base, other_len: other.len });
            },
            None => {},
        }
        let n: usize = self.devices.len();
        let at: usize = match self.first_before(base) {
            Some(k) => {
                assert(k < n);
                k + 1
            },
            None => 0,
        };
        let ghost s = self.entries();
        let entry = BusEntry { range: BusRange { base, len }, device };
        self.devices.insert(at, entry);
        proof {
            let t = self.entries();
            assert(t == s.insert(at as int, entry));
            assert forall|i: int, j: int| 0 <= i < j < t.len() implies (#[trigger] t[i]).range.end() <= (
            #[trigger] t[j]).range.base by {
                if j == at {
                    assert(!s[i].range.spec_overlaps(base, len));
                    assert(s[i].range.base <= base);
                } else if i == at {
                    assert(!s[j - 1].range.spec_overlaps(base, len));
                    assert(s[j - 1].range.base > base);
                } else {
                    let a = if i < at { i } else { i - 1 };
                    let b = if j < at { j } else { j - 1 };
                    assert(s[a].range.end() <= s[b].range.base);
                }
            }
            assert forall|i: int| 0 <= i < t.len() implies (#[trigger] t[i]).range.len > 0 by {
                if i < at {
                    assert(t[i] == s[i]);
                } else if i > at {
                    assert(t[i] == s[i - 1]);
                }
            }
        }
        Ok(())
    }

    /// Puts the given device at the given address space.
    pub fn insert(&mut self, device: O, base: u64, len: u64) -> (r: Result<(), Error>)
        requires
            old(self).wf(),
        ensures
            final(self).wf(),
            old(self).insert_post(BusDeviceEntry::OuterSync(device), base, len, final(self), r),
    {
        self.insert_entry(BusDeviceEntry::OuterSync(device), base, len)
    }

    /// Puts the given device that synchronises itself at the given address
    /// space.
    pub fn insert_sync(&mut self, device: I, base: u64, len: u64) -> (r: Result<(), Error>)
        requires
            old(self).wf(),
        ensures
            final(self).wf(),
            old(self).insert_post(BusDeviceEntry::InnerSync(device), base, len, final(self), r),
    {
        self.insert_entry(BusDeviceEntry::InnerSync(device), base, len)
    }

    /// Whether an entry with exactly this range is in the table.
    pub open spec fn has_range(&self, base: u64, len: u64) -> bool {
        exists|k: int| 0 <= k < self.entries().len() && (#[trigger] self.entries()[k]).range == (BusRange { base, len })
    }

    /// Whether an entry with exactly the given range is in the table.
    pub fn contains_range(&self, base: u64, len: u64) -> (r: bool)
        requires
            self.wf(),
        ensures
            r == self.has_range(base, len),
    {
        match self.first_before(base) {
            Some(k) => {
                let found: BusRange = self.devices[k].range;
                if found.base == base && found.len == len {
                    assert(self.entries()[k as int].range == (BusRange { base, len }));
                    true
                } else {
                    proof {
                        assert forall|i: int| 0 <= i < self.entries().len() implies (
                        #[trigger] self.entries()[i]).range != (BusRange { base, len }) by {
                            if i < k {
                                assert(self.entries()[i].range.end() <= self.entries()[k as int].range.base);
                            }
                        }
                    }
                    false
                }
            },
            None => false,
        }
    }

    /// Removes the device at exactly the given range.
    pub fn remove(&mut self, base: u64, len: u64) -> (r: Result<(), Error>)
        requires
            old(self).wf(),
        ensures
            final(self).wf(),
            final(self).accessor() == old(self).accessor(),
            r is Ok == old(self).has_range(base, len),
            r matches Err(e) ==> e == Error::Empty && final(self).entries() == old(self).entries(),
            r is Ok ==> exists|k: int|
                {
                    &&& 0 <= k < old(self).entries().len()
                    &&& (#[trigger] old(self).entries()[k]).range == (BusRange { base, len })
                    &&& final(self).entries() == old(self).entries().remove(k)
                },
    {
        match self.first_before(base) {
            Some(k) => {
                let found: BusRange = self.devices[k].range;
                if found.base == base && found.len == len {
                    let ghost s = self.entries();
                    let _ = self.devices.remove(k);
                    proof {
                        let t = self.entries();
                        assert(t == s.remove(k as int));
                        assert forall|i: int, j: int| 0 <= i < j < t.len() implies (#[trigger] t[i]).range.end()
                            <= (#[trigger] t[j]).range.base by {
                            let a = if i < k { i } else { i + 1 };
                            let b = if j < k { j } else { j + 1 };
                            assert(s[a].range.end() <= s[b].range.base);
                        }
                        assert forall|i: int| 0 <= i < t.len() implies (#[trigger] t[i]).range.len > 0 by {
                            let a = if i < k { i } else { i + 1 };
                            assert(t[i] == s[a]);
                        }
                        assert(s[k as int].range == (BusRange { base, len }));
                    }
                    Ok(())
                } else {
                    proof {
                        assert forall|i: int| 0 <= i < self.entries().len() implies (
                        #[trigger] self.entries()[i]).range != (BusRange { base, len }) by {
                            if i < k {
                                assert(self.entries()[i].range.end() <= self.entries()[k as int].range.base);
                            }
                        }
                    }
                    Err(Error::Empty)
                }
            },
            None => Err(Error::Empty),
        }
    }

    /// Reads data from the device that owns the range containing `addr` and
    /// puts it into `data`.
    pub fn read(&mut self, addr: u64, data: &mut [u8]) -> (r: Result<(), BusAccessError>)
        requires
            old(self).wf(),
        ensures
            final(self).wf(),
            final(data)@.len() == old(data)@.len(),
            old(self).read_post(addr, old(data)@, final(self), final(data)@, r),
    {
        let found: Option<usize> = self.first_before(addr);
        let k: usize = match found {
            Some(k) => k,
            None => {
                return Err(BusAccessError::NoDevice);
            },
        };
        let range: BusRange = self.devices[k].range;
        let offset: u64 = addr - range.base;
        if offset >= range.len {
            proof {
                assert forall|i: int| 0 <= i < self.entries().len() implies !(
                #[trigger] self.entries()[i]).range.spec_contains(addr) by {
                    if i < k {
                        assert(self.entries()[i].range.end() <= self.entries()[k as int].range.base);
                    }
                }
            }
            return Err(BusAccessError::NoDevice);
        }
        proof {
            assert(self.entries()[k as int].range.spec_contains(addr));
            self.lemma_owner_unique(addr, k as int, self.owner(addr));
        }
        let io = BusAccessInfo { address: addr, offset, id: self.access_id };
        let ghost s = self.entries();
        let r = self.devices[k].device.read(io, data);
        proof {
            let t = self.entries();
            assert(t.len() == s.len());
            assert(t[k as int].range == s[k as int].range);
            assert forall|j: int| 0 <= j < s.len() && j != k implies #[trigger] t[j] == s[j] by {}
            assert(io == old(self).info_at(k as int, addr));
            assert(old(self).same_but(k as int, self));
            assert forall|i: int, j: int| 0 <= i < j < t.len() implies (#[trigger] t[i]).range.end() <= (
            #[trigger] t[j]).range.base by {
                assert(s[i].range.end() <= s[j].range.base);
            }
            assert forall|i: int| 0 <= i < t.len() implies (#[trigger] t[i]).range.len > 0 by {
                assert(s[i].range.len > 0);
            }
        }
        r
    }

    /// Writes `data` to the device that owns the range containing `addr`.
    pub fn write(&mut self, addr: u64, data: &[u8]) -> (r: Result<(), BusAccessError>)
        requires
            old(self).wf(),
        ensures
            final(self).wf(),
            old(self).write_post(addr, data@, final(self), r),
    {
        let found: Option<usize> = self.first_before(addr);
        let k: usize = match found {
            Some(k) => k,
            None => {
                return Err(BusAccessError::NoDevice);
            },
        };
        let range: BusRange = self.devices[k].range;
        let offset: u64 = addr - range.base;
        if offset >= range.len {
            proof {
                assert forall|i: int| 0 <= i < self.entries().len() implies !(
                #[trigger] self.entries()[i]).range.spec_contains(addr) by {
                    if i < k {
                        assert(self.entries()[i].range.end() <= self.entries()[k as int].range.base);
                    }
                }
            }
            return Err(BusAccessError::NoDevice);
        }
        proof {
            assert(self.entries()[k as int].range.spec_contains(addr));
            self.lemma_owner_unique(addr, k as int, self.owner(addr));
        }
        let io = BusAccessInfo { address: addr, offset, id: self.access_id };
        let ghost s = self.entries();
        let r = self.devices[k].device.write(io, data);
        proof {
            let t = self.entries();
            assert(t.len() == s.len());
            assert(t[k as int].range == s[k as int].range);
            assert forall|j: int| 0 <= j < s.len() && j != k implies #[trigger] t[j] == s[j] by {}
            assert(io == old(self).info_at(k as int, addr));
            assert(old(self).same_but(k as int, self));
            assert forall|i: int, j: int| 0 <= i < j < t.len() implies (#[trigger] t[i]).range.end() <= (
            #[trigger] t[j]).range.base by {
                assert(s[i].range.end() <= s[j].range.base);
            }
            assert forall|i: int| 0 <= i < t.len() implies (#[trigger] t[i]).range.len > 0 by {
                assert(s[i].range.len > 0);
            }
        }
        r
    }

    /// The extents of ordinary memory that the devices report, in ascending
    /// order of the devices' bases.
    pub fn list_memory_regions(&self) -> (v: Vec<u64>)
        ensures
            regions_listed(self.entries(), v@),
    {
        let mut vec: Vec<u64> = Vec::new();
        let mut i: usize = 0;
        while i < self.devices.len()
            invariant
                0 <= i <= self.devices.len(),
                regions_listed(self.entries().take(i as int), vec@),
            decreases self.devices.len() - i,
        {
            let regions: Option<Vec<u64>> = match &self.devices[i].device {
                BusDeviceEntry::OuterSync(dev) => dev.memory_regions(),
                BusDeviceEntry::InnerSync(dev) => dev.memory_regions(),
            };
            let ghost head = vec@;
            let ghost last: Option<Seq<u64>> = if regions is Some {
                Some(regions->Some_0@)
            } else {
                None
            };
            if let Some(mut regions) = regions {
                vec.append(&mut regions);
            }
            proof {
                let s = self.entries();
                assert(s.take(i + 1).drop_last() == s.take(i as int));
                assert(s.take(i + 1).last() == s[i as int]);
                assert(entry_regions_post(s[i as int].device, last));
                assert(vec@ =~= head + reported(last));
                lemma_regions_step(s.take(i + 1), head, last);
            }
            i += 1;
        }
        proof {
            assert(self.entries().take(i as int) == self.entries());
        }
        vec
    }

    /// Lets each device, in ascending order of base, add itself to the
    /// hypervisor's list of virtual devices. Stops at the first failure.
    pub fn generate_gunyah_vdevice_config(&self, fdt: &mut FdtWriter) -> (r: Result<(), FdtError>)
        ensures
            devices_ran(self.entries(), true, fdt_items(*old(fdt)), fdt_items(*final(fdt)), r is Ok),
            r is Ok ==> exists|added: Seq<FdtItem>|
                #[trigger] vdevice_written(self.entries(), added) && fdt_items(*final(fdt)) == fdt_items(
                    *old(fdt),
                ) + added,
    {
        let mut i: usize = 0;
        let ghost mut written: Seq<FdtItem> = Seq::empty();
        proof {
            assert(fdt_items(*fdt) =~= fdt_items(*old(fdt)) + written);
            assert(self.entries().take(0).len() == 0);
        }
        while i < self.devices.len()
            invariant
                0 <= i <= self.devices.len(),
                vdevice_written(self.entries().take(i as int), written),
                devices_ran(self.entries().take(i as int), true, fdt_items(*old(fdt)), fdt_items(*fdt), true),
                fdt_items(*fdt) == fdt_items(*old(fdt)) + written,
            decreases self.devices.len() - i,
        {
            let ghost before = fdt_items(*fdt);
            let ghost mut added: Seq<FdtItem> = Seq::empty();
            let res = match &self.devices[i].device {
                BusDeviceEntry::OuterSync(dev) => {
                    let res = dev.gunyah_vdevice_config(fdt);
                    proof {
                        if res is Ok {
                            added = choose|added: Seq<FdtItem>|
                                #[trigger] dev.vdevice_post(added) && fdt_items(*fdt) == before + added;
                        }
                    }
                    res
                },
                BusDeviceEntry::InnerSync(dev) => {
                    let res = dev.gunyah_vdevice_config(fdt);
                    proof {
                        if res is Ok {
                            added = choose|added: Seq<FdtItem>|
                                #[trigger] dev.vdevice_post(added) && fdt_items(*fdt) == before + added;
                        }
                    }
                    res
                },
            };
            proof {
                let s = self.entries();
                assert(s.take(i + 1).drop_last() == s.take(i as int));
                assert(s.take(i + 1).last() == s[i as int]);
                if res is Ok {
                    assert(entry_config_post(s[i as int].device, true, added));
                }
                lemma_ran_step(
                    s.take(i + 1),
                    true,
                    fdt_items(*old(fdt)),
                    before,
                    fdt_items(*fdt),
                    res is Ok,
                );
                if res is Err {
                    lemma_ran_failed(s, true, i + 1, fdt_items(*old(fdt)), fdt_items(*fdt));
                }
            }
            if let Err(e) = res {
                return Err(e);
            }
            proof {
                let s = self.entries();
                assert(entry_vdevice_post(s[i as int].device, added));
                lemma_vdevice_step(s.take(i + 1), written, added);
                assert(fdt_items(*fdt) =~= fdt_items(*old(fdt)) + (written + added));
                written = written + added;
            }
            i += 1;
        }
        proof {
            assert(self.entries().take(i as int) == self.entries());
        }
        Ok(())
    }

    /// Lets each device, in ascending order of base, add itself to the device
    /// tree of the guest. Stops at the first failure.
    pub fn generate_device_config(&self, fdt: &mut FdtWriter) -> (r: Result<(), FdtError>)
        ensures
            devices_ran(self.entries(), false, fdt_items(*old(fdt)), fdt_items(*final(fdt)), r is Ok),
            r is Ok ==> exists|added: Seq<FdtItem>|
                #[trigger] device_written(self.entries(), added) && fdt_items(*final(fdt)) == fdt_items(
                    *old(fdt),
                ) + added,
    {
        let mut i: usize = 0;
        let ghost mut written: Seq<FdtItem> = Seq::empty();
        proof {
            assert(fdt_items(*fdt) =~= fdt_items(*old(fdt)) + written);
            assert(self.entries().take(0).len() == 0);
        }
        while i < self.devices.len()
            invariant
                0 <= i <= self.devices.len(),
                device_written(self.entries().take(i as int), written),
                devices_ran(self.entries().take(i as int), false, fdt_items(*old(fdt)), fdt_items(*fdt), true),
                fdt_items(*fdt) == fdt_items(*old(fdt)) + written,
            decreases self.devices.len() - i,
        {
            let ghost before = fdt_items(*fdt);
            let ghost mut added: Seq<FdtItem> = Seq::empty();
            let res = match &self.devices[i].device {
                BusDeviceEntry::OuterSync(dev) => {
                    let res = dev.device_config(fdt);
                    proof {
                        if res is Ok {
                            added = choose|added: Seq<FdtItem>|
                                #[trigger] dev.device_post(added) && fdt_items(*fdt) == before + added;
                        }
                    }
                    res
                },
                BusDeviceEntry::InnerSync(dev) => {
                    let res = dev.device_config(fdt);
                    proof {
                        if res is Ok {
                            added = choose|added: Seq<FdtItem>|
                                #[trigger] dev.device_post(added) && fdt_items(*fdt) == before + added;
                        }
                    }
                    res
                },
            };
            proof {
                let s = self.entries();
                assert(s.take(i + 1).drop_last() == s.take(i as int));
                assert(s.take(i + 1).last() == s[i as int]);
                if res is Ok {
                    assert(entry_config_post(s[i as int].device, false, added));
                }
                lemma_ran_step(
                    s.take(i + 1),
                    false,
                    fdt_items(*old(fdt)),
                    before,
                    fdt_items(*fdt),
                    res is Ok,
                );
                if res is Err {
                    lemma_ran_failed(s, false, i + 1, fdt_items(*old(fdt)), fdt_items(*fdt));
                }
            }
            if let Err(e) = res {
                return Err(e);
            }
            proof {
                let s = self.entries();
                assert(entry_device_post(s[i as int].device, added));
                lemma_device_step(s.take(i + 1), written, added);
                assert(fdt_items(*fdt) =~= fdt_items(*old(fdt)) + (written + added));
                written = written + added;
            }
            i += 1;
        }
        proof {
            assert(self.entries().take(i as int) == self.entries());
        }
        Ok(())
    }
}

/// Names a way to part what the devices of a table give into what the last
/// device gives and what the devices before it give. It holds of every such
/// way.
pub open spec fn parted<A, B>(head: A, last: B) -> bool {
    true
}

/// Whether the device of an entry may report `regions`.
pub open spec fn entry_regions_post<O: BusDevice, I: BusDeviceSync>(
    dev: BusDeviceEntry<O, I>,
    regions: Option<Seq<u64>>,
) -> bool {
    match dev {
        BusDeviceEntry::OuterSync(d) => d.regions_post(regions),
        BusDeviceEntry::InnerSync(d) => d.regions_post(regions),
    }
}

/// The extents that a device reports: none where it reports nothing.
pub open spec fn reported(regions: Option<Seq<u64>>) -> Seq<u64> {
    match regions {
        Some(r) => r,
        None => Seq::empty(),
    }
}

/// Whether `v` is what the devices of `s` may report, one after the other.
pub open spec fn regions_listed<O: BusDevice, I: BusDeviceSync>(s: Seq<BusEntry<O, I>>, v: Seq<u64>) -> bool
    decreases s.len(),
{
    if s.len() == 0 {
        v.len() == 0
    } else {
        exists|head: Seq<u64>, last: Option<Seq<u64>>|
            #![trigger parted(head, last)]
            parted(head, last) && regions_listed(s.drop_last(), head) && entry_regions_post(
                s.last().device,
                last,
            ) && v == head + reported(last)
    }
}

/// Whether the device of an entry may add `added` to the hypervisor's list of
/// virtual devices.
pub open spec fn entry_vdevice_post<O: BusDevice, I: BusDeviceSync>(
    dev: BusDeviceEntry<O, I>,
    added: Seq<FdtItem>,
) -> bool {
    match dev {
        BusDeviceEntry::OuterSync(d) => d.vdevice_post(added),
        BusDeviceEntry::InnerSync(d) => d.vdevice_post(added),
    }
}

/// Whether `added` is what the devices of `s` may add to the hypervisor's
/// list of virtual devices, one after the other.
pub open spec fn vdevice_written<O: BusDevice, I: BusDeviceSync>(s: Seq<BusEntry<O, I>>, added: Seq<FdtItem>) -> bool
    decreases s.len(),
{
    if s.len() == 0 {
        added.len() == 0
    } else {
        exists|head: Seq<FdtItem>, last: Seq<FdtItem>|
            #![trigger parted(head, last)]
            parted(head, last) && vdevice_written(s.drop_last(), head) && entry_vdevice_post(
                s.last().device,
                last,
            ) && added == head + last
    }
}

/// Whether the device of an entry may add `added` to the device tree of the
/// guest.
pub open spec fn entry_device_post<O: BusDevice, I: BusDeviceSync>(
    dev: BusDeviceEntry<O, I>,
    added: Seq<FdtItem>,
) -> bool {
    match dev {
        BusDeviceEntry::OuterSync(d) => d.device_post(added),
        BusDeviceEntry::InnerSync(d) => d.device_post(added),
    }
}

/// Whether `added` is what the devices of `s` may add to the device tree of
/// the guest, one after the other.
pub open spec fn device_written<O: BusDevice, I: BusDeviceSync>(s: Seq<BusEntry<O, I>>, added: Seq<FdtItem>) -> bool
    decreases s.len(),
{
    if s.len() == 0 {
        added.len() == 0
    } else {
        exists|head: Seq<FdtItem>, last: Seq<FdtItem>|
            #![trigger parted(head, last)]
            parted(head, last) && device_written(s.drop_last(), head) && entry_device_post(
                s.last().device,
                last,
            ) && added == head + last
    }
}

/// One more entry: what its device reports comes after what the others do.
pub proof fn lemma_regions_step<O: BusDevice, I: BusDeviceSync>(
    s: Seq<BusEntry<O, I>>,
    head: Seq<u64>,
    last: Option<Seq<u64>>,
)
    requires
        s.len() > 0,
        regions_listed(s.drop_last(), head),
        entry_regions_post(s.last().device, last),
    ensures
        regions_listed(s, head + reported(last)),
{
    assert(parted(head, last));
}

/// One more entry: what its device adds comes after what the others do.
pub proof fn lemma_vdevice_step<O: BusDevice, I: BusDeviceSync>(
    s: Seq<BusEntry<O, I>>,
    head: Seq<FdtItem>,
    last: Seq<FdtItem>,
)
    requires
        s.len() > 0,
        vdevice_written(s.drop_last(), head),
        entry_vdevice_post(s.last().device, last),
    ensures
        vdevice_written(s, head + last),
{
    assert(parted(head, last));
}

/// One more entry: what its device adds comes after what the others do.
pub proof fn lemma_device_step<O: BusDevice, I: BusDeviceSync>(
    s: Seq<BusEntry<O, I>>,
    head: Seq<FdtItem>,
    last: Seq<FdtItem>,
)
    requires
        s.len() > 0,
        device_written(s.drop_last(), head),
        entry_device_post(s.last().device, last),
    ensures
        device_written(s, head + last),
{
    assert(parted(head, last));
}

/// Whether the device of an entry may add `added` to the hypervisor's list
/// of virtual devices (`vdevice`) or to the device tree of the guest.
pub open spec fn entry_config_post<O: BusDevice, I: BusDeviceSync>(
    dev: BusDeviceEntry<O, I>,
    vdevice: bool,
    added: Seq<FdtItem>,
) -> bool {
    if vdevice {
        entry_vdevice_post(dev, added)
    } else {
        entry_device_post(dev, added)
    }
}

/// Whether a writer that held `mid` may hold `after` when the device of an
/// entry has added itself: the device has appended what it may add.
pub open spec fn added_by<O: BusDevice, I: BusDeviceSync>(
    dev: BusDeviceEntry<O, I>,
    vdevice: bool,
    mid: Seq<FdtItem>,
    after: Seq<FdtItem>,
) -> bool {
    exists|added: Seq<FdtItem>| #[trigger] entry_config_post(dev, vdevice, added) && after == mid + added
}

/// What letting the devices of `s` add themselves comes to, one after the
/// other and up to the first that fails: a writer that held `before` holds
/// `after`, and `ok` tells whether every device succeeded. Without devices
/// the writer holds what it held, and that is a success. A device that
/// succeeds has appended what it may add; of what a device that fails leaves
/// in the writer nothing is said, and no device after it is called.
pub open spec fn devices_ran<O: BusDevice, I: BusDeviceSync>(
    s: Seq<BusEntry<O, I>>,
    vdevice: bool,
    before: Seq<FdtItem>,
    after: Seq<FdtItem>,
    ok: bool,
) -> bool
    decreases s.len(),
{
    if s.len() == 0 {
        after == before && ok
    } else {
        exists|mid: Seq<FdtItem>, ok0: bool|
            #![trigger parted(mid, ok0)]
            parted(mid, ok0) && devices_ran(s.drop_last(), vdevice, before, mid, ok0) && if ok0 {
                ok ==> added_by(s.last().device, vdevice, mid, after)
            } else {
                after == mid && !ok
            }
    }
}

/// One more device, after devices that all succeeded.
pub proof fn lemma_ran_step<O: BusDevice, I: BusDeviceSync>(
    s: Seq<BusEntry<O, I>>,
    vdevice: bool,
    before: Seq<FdtItem>,
    mid: Seq<FdtItem>,
    after: Seq<FdtItem>,
    ok: bool,
)
    requires
        s.len() > 0,
        devices_ran(s.drop_last(), vdevice, before, mid, true),
        ok ==> added_by(s.last().device, vdevice, mid, after),
    ensures
        devices_ran(s, vdevice, before, after, ok),
{
    assert(parted(mid, true));
}

/// After a device that failed no device is called: what held of the first `j`
/// devices holds of them all.
pub proof fn lemma_ran_failed<O: BusDevice, I: BusDeviceSync>(
    s: Seq<BusEntry<O, I>>,
    vdevice: bool,
    j: int,
    before: Seq<FdtItem>,
    after: Seq<FdtItem>,
)
    requires
        0 <= j <= s.len(),
        devices_ran(s.take(j), vdevice, before, after, false),
    ensures
        devices_ran(s, vdevice, before, after, false),
    decreases s.len() - j,
{
    if j == s.len() {
        assert(s.take(j) == s);
    } else {
        assert(s.take(j + 1).drop_last() == s.take(j));
        assert(parted(after, false));
        assert(devices_ran(s.take(j + 1), vdevice, before, after, false));
        lemma_ran_failed(s, vdevice, j + 1, before, after);
    }
}

} // verus!
