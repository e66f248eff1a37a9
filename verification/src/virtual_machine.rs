//! The virtual machine as the monitor keeps it: its bus, its vCPUs and its
//! interrupts, and what the monitor does on them.

use vstd::prelude::*;
use crate::bus::AccessId;
use crate::bus::Bus;
use crate::bus::BusAccessError;
use crate::bus::BusDevice;
use crate::bus::BusDeviceEntry;
use crate::bus::BusDeviceSync;
use crate::bus::BusEntry;
use crate::bus::BusRange;
use crate::bus::Error;
use crate::bus::ordered;
use crate::hypervisor::DtbConfig;
use crate::interrupt::GunyahInterrupt;
use crate::interrupt::Irqfd;
use crate::memory::GunyahGuestMemoryRegion;
use crate::vcpu::GunyahVcpu;
use crate::fdt::checked;
use crate::fdt::at;
use crate::fdt::holds_at;
use crate::fdt::lemma_holds_index;
use crate::fdt::lemma_holds_inner;
use crate::fdt::lemma_holds_left;
use crate::fdt::lemma_holds_right;
use crate::fdt::lemma_holds_whole;
use crate::fdt::put_null;
use crate::fdt::put_cells32;
use crate::fdt::put_cells64;
use crate::fdt::null_item;
use crate::fdt::cells32_item;
use crate::fdt::cells64_item;
use crate::fdt::fdt_end_node;
use crate::fdt::begin_write;
use crate::fdt::end_write;
use crate::fdt::fdt_items;
use crate::fdt::fdt_node_depth;
use crate::fdt::items_of;
use crate::fdt::lemma_at_end;
use crate::fdt::lemma_at_start;
use crate::fdt::lemma_open_nodes_push;
use crate::fdt::open_nodes;
use crate::fdt::plain_write;
use crate::fdt::put_begin;
use crate::fdt::put_end;
use crate::fdt::put_string;
use crate::fdt::put_u32;
use crate::fdt::put_u64;
use crate::fdt::string_write;
use crate::fdt::u32_item;
use crate::fdt::u64_item;
use crate::fdt::write_error;
use crate::fdt::wrote;
use crate::fdt::FdtWrite;
use crate::bus::devices_ran;
use crate::bus::parted;
use crate::fdt::FdtError;
use crate::fdt::FdtItem;
use crate::bus::device_written;
use crate::bus::regions_listed;
use crate::bus::vdevice_written;
use crate::text::hex_digits;
use crate::text::push_hex;
use vm_fdt::FdtWriter;
use vm_fdt::FdtWriterNode;

verus! {

/// Why the virtual machine refused a vCPU.
#[derive(Copy, Clone, Debug, PartialEq, Eq, Structural)]
pub enum VmError {
    /// The virtual machine has a vCPU with this id already.
    DuplicateVcpu { id: u8 },
}

/// Why a partial release was refused.
#[derive(Copy, Clone, Debug, PartialEq, Eq, Structural)]
pub enum PunchError {
    /// Nothing is to be released, or more than the window holds.
    BadRange,
    /// All of the window is to be released: that is an unmap, no release.
    WholeWindow,
    /// The bus has no entry for the window.
    NotOnBus,
    /// There is not one device for each window that the release leaves.
    DeviceCount,
}

/// A virtual machine: the bus of its devices, its vCPUs in the order in which
/// they were made, and its interrupts.
pub struct GunyahVirtualMachine<O, I> {
    bus: Bus<O, I>,
    vcpus: Vec<GunyahVcpu>,
    interrupts: Vec<GunyahInterrupt>,
}

/// The ids of vCPUs, in their order.
pub open spec fn vcpu_ids(vcpus: Seq<GunyahVcpu>) -> Seq<u8> {
    vcpus.map_values(|v: GunyahVcpu| v.spec_id())
}

/// No two of the vCPUs have the same id.
pub open spec fn distinct_ids(vcpus: Seq<GunyahVcpu>) -> bool {
    forall|i: int, j: int|
        0 <= i < j < vcpus.len() ==> (#[trigger] vcpus[i]).spec_id() != (#[trigger] vcpus[j]).spec_id()
}

impl<O: BusDevice, I: BusDeviceSync> GunyahVirtualMachine<O, I> {
    /// The bus of the virtual machine.
    pub closed spec fn bus(&self) -> Bus<O, I> {
        self.bus
    }

    /// The vCPUs, in the order in which they were made.
    pub closed spec fn vcpus(&self) -> Seq<GunyahVcpu> {
        self.vcpus@
    }

    /// The interrupts, in the order in which they were added.
    pub closed spec fn interrupts(&self) -> Seq<GunyahInterrupt> {
        self.interrupts@
    }

    /// The bus is well formed and no two vCPUs have the same id.
    pub open spec fn wf(&self) -> bool {
        &&& self.bus().wf()
        &&& distinct_ids(self.vcpus())
    }

    /// Whether a vCPU with this id was made.
    pub open spec fn has_vcpu(&self, id: u8) -> bool {
        exists|i: int| 0 <= i < self.vcpus().len() && (#[trigger] self.vcpus()[i]).spec_id() == id
    }

    /// A virtual machine without devices, vCPUs and interrupts.
    pub fn new() -> (vm: Self)
        ensures
            vm.wf(),
            vm.bus().entries().len() == 0,
            vm.bus().accessor() == AccessId::VmmUserspace,
            vm.vcpus().len() == 0,
            vm.interrupts().len() == 0,
    {
        GunyahVirtualMachine { bus: Bus::new(), vcpus: Vec::new(), interrupts: Vec::new() }
    }

    /// The bus, for accesses under the identity `access`.
    pub fn get_bus(&mut self, access: AccessId) -> (bus: &mut Bus<O, I>)
        ensures
            *bus == old(self).bus().with_accessor(access),
            final(self).bus() == *final(bus),
            final(self).vcpus() == old(self).vcpus(),
            final(self).interrupts() == old(self).interrupts(),
    {
        self.bus.set_access_id(access);
        &mut self.bus
    }

    /// Makes the vCPU with the given id. A virtual machine has one vCPU of an
    /// id at most. The vCPU accesses the bus under its own identity.
    pub fn create_vcpu(&mut self, id: u8) -> (r: Result<GunyahVcpu, VmError>)
        requires
            old(self).wf(),
        ensures
            final(self).wf(),
            final(self).bus() == old(self).bus(),
            final(self).interrupts() == old(self).interrupts(),
            r is Ok == !old(self).has_vcpu(id),
            r matches Ok(vcpu) ==> vcpu.spec_id() == id && final(self).vcpus() == old(self).vcpus().push(vcpu),
            r matches Ok(vcpu) ==> vcpu.accessor() == AccessId::Vcpu(id),
            r matches Err(e) ==> e == (VmError::DuplicateVcpu { id }) && final(self).vcpus() == old(
                self,
            ).vcpus(),
    {
        let mut i: usize = 0;
        while i < self.vcpus.len()
            invariant
                0 <= i <= self.vcpus.len(),
                *self == *old(self),
                self.wf(),
                forall|j: int| 0 <= j < i ==> (#[trigger] self.vcpus()[j]).spec_id() != id,
            decreases self.vcpus.len() - i,
        {
            if self.vcpus[i].id() == id as u32 {
                assert(self.vcpus()[i as int].spec_id() == id);
                return Err(VmError::DuplicateVcpu { id });
            }
            i += 1;
        }
        let vcpu = GunyahVcpu::new(id);
        self.vcpus.push(vcpu);
        Ok(vcpu)
    }

    /// The number of vCPUs.
    pub fn vcpu_count(&self) -> (n: usize)
        ensures
            n == self.vcpus().len(),
    {
        self.vcpus.len()
    }

    /// Writes `data` at `address` of the guest, as the monitor itself.
    pub fn write_slice(&mut self, address: u64, data: &[u8]) -> (r: Result<(), BusAccessError>)
        requires
            old(self).wf(),
        ensures
            final(self).wf(),
            final(self).vcpus() == old(self).vcpus(),
            final(self).interrupts() == old(self).interrupts(),
            old(self).bus().with_accessor(AccessId::VmmUserspace).write_post(
                address,
                data@,
                &final(self).bus(),
                r,
            ),
    {
        proof {
            self.bus.lemma_with_accessor(AccessId::VmmUserspace);
        }
        self.bus.set_access_id(AccessId::VmmUserspace);
        self.bus.write(address, data)
    }

    /// Copies the device tree to `start` of the guest, as the monitor itself,
    /// and says what the hypervisor is then told: that the device tree lies
    /// in the `len` bytes at `start`.
    pub fn set_dtb_config(&mut self, start: u64, len: u64, dtb: &[u8]) -> (r: Result<DtbConfig, BusAccessError>)
        requires
            old(self).wf(),
        ensures
            final(self).wf(),
            final(self).vcpus() == old(self).vcpus(),
            final(self).interrupts() == old(self).interrupts(),
            r matches Ok(config) ==> config == (DtbConfig { guest_phys_addr: start, size: len }),
            exists|written: Result<(), BusAccessError>|
                {
                    &&& #[trigger] old(self).bus().with_accessor(AccessId::VmmUserspace).write_post(
                        start,
                        dtb@,
                        &final(self).bus(),
                        written,
                    )
                    &&& written is Ok == r is Ok
                    &&& written matches Err(e) ==> r == Err::<DtbConfig, BusAccessError>(e)
                },
    {
        match self.write_slice(start, dtb) {
            Ok(()) => Ok(DtbConfig { guest_phys_addr: start, size: len }),
            Err(e) => Err(e),
        }
    }

    /// Reads from `address` of the guest into `data`, as the monitor itself.
    pub fn read_slice(&mut self, address: u64, data: &mut [u8]) -> (r: Result<(), BusAccessError>)
        requires
            old(self).wf(),
        ensures
            final(self).wf(),
            final(self).vcpus() == old(self).vcpus(),
            final(self).interrupts() == old(self).interrupts(),
            final(data)@.len() == old(data)@.len(),
            old(self).bus().with_accessor(AccessId::VmmUserspace).read_post(
                address,
                old(data)@,
                &final(self).bus(),
                final(data)@,
                r,
            ),
    {
        proof {
            self.bus.lemma_with_accessor(AccessId::VmmUserspace);
        }
        self.bus.set_access_id(AccessId::VmmUserspace);
        self.bus.read(address, data)
    }

    /// Puts the device of a mapped window on the bus, at the window's guest
    /// address and with its size.
    pub fn add_memory_region(&mut self, device: O, region: &GunyahGuestMemoryRegion) -> (r: Result<(), Error>)
        requires
            old(self).wf(),
        ensures
            final(self).wf(),
            final(self).vcpus() == old(self).vcpus(),
            final(self).interrupts() == old(self).interrupts(),
            old(self).bus().insert_post(
                BusDeviceEntry::OuterSync(device),
                region.guest_address,
                region.region.size as u64,
                &final(self).bus(),
                r,
            ),
    {
        self.bus.insert(device, region.guest_address, region.region.size as u64)
    }

    /// Puts a device on the bus.
    pub fn add_device(&mut self, device: O, base: u64, len: u64) -> (r: Result<(), Error>)
        requires
            old(self).wf(),
        ensures
            final(self).wf(),
            final(self).vcpus() == old(self).vcpus(),
            final(self).interrupts() == old(self).interrupts(),
            old(self).bus().insert_post(BusDeviceEntry::OuterSync(device), base, len, &final(self).bus(), r),
    {
        let r = self.bus.insert(device, base, len);
        r
    }

    /// Puts a device that synchronises itself on the bus.
    pub fn add_device_sync(&mut self, device: I, base: u64, len: u64) -> (r: Result<(), Error>)
        requires
            old(self).wf(),
        ensures
            final(self).wf(),
            final(self).vcpus() == old(self).vcpus(),
            final(self).interrupts() == old(self).interrupts(),
            old(self).bus().insert_post(BusDeviceEntry::InnerSync(device), base, len, &final(self).bus(), r),
    {
        self.bus.insert_sync(device, base, len)
    }

    /// Adds a level triggered interrupt on `line`.
    pub fn add_level_interrupt(&mut self, line: u32) -> (interrupt: GunyahInterrupt)
        ensures
            interrupt == (GunyahInterrupt { line, irqfd: Irqfd { label: line, level: true } }),
            final(self).interrupts() == old(self).interrupts().push(interrupt),
            final(self).bus() == old(self).bus(),
            final(self).vcpus() == old(self).vcpus(),
    {
        let interrupt = GunyahInterrupt::new_level(line);
        self.interrupts.push(interrupt);
        interrupt
    }

    /// Adds an edge triggered interrupt on `line`.
    pub fn add_edge_interrupt(&mut self, line: u32) -> (interrupt: GunyahInterrupt)
        ensures
            interrupt == (GunyahInterrupt { line, irqfd: Irqfd { label: line, level: false } }),
            final(self).interrupts() == old(self).interrupts().push(interrupt),
            final(self).bus() == old(self).bus(),
            final(self).vcpus() == old(self).vcpus(),
    {
        let interrupt = GunyahInterrupt::new_edge(line);
        self.interrupts.push(interrupt);
        interrupt
    }

    /// Why `punch_hole` releases nothing, or `None` where it releases.
    pub open spec fn punch_refusal(
        &self,
        region: GunyahGuestMemoryRegion,
        offset: u64,
        len: usize,
        devices: nat,
    ) -> Option<PunchError> {
        if len == 0 || offset + len > region.region.size {
            Some(PunchError::BadRange)
        } else if offset == 0 && offset + len == region.region.size {
            Some(PunchError::WholeWindow)
        } else if !self.bus().has_range(region.guest_address, region.region.size as u64) {
            Some(PunchError::NotOnBus)
        } else if devices != region.residuals(offset, len).len() {
            Some(PunchError::DeviceCount)
        } else {
            None
        }
    }

    /// Releases `len` bytes at `offset` of a mapped window, once the
    /// hypervisor has made the calls of the release
    /// (`GunyahGuestMemoryRegion::release_calls`): splits the window, takes
    /// its entry off the bus and puts there, in the order of their addresses,
    /// the windows that are left, each with its device from `devices`. The
    /// memory is changed first, the routing after it. Where the hypervisor
    /// refused the unmap, `GunyahGuestMemoryRegion::punch_hole` hands the
    /// error on and this function is not called: the bus stays as it was.
    pub fn punch_hole(
        &mut self,
        region: &mut GunyahGuestMemoryRegion,
        offset: u64,
        len: usize,
        devices: Vec<O>,
    ) -> (r: Result<Vec<GunyahGuestMemoryRegion>, PunchError>)
        requires
            old(self).wf(),
            old(region).wf(),
        ensures
            final(self).wf(),
            final(self).vcpus() == old(self).vcpus(),
            final(self).interrupts() == old(self).interrupts(),
            final(self).bus().accessor() == old(self).bus().accessor(),
            match old(self).punch_refusal(*old(region), offset, len, devices@.len()) {
                Some(e) => {
                    &&& r == Err::<Vec<GunyahGuestMemoryRegion>, PunchError>(e)
                    &&& *final(region) == *old(region)
                    &&& final(self).bus().entries() == old(self).bus().entries()
                },
                None => {
                    &&& r is Ok
                    &&& r->Ok_0@ == old(region).residuals(offset, len)
                    &&& *final(region) == (GunyahGuestMemoryRegion { unmap_on_drop: false, ..*old(region) })
                    &&& exists|k: int|
                        {
                            &&& 0 <= k < old(self).bus().entries().len()
                            &&& (#[trigger] old(self).bus().entries()[k]).range == (BusRange {
                                base: old(region).guest_address,
                                len: old(region).region.size as u64,
                            })
                            &&& final(self).bus().entries() == old(self).bus().entries().take(k)
                                + residual_entries(old(region).residuals(offset, len), devices@)
                                + old(self).bus().entries().skip(k + 1)
                        }
                },
            },
    {
        let size: usize = region.region.size;
        if len == 0 || offset > size as u64 || len as u64 > size as u64 - offset {
            return Err(PunchError::BadRange);
        }
        if offset == 0 && len == size {
            return Err(PunchError::WholeWindow);
        }
        if !self.bus.contains_range(region.guest_address, size as u64) {
            return Err(PunchError::NotOnBus);
        }
        let count: usize = if offset > 0 && offset + (len as u64) < size as u64 {
            2
        } else {
            1
        };
        proof {
            crate::memory::lemma_residual_count(*region, offset, len);
        }
        if devices.len() != count {
            return Err(PunchError::DeviceCount);
        }
        let ghost whole = BusRange { base: region.guest_address, len: size as u64 };
        let ghost s = self.bus.entries();
        let ghost fresh = residual_entries::<O, I>(region.residuals(offset, len), devices@);
        let new_regions: Vec<GunyahGuestMemoryRegion> = region.release(offset, len);
        let _ = self.bus.remove(region.guest_address, size as u64);
        let ghost k = choose|k: int| 0 <= k < s.len() && (#[trigger] s[k]).range == whole && self.bus.entries()
            == s.remove(k);
        let mut devices = devices;
        let mut i: usize = 0;
        proof {
            assert(self.bus.entries() =~= s.take(k) + fresh.take(0) + s.skip(k + 1));
        }
        while i < count
            invariant
                0 <= i <= count == new_regions@.len(),
                count == fresh.len(),
                self.bus.wf(),
                ordered(s),
                0 <= k < s.len(),
                s[k].range == whole,
                whole.len > 0,
                whole.end() <= 0x1_0000_0000_0000_0000,
                self.vcpus() == old(self).vcpus(),
                self.interrupts() == old(self).interrupts(),
                distinct_ids(self.vcpus()),
                self.bus.accessor() == old(self).bus().accessor(),
                self.bus.entries() == s.take(k) + fresh.take(i as int) + s.skip(k + 1),
                devices@.len() == count - i,
                forall|j: int| 0 <= j < count ==> (#[trigger] fresh[j]).range == (BusRange {
                    base: new_regions@[j].guest_address,
                    len: new_regions@[j].region.size as u64,
                }),
                forall|j: int| i <= j < count ==> (#[trigger] fresh[j]).device == BusDeviceEntry::<
                    O,
                    I,
                >::OuterSync(devices@[j - i]),
                forall|j: int| 0 <= j < count ==> (#[trigger] fresh[j]).range.len > 0 && whole.base <= fresh[j].range.base
                    && fresh[j].range.end() <= whole.end(),
                forall|a: int, b: int| 0 <= a < b < count ==> (#[trigger] fresh[a]).range.end() <= (
                #[trigger] fresh[b]).range.base,
            decreases count - i,
        {
            let device: O = devices.remove(0);
            let part: GunyahGuestMemoryRegion = new_regions[i];
            let ghost mid = self.bus.entries();
            let ghost e = fresh[i as int];
            proof {
                assert forall|j: int| 0 <= j < mid.len() implies !(#[trigger] mid[j]).range.spec_overlaps(
                    e.range.base,
                    e.range.len,
                ) by {
                    if j < k {
                        assert(mid[j] == s[j]);
                        assert(s[j].range.end() <= s[k].range.base);
                    } else if j < k + i {
                        assert(mid[j] == fresh[j - k]);
                        assert(fresh[j - k].range.end() <= fresh[i as int].range.base);
                    } else {
                        assert(mid[j] == s[j - i + 1]);
                        assert(s[k].range.end() <= s[j - i + 1].range.base);
                    }
                }
            }
            let inserted = self.bus.insert(device, part.guest_address, part.region.size as u64);
            proof {
                assert(inserted is Ok);
                let t = self.bus.entries();
                let at = choose|at: int| 0 <= at <= mid.len() && #[trigger] mid.insert(at, e) == t;
                if at < k + i {
                    assert(t[at] == e);
                    assert(t[at + 1] == mid[at]);
                    if at < k {
                        assert(mid[at] == s[at]);
                        assert(s[at].range.end() <= s[k].range.base);
                    } else {
                        assert(mid[at] == fresh[at - k]);
                        assert(fresh[at - k].range.end() <= fresh[i as int].range.base);
                    }
                    assert(t[at].range.end() <= t[at + 1].range.base);
                    assert(false);
                }
                if at > k + i {
                    assert(t[at] == e);
                    assert(t[at - 1] == mid[at - 1]);
                    assert(mid[at - 1] == s[at - i]);
                    assert(s[k].range.end() <= s[at - i].range.base);
                    assert(t[at - 1].range.end() <= t[at].range.base);
                    assert(false);
                }
                assert(t =~= s.take(k) + fresh.take(i + 1) + s.skip(k + 1));
                assert forall|j: int| i + 1 <= j < count implies (#[trigger] fresh[j]).device == BusDeviceEntry::<
                    O,
                    I,
                >::OuterSync(devices@[j - (i + 1)]) by {}
            }
            i += 1;
        }
        proof {
            assert(fresh.take(count as int) == fresh);
        }
        Ok(new_regions)
    }
}

/// The bus entries of the windows that a release leaves, each with its device.
pub open spec fn residual_entries<O, I>(residuals: Seq<GunyahGuestMemoryRegion>, devices: Seq<O>) -> Seq<
    BusEntry<O, I>,
> {
    Seq::new(
        residuals.len(),
        |i: int|
            BusEntry {
                range: BusRange { base: residuals[i].guest_address, len: residuals[i].region.size as u64 },
                device: BusDeviceEntry::OuterSync(devices[i]),
            },
    )
}


/// After a release, the bus routes no address of the released bytes; it
/// routes each address of what is left of the window to the device of the
/// window that was left there, at the address's offset in that window; and it
/// routes every other address as before.
pub proof fn lemma_release_on_bus<O: BusDevice, I: BusDeviceSync>(
    bus: Bus<O, I>,
    next: Bus<O, I>,
    region: GunyahGuestMemoryRegion,
    offset: u64,
    len: usize,
    devices: Seq<O>,
    k: int,
    addr: u64,
)
    requires
        bus.wf(),
        next.wf(),
        region.wf(),
        0 < len,
        offset + len <= region.region.size,
        offset > 0 || offset + len < region.region.size,
        devices.len() == region.residuals(offset, len).len(),
        0 <= k < bus.entries().len(),
        bus.entries()[k].range == (BusRange { base: region.guest_address, len: region.region.size as u64 }),
        next.entries() == bus.entries().take(k) + residual_entries(region.residuals(offset, len), devices)
            + bus.entries().skip(k + 1),
    ensures
        region.guest_address + offset <= addr < region.guest_address + offset + len ==> !next.owned(addr),
        region.guest_address <= addr < region.guest_address + offset ==> {
            &&& next.owned(addr)
            &&& next.entries()[next.owner(addr)].device == BusDeviceEntry::<O, I>::OuterSync(devices[0])
            &&& next.entries()[next.owner(addr)].range.base == region.guest_address
        },
        region.guest_address + offset + len <= addr < region.guest_address + region.region.size ==> {
            &&& next.owned(addr)
            &&& next.entries()[next.owner(addr)].device == BusDeviceEntry::<O, I>::OuterSync(
                devices[devices.len() - 1],
            )
            &&& next.entries()[next.owner(addr)].range.base == region.guest_address + offset + len
        },
        !(region.guest_address <= addr < region.guest_address + region.region.size) ==> {
            &&& next.owned(addr) == bus.owned(addr)
            &&& bus.owned(addr) ==> next.entries()[next.owner(addr)] == bus.entries()[bus.owner(addr)]
        },
{
    crate::memory::lemma_residual_count(region, offset, len);
    let s = bus.entries();
    let t = next.entries();
    let parts = region.residuals(offset, len);
    let fresh = residual_entries::<O, I>(parts, devices);
    let n = fresh.len() as int;
    let base = region.guest_address;
    assert(t.len() == s.len() - 1 + n);
    assert forall|j: int| 0 <= j < t.len() implies #[trigger] t[j] == (if j < k {
        s[j]
    } else if j < k + n {
        fresh[j - k]
    } else {
        s[j - n + 1]
    }) by {}
    if base <= addr < base + region.region.size {
        assert(s[k].range.spec_contains(addr));
        // No other entry of the old table holds the address.
        assert forall|j: int| 0 <= j < s.len() && j != k implies !(#[trigger] s[j]).range.spec_contains(addr) by {
            if s[j].range.spec_contains(addr) {
                bus.lemma_owner_unique(addr, j, k);
            }
        }
        if base + offset <= addr < base + offset + len {
            assert forall|j: int| 0 <= j < t.len() implies !(#[trigger] t[j]).range.spec_contains(addr) by {
                if j < k {
                    assert(t[j] == s[j]);
                } else if j < k + n {
                    assert(t[j] == fresh[j - k]);
                } else {
                    assert(t[j] == s[j - n + 1]);
                }
            }
        } else if addr < base + offset {
            assert(t[k] == fresh[0]);
            assert(t[k].range.spec_contains(addr));
            next.lemma_owner_unique(addr, k, next.owner(addr));
        } else {
            assert(t[k + n - 1] == fresh[n - 1]);
            assert(t[k + n - 1].range.spec_contains(addr));
            next.lemma_owner_unique(addr, k + n - 1, next.owner(addr));
        }
    } else {
        if bus.owned(addr) {
            let i = bus.owner(addr);
            assert(i != k);
            let j = if i < k { i } else { i + n - 1 };
            assert(t[j] == s[i]);
            next.lemma_owner_unique(addr, j, next.owner(addr));
        }
        if next.owned(addr) {
            let j = next.owner(addr);
            if k <= j < k + n {
                assert(t[j] == fresh[j - k]);
                assert(false);
            }
            let i = if j < k { j } else { j - n + 1 };
            assert(t[j] == s[i]);
            assert(s[i].range.spec_contains(addr));
        }
    }
}

/// The phandle of the interrupt controller in the device tree.
pub const PHANDLE_GIC: u32 = 1;

/// Why the device tree of a virtual machine could not be written.
#[derive(Copy, Clone, Debug, PartialEq, Eq, Structural)]
pub enum ConfigError {
    /// The writer refused a call.
    Fdt(FdtError),
    /// The virtual machine has no ordinary memory.
    NoMemory,
}

/// The result of a part of the configuration, with the error of a
/// configuration.
pub open spec fn config_result(r: Result<(), FdtError>) -> Result<(), ConfigError> {
    match r {
        Ok(()) => Ok(()),
        Err(e) => Err(ConfigError::Fdt(e)),
    }
}

/// The result that hands on an error of the writer.
pub open spec fn refusal_of(e: FdtError) -> Result<(), ConfigError> {
    Err(ConfigError::Fdt(e))
}

/// Whether a result is an error of the writer.
pub open spec fn refused(r: Result<(), ConfigError>) -> bool {
    match r {
        Err(ConfigError::Fdt(_)) => true,
        _ => false,
    }
}

/// The start of a node.
pub open spec fn begin(name: Seq<char>) -> FdtItem {
    FdtItem::BeginNode { name }
}

/// The nodes of the doorbells of `interrupts`, one after the other.
pub open spec fn interrupt_items(interrupts: Seq<GunyahInterrupt>) -> Seq<FdtItem>
    decreases interrupts.len(),
{
    if interrupts.len() == 0 {
        Seq::empty()
    } else {
        interrupt_items(interrupts.drop_last()) + interrupts.last().vdevice_items()
    }
}

/// The node of one CPU.
pub open spec fn cpu_node_writes(id: u32) -> Seq<FdtWrite> {
    seq![
        begin_write("cpu@"@ + hex_digits(id as nat)),
        string_write("device_type"@, "cpu"@),
        string_write("compatible"@, "arm,arm-v8"@),
        string_write("enable-method"@, "psci"@),
        plain_write(u32_item("reg"@, id)),
        plain_write(null_item("cpu-idle-states"@)),
        end_write(),
    ]
}

/// The nodes of the CPUs of `vcpus`, one after the other.
pub open spec fn cpu_writes(vcpus: Seq<GunyahVcpu>) -> Seq<FdtWrite>
    decreases vcpus.len(),
{
    if vcpus.len() == 0 {
        Seq::empty()
    } else {
        cpu_writes(vcpus.drop_last()) + cpu_node_writes(vcpus.last().spec_id() as u32)
    }
}

/// The node of each CPU takes seven writes.
pub proof fn lemma_cpu_writes_len(vcpus: Seq<GunyahVcpu>)
    ensures
        cpu_writes(vcpus).len() == 7 * (vcpus.len() as int),
    decreases vcpus.len(),
{
    if vcpus.len() > 0 {
        lemma_cpu_writes_len(vcpus.drop_last());
    }
}

/// The node of the CPU at index `i` stands at its place among the nodes.
pub proof fn lemma_cpu_writes_at(vcpus: Seq<GunyahVcpu>, i: int)
    requires
        0 <= i < vcpus.len(),
    ensures
        holds_at(cpu_writes(vcpus), 7 * i, cpu_node_writes(vcpus[i].spec_id() as u32)),
    decreases vcpus.len(),
{
    let before = vcpus.drop_last();
    let node = cpu_node_writes(vcpus.last().spec_id() as u32);
    lemma_cpu_writes_len(before);
    if i == vcpus.len() - 1 {
        lemma_holds_whole(node);
        lemma_holds_right(cpu_writes(before), node, 0, node);
    } else {
        lemma_cpu_writes_at(before, i);
        lemma_holds_left(cpu_writes(before), node, 7 * i, cpu_node_writes(before[i].spec_id() as u32));
    }
}

/// What is handed to the writer before the virtual devices, for the node
/// that configures the virtual machine for the hypervisor.
pub open spec fn vm_config_head_writes(
    os_type: Seq<char>,
    base_address: u64,
    firmware_address: Option<u64>,
    intc_phandle: u32,
) -> Seq<FdtWrite> {
    seq![
        begin_write("gunyah-vm-config"@),
        string_write("image-name"@, "gunyah-vmm-vm"@),
        string_write("os-type"@, os_type),
        begin_write("memory"@),
        plain_write(u32_item("#address-cells"@, 2)),
        plain_write(u32_item("#size-cells"@, 2)),
        plain_write(u64_item("base-address"@, base_address)),
    ] + (match firmware_address {
        Some(addr) => seq![plain_write(u64_item("firmware-address"@, addr))],
        None => Seq::empty(),
    }) + seq![
        end_write(),
        begin_write("interrupts"@),
        plain_write(u32_item("config"@, intc_phandle)),
        end_write(),
        begin_write("vcpus"@),
        string_write("affinity"@, "proxy"@),
        end_write(),
        begin_write("vdevices"@),
        string_write("generate"@, "/hypervisor"@),
    ]
}

/// What is written before the virtual devices in the node that configures
/// the virtual machine for the hypervisor.
pub open spec fn vm_config_head(
    os_type: Seq<char>,
    base_address: u64,
    firmware_address: Option<u64>,
    intc_phandle: u32,
) -> Seq<FdtItem> {
    items_of(vm_config_head_writes(os_type, base_address, firmware_address, intc_phandle))
}

/// What writing the node of one doorbell comes to, for a writer that held
/// `mid`: it holds `after`, and `r` is the result, with the error of the
/// write that the writer refused.
pub open spec fn interrupt_ran(
    interrupt: GunyahInterrupt,
    mid: Seq<FdtItem>,
    after: Seq<FdtItem>,
    r: Result<(), FdtError>,
) -> bool {
    &&& wrote(mid, interrupt.vdevice_writes(), after, r is Ok)
    &&& r matches Err(e) ==> e == write_error(mid, interrupt.vdevice_writes(), after)
}

/// What writing the nodes of the doorbells of `interrupts` comes to, one
/// after the other and up to the first that the writer refuses: a writer that
/// held `before` holds `after`, and `r` is the result: `Ok` where it took
/// every node, else the error of the write that it refused.
pub open spec fn interrupts_ran(
    interrupts: Seq<GunyahInterrupt>,
    before: Seq<FdtItem>,
    after: Seq<FdtItem>,
    r: Result<(), FdtError>,
) -> bool
    decreases interrupts.len(),
{
    if interrupts.len() == 0 {
        after == before && r is Ok
    } else {
        exists|mid: Seq<FdtItem>, r0: Result<(), FdtError>|
            #![trigger parted(mid, r0)]
            parted(mid, r0) && interrupts_ran(interrupts.drop_last(), before, mid, r0) && if r0 is Ok {
                interrupt_ran(interrupts.last(), mid, after, r)
            } else {
                after == mid && r == r0
            }
    }
}

/// One more doorbell, after doorbells whose nodes the writer took.
pub proof fn lemma_interrupts_step(
    interrupts: Seq<GunyahInterrupt>,
    before: Seq<FdtItem>,
    mid: Seq<FdtItem>,
    after: Seq<FdtItem>,
    r: Result<(), FdtError>,
)
    requires
        interrupts.len() > 0,
        interrupts_ran(interrupts.drop_last(), before, mid, Ok(())),
        interrupt_ran(interrupts.last(), mid, after, r),
    ensures
        interrupts_ran(interrupts, before, after, r),
{
    assert(parted(mid, Ok::<(), FdtError>(())));
}

/// After a node that the writer refused no doorbell is written: what held of
/// the first `j` doorbells holds of them all.
pub proof fn lemma_interrupts_failed(
    interrupts: Seq<GunyahInterrupt>,
    j: int,
    before: Seq<FdtItem>,
    after: Seq<FdtItem>,
    r: Result<(), FdtError>,
)
    requires
        0 <= j <= interrupts.len(),
        r is Err,
        interrupts_ran(interrupts.take(j), before, after, r),
    ensures
        interrupts_ran(interrupts, before, after, r),
    decreases interrupts.len() - j,
{
    if j == interrupts.len() {
        assert(interrupts.take(j) == interrupts);
    } else {
        assert(interrupts.take(j + 1).drop_last() == interrupts.take(j));
        assert(parted(after, r));
        assert(interrupts_ran(interrupts.take(j + 1), before, after, r));
        lemma_interrupts_failed(interrupts, j + 1, before, after, r);
    }
}

/// The properties of the root node.
#[verifier::opaque]
pub open spec fn root_writes() -> Seq<FdtWrite> {
    seq![
        plain_write(u32_item("#address-cells"@, 2)),
        plain_write(u32_item("#size-cells"@, 2)),
        plain_write(u32_item("interrupt-parent"@, PHANDLE_GIC)),
    ]
}

/// The node of the memory, with the extents of the ordinary memory.
pub open spec fn memory_writes(mem_reg: Seq<u64>) -> Seq<FdtWrite> {
    seq![
        begin_write("memory"@),
        string_write("device_type"@, "memory"@),
        plain_write(cells64_item("reg"@, mem_reg)),
        end_write(),
    ]
}

/// The start of the node of the CPUs.
pub open spec fn cpus_open_writes() -> Seq<FdtWrite> {
    seq![
        begin_write("cpus"@),
        plain_write(u32_item("#address-cells"@, 1)),
        plain_write(u32_item("#size-cells"@, 0)),
    ]
}

/// The node of the CPUs, with a node for each vCPU.
pub open spec fn cpus_writes(vcpus: Seq<GunyahVcpu>) -> Seq<FdtWrite> {
    cpus_open_writes() + cpu_writes(vcpus) + seq![end_write()]
}

/// The node that tells the guest to start its CPUs through the hypervisor.
pub open spec fn psci_writes() -> Seq<FdtWrite> {
    seq![
        begin_write("psci"@),
        string_write("compatible"@, "arm,psci-0.2"@),
        string_write("method"@, "hvc"@),
        end_write(),
    ]
}

/// The node of the interrupt controller: the distributor's base and size,
/// then the redistributors' base and size.
pub open spec fn intc_writes(gic_config: Seq<u64>) -> Seq<FdtWrite> {
    seq![
        begin_write("interrupt-controller@"@ + hex_digits(gic_config[0] as nat)),
        string_write("compatible"@, "arm,gic-v3"@),
        plain_write(u32_item("#interrupt-cells"@, 3)),
        plain_write(u32_item("#address-cells"@, 2)),
        plain_write(u32_item("#size-cells"@, 2)),
        plain_write(null_item("interrupt-controller"@)),
        plain_write(cells64_item("reg"@, gic_config)),
        plain_write(u32_item("phandle"@, PHANDLE_GIC)),
        end_write(),
    ]
}

/// The node of the timer.
pub open spec fn timer_writes(timer_interrupts: Seq<u32>) -> Seq<FdtWrite> {
    seq![
        begin_write("timer"@),
        string_write("compatible"@, "arm,armv8-timer"@),
        plain_write(null_item("always-on"@)),
        plain_write(cells32_item("interrupts"@, timer_cells(timer_interrupts))),
        plain_write(u32_item("clock-frequency"@, 19200000)),
        end_write(),
    ]
}

/// The nodes of the platform, as they are handed to the writer after the
/// properties of the root node: memory, CPUs, PSCI, interrupt controller and
/// timer.
#[verifier::opaque]
pub open spec fn platform_writes(
    mem_reg: Seq<u64>,
    vcpus: Seq<GunyahVcpu>,
    gic_config: Seq<u64>,
    timer_interrupts: Seq<u32>,
) -> Seq<FdtWrite> {
    memory_writes(mem_reg) + cpus_writes(vcpus) + psci_writes() + intc_writes(gic_config) + timer_writes(
        timer_interrupts,
    )
}

/// Where the parts of the node of the CPUs stand in it.
pub proof fn lemma_cpus_layout(vcpus: Seq<GunyahVcpu>)
    ensures
        cpus_writes(vcpus).len() == 4 + 7 * (vcpus.len() as int),
        holds_at(cpus_writes(vcpus), 0, cpus_open_writes()),
        forall|i: int|
            0 <= i < vcpus.len() ==> holds_at(
                cpus_writes(vcpus),
                3 + 7 * i,
                cpu_node_writes((#[trigger] vcpus[i]).spec_id() as u32),
            ),
        cpus_writes(vcpus)[3 + 7 * (vcpus.len() as int)] == end_write(),
{
    let open = cpus_open_writes();
    let nodes = cpu_writes(vcpus);
    let end = seq![end_write()];
    lemma_cpu_writes_len(vcpus);
    lemma_holds_whole(open);
    lemma_holds_left(open, nodes, 0, open);
    lemma_holds_left(open + nodes, end, 0, open);
    assert forall|i: int| 0 <= i < vcpus.len() implies holds_at(
        cpus_writes(vcpus),
        3 + 7 * i,
        cpu_node_writes((#[trigger] vcpus[i]).spec_id() as u32),
    ) by {
        let node = cpu_node_writes(vcpus[i].spec_id() as u32);
        lemma_cpu_writes_at(vcpus, i);
        lemma_holds_right(open, nodes, 7 * i, node);
        lemma_holds_left(open + nodes, end, 3 + 7 * i, node);
    }
}

/// Where the nodes of the platform stand among its writes.
pub proof fn lemma_platform_layout(
    mem_reg: Seq<u64>,
    vcpus: Seq<GunyahVcpu>,
    gic_config: Seq<u64>,
    timer_interrupts: Seq<u32>,
)
    ensures
        platform_writes(mem_reg, vcpus, gic_config, timer_interrupts).len() == 27 + 7 * (vcpus.len() as int),
        holds_at(platform_writes(mem_reg, vcpus, gic_config, timer_interrupts), 0, memory_writes(mem_reg)),
        holds_at(platform_writes(mem_reg, vcpus, gic_config, timer_interrupts), 4, cpus_writes(vcpus)),
        holds_at(platform_writes(mem_reg, vcpus, gic_config, timer_interrupts), 8 + 7 * (vcpus.len() as int), psci_writes()),
        holds_at(
            platform_writes(mem_reg, vcpus, gic_config, timer_interrupts),
            12 + 7 * (vcpus.len() as int),
            intc_writes(gic_config),
        ),
        holds_at(
            platform_writes(mem_reg, vcpus, gic_config, timer_interrupts),
            21 + 7 * (vcpus.len() as int),
            timer_writes(timer_interrupts),
        ),
{
    reveal(platform_writes);
    lemma_cpus_layout(vcpus);
    lemma_five_pieces(
        memory_writes(mem_reg),
        cpus_writes(vcpus),
        psci_writes(),
        intc_writes(gic_config),
        timer_writes(timer_interrupts),
    );
}

/// Where each of five pieces stands when they follow one another.
proof fn lemma_five_pieces(a: Seq<FdtWrite>, b: Seq<FdtWrite>, c: Seq<FdtWrite>, d: Seq<FdtWrite>, e: Seq<FdtWrite>)
    ensures
        (a + b + c + d + e).len() == a.len() + b.len() + c.len() + d.len() + e.len(),
        holds_at(a + b + c + d + e, 0, a),
        holds_at(a + b + c + d + e, a.len() as int, b),
        holds_at(a + b + c + d + e, (a.len() + b.len()) as int, c),
        holds_at(a + b + c + d + e, (a.len() + b.len() + c.len()) as int, d),
        holds_at(a + b + c + d + e, (a.len() + b.len() + c.len() + d.len()) as int, e),
{
    lemma_holds_whole(a);
    lemma_holds_left(a, b, 0, a);
    lemma_holds_left(a + b, c, 0, a);
    lemma_holds_left(a + b + c, d, 0, a);
    lemma_holds_left(a + b + c + d, e, 0, a);
    lemma_holds_whole(b);
    lemma_holds_right(a, b, 0, b);
    lemma_holds_left(a + b, c, a.len() as int, b);
    lemma_holds_left(a + b + c, d, a.len() as int, b);
    lemma_holds_left(a + b + c + d, e, a.len() as int, b);
    lemma_holds_whole(c);
    lemma_holds_right(a + b, c, 0, c);
    lemma_holds_left(a + b + c, d, (a.len() + b.len()) as int, c);
    lemma_holds_left(a + b + c + d, e, (a.len() + b.len()) as int, c);
    lemma_holds_whole(d);
    lemma_holds_right(a + b + c, d, 0, d);
    lemma_holds_left(a + b + c + d, e, (a.len() + b.len() + c.len()) as int, d);
    lemma_holds_whole(e);
    lemma_holds_right(a + b + c + d, e, 0, e);
}

/// The twelve cells of the timer's interrupts: for each of the four, the type
/// of a private peripheral interrupt, the interrupt and the flags.
pub open spec fn timer_cells(timer_interrupts: Seq<u32>) -> Seq<u32> {
    seq![
        1,
        timer_interrupts[0],
        0x108,
        1,
        timer_interrupts[1],
        0x108,
        1,
        timer_interrupts[2],
        0x108,
        1,
        timer_interrupts[3],
        0x108,
    ]
}

impl<O: BusDevice, I: BusDeviceSync> GunyahVirtualMachine<O, I> {
    /// The node that configures the virtual machine for the hypervisor, where
    /// the devices add `vdevices` to the list of virtual devices.
    pub open spec fn vm_config_items(
        &self,
        os_type: Seq<char>,
        base_address: u64,
        firmware_address: Option<u64>,
        intc_phandle: u32,
        vdevices: Seq<FdtItem>,
    ) -> Seq<FdtItem> {
        vm_config_head(os_type, base_address, firmware_address, intc_phandle) + vdevices + interrupt_items(
            self.interrupts(),
        ) + seq![FdtItem::EndNode, FdtItem::EndNode]
    }

    /// Whether `added` may be the node that configures the virtual machine
    /// for the hypervisor: the devices say what they add to it.
    pub open spec fn vm_config_written(
        &self,
        os_type: Seq<char>,
        base_address: u64,
        firmware_address: Option<u64>,
        intc_phandle: u32,
        added: Seq<FdtItem>,
    ) -> bool {
        exists|vdevices: Seq<FdtItem>|
            #[trigger] vdevice_written(self.bus().entries(), vdevices) && added == self.vm_config_items(
                os_type,
                base_address,
                firmware_address,
                intc_phandle,
                vdevices,
            )
    }

    /// The device tree of the guest, but for the root node around it: the
    /// properties of the root node and the nodes of the platform, then
    /// `devices`, which the devices add, then `vm_config`, the node that
    /// configures the virtual machine.
    pub open spec fn basic_config_items(
        &self,
        mem_reg: Seq<u64>,
        gic_config: Seq<u64>,
        timer_interrupts: Seq<u32>,
        devices: Seq<FdtItem>,
        vm_config: Seq<FdtItem>,
    ) -> Seq<FdtItem> {
        items_of(root_writes()) + items_of(
            platform_writes(mem_reg, self.vcpus(), gic_config, timer_interrupts),
        ) + devices + vm_config
    }

    /// Whether `added` may be the device tree of the guest, but for the root
    /// node around it: the devices say what memory they report and what they
    /// add. The first extent of the memory is the base address that the
    /// hypervisor is told.
    pub open spec fn basic_config_written(
        &self,
        gic_config: Seq<u64>,
        timer_interrupts: Seq<u32>,
        added: Seq<FdtItem>,
    ) -> bool {
        exists|mem_reg: Seq<u64>, devices: Seq<FdtItem>, vm_config: Seq<FdtItem>|
            #![trigger self.basic_config_items(mem_reg, gic_config, timer_interrupts, devices, vm_config)]
            {
                &&& regions_listed(self.bus().entries(), mem_reg)
                &&& mem_reg.len() > 0
                &&& device_written(self.bus().entries(), devices)
                &&& self.vm_config_written("linux"@, mem_reg[0], None, PHANDLE_GIC, vm_config)
                &&& added == self.basic_config_items(mem_reg, gic_config, timer_interrupts, devices, vm_config)
            }
    }

    /// What `create_fdt_basic_config` comes to after the devices, for a
    /// writer that holds `devices`: without ordinary memory it ends there,
    /// with `NoMemory`; else the node that configures the virtual machine is
    /// written, with the first extent of the memory as the base address, and
    /// the result is what that comes to.
    pub open spec fn basic_config_after_devices(
        &self,
        mem_reg: Seq<u64>,
        devices: Seq<FdtItem>,
        after: Seq<FdtItem>,
        r: Result<(), ConfigError>,
    ) -> bool {
        if mem_reg.len() == 0 {
            after == devices && r == Err::<(), ConfigError>(ConfigError::NoMemory)
        } else {
            exists|configured: Result<(), FdtError>|
                #[trigger] self.vm_config_ran("linux"@, mem_reg[0], None, PHANDLE_GIC, devices, after, configured)
                    && r == config_result(configured)
        }
    }

    /// What `create_fdt_basic_config` comes to after the nodes of the
    /// platform, for a writer that holds `head`: each device adds itself,
    /// then the rest follows.
    pub open spec fn basic_config_after_platform(
        &self,
        mem_reg: Seq<u64>,
        head: Seq<FdtItem>,
        after: Seq<FdtItem>,
        r: Result<(), ConfigError>,
    ) -> bool {
        exists|devices: Seq<FdtItem>, added: bool|
            #[trigger] devices_ran(self.bus().entries(), false, head, devices, added) && if added {
                self.basic_config_after_devices(mem_reg, devices, after, r)
            } else {
                after == devices && refused(r)
            }
    }

    /// What `create_fdt_basic_config` comes to after the properties of the
    /// root node, for a writer that holds `root`: the devices report the
    /// ordinary memory, `mem_reg`; the nodes of the platform are handed to
    /// the writer; then the rest follows.
    pub open spec fn basic_config_after_root(
        &self,
        gic_config: Seq<u64>,
        timer_interrupts: Seq<u32>,
        root: Seq<FdtItem>,
        after: Seq<FdtItem>,
        r: Result<(), ConfigError>,
    ) -> bool {
        exists|mem_reg: Seq<u64>, head: Seq<FdtItem>, taken: bool|
            #![trigger wrote(root, platform_writes(mem_reg, self.vcpus(), gic_config, timer_interrupts), head, taken)]
            {
                &&& regions_listed(self.bus().entries(), mem_reg)
                &&& wrote(root, platform_writes(mem_reg, self.vcpus(), gic_config, timer_interrupts), head, taken)
                &&& if taken {
                    self.basic_config_after_platform(mem_reg, head, after, r)
                } else {
                    after == head && r == refusal_of(
                        write_error(root, platform_writes(mem_reg, self.vcpus(), gic_config, timer_interrupts), head),
                    )
                }
            }
    }

    /// What `create_fdt_basic_config` comes to, whatever the writer and the
    /// devices do: a writer that held `before` holds `after`, and `r` is the
    /// result. The properties of the root node are handed to the writer; the
    /// devices report the ordinary memory; the nodes of the platform are
    /// handed to the writer; each device adds itself; without ordinary memory
    /// the result is `NoMemory`; else the node that configures the virtual
    /// machine is written. The first refusal or failure ends it: a write of
    /// this library that the writer refuses, with the error of that write; a
    /// device that fails, or a write that is refused in the node that
    /// configures the virtual machine, with an error of the writer.
    pub open spec fn basic_config_ran(
        &self,
        gic_config: Seq<u64>,
        timer_interrupts: Seq<u32>,
        before: Seq<FdtItem>,
        after: Seq<FdtItem>,
        r: Result<(), ConfigError>,
    ) -> bool {
        exists|root: Seq<FdtItem>, taken: bool|
            #[trigger] wrote(before, root_writes(), root, taken) && if taken {
                self.basic_config_after_root(gic_config, timer_interrupts, root, after, r)
            } else {
                after == root && r == refusal_of(write_error(before, root_writes(), root))
            }
    }

    /// What the end of `create_fdt_vm_config` comes to, for a writer that
    /// held `head` when the node of the virtual devices was begun and holds
    /// `filled` now: where the devices and the doorbells have left as many
    /// nodes open as they found, the node of the virtual devices and the node
    /// around it are ended; else the writer refuses with `OutOfOrderEndNode`
    /// and nothing is written.
    pub open spec fn vm_config_closed(
        head: Seq<FdtItem>,
        filled: Seq<FdtItem>,
        after: Seq<FdtItem>,
        r: Result<(), FdtError>,
    ) -> bool {
        if open_nodes(filled) == open_nodes(head) {
            r is Ok && after == filled.push(FdtItem::EndNode).push(FdtItem::EndNode)
        } else {
            r == Err::<(), FdtError>(FdtError::OutOfOrderEndNode) && after == filled
        }
    }

    /// What `create_fdt_vm_config` comes to after the devices, for a writer
    /// that held `head` before them and holds `devices` after them: the
    /// doorbells are written, then the nodes are ended.
    pub open spec fn vm_config_after_devices(
        &self,
        head: Seq<FdtItem>,
        devices: Seq<FdtItem>,
        after: Seq<FdtItem>,
        r: Result<(), FdtError>,
    ) -> bool {
        exists|filled: Seq<FdtItem>, written: Result<(), FdtError>|
            #[trigger] interrupts_ran(self.interrupts(), devices, filled, written) && if written is Ok {
                Self::vm_config_closed(head, filled, after, r)
            } else {
                after == filled && r == written
            }
    }

    /// What `create_fdt_vm_config` comes to after the head, for a writer that
    /// holds `head`: the devices add themselves, then the doorbells are
    /// written, then the nodes are ended. Where a device fails, the result is
    /// an error.
    pub open spec fn vm_config_after_head(
        &self,
        head: Seq<FdtItem>,
        after: Seq<FdtItem>,
        r: Result<(), FdtError>,
    ) -> bool {
        exists|devices: Seq<FdtItem>, added: bool|
            #[trigger] devices_ran(self.bus().entries(), true, head, devices, added) && if added {
                self.vm_config_after_devices(head, devices, after, r)
            } else {
                after == devices && r is Err
            }
    }

    /// What `create_fdt_vm_config` comes to, whatever the writer and the
    /// devices do: a writer that held `before` holds `after`, and `r` is the
    /// result. The head of the node is handed to the writer; then each device
    /// adds itself; then the nodes of the doorbells are written; then the
    /// node of the virtual devices and the node around it are ended. The
    /// first refusal or failure ends it; where it is the writer that refuses
    /// a write of this library, the result is the error of that write.
    pub open spec fn vm_config_ran(
        &self,
        os_type: Seq<char>,
        base_address: u64,
        firmware_address: Option<u64>,
        intc_phandle: u32,
        before: Seq<FdtItem>,
        after: Seq<FdtItem>,
        r: Result<(), FdtError>,
    ) -> bool {
        exists|head: Seq<FdtItem>, taken: bool|
            #[trigger] wrote(
                before,
                vm_config_head_writes(os_type, base_address, firmware_address, intc_phandle),
                head,
                taken,
            ) && if taken {
                self.vm_config_after_head(head, after, r)
            } else {
                after == head && r == Err::<(), FdtError>(
                    write_error(
                        before,
                        vm_config_head_writes(os_type, base_address, firmware_address, intc_phandle),
                        head,
                    ),
                )
            }
    }

    /// Writes the node that configures the virtual machine for the
    /// hypervisor: its head, what the devices add to the list of virtual
    /// devices, the nodes of the doorbells, and the ends of the nodes. It
    /// stops at the first that the writer refuses or that a device fails at.
    pub fn create_fdt_vm_config(
        &self,
        fdt: &mut FdtWriter,
        os_type: &str,
        base_address: u64,
        firmware_address: Option<u64>,
        intc_phandle: u32,
    ) -> (r: Result<(), FdtError>)
        ensures
            self.vm_config_ran(
                os_type@,
                base_address,
                firmware_address,
                intc_phandle,
                fdt_items(*old(fdt)),
                fdt_items(*final(fdt)),
                r,
            ),
            r is Ok ==> exists|added: Seq<FdtItem>|
                #[trigger] self.vm_config_written(os_type@, base_address, firmware_address, intc_phandle, added)
                    && fdt_items(*final(fdt)) == fdt_items(*old(fdt)) + added,
    {
        let ghost before = fdt_items(*fdt);
        let (vm_config, vdev_node) = match write_vm_config_head(
            fdt,
            os_type,
            base_address,
            firmware_address,
            intc_phandle,
        ) {
            Ok(nodes) => nodes,
            Err(e) => {
                return Err(e);
            },
        };
        let ghost ws = vm_config_head_writes(os_type@, base_address, firmware_address, intc_phandle);
        let ghost before_devices = fdt_items(*fdt);
        let added = self.bus.generate_gunyah_vdevice_config(fdt);
        let ghost after_devices = fdt_items(*fdt);
        proof {
            assert(wrote(before, ws, before_devices, true));
            assert(devices_ran(self.bus().entries(), true, before_devices, after_devices, added is Ok));
            if added is Err {
                assert(self.vm_config_after_head(before_devices, after_devices, added));
            }
        }
        if let Err(e) = added {
            return Err(e);
        }
        let ghost devices = choose|added: Seq<FdtItem>|
            #[trigger] vdevice_written(self.bus().entries(), added) && after_devices == before_devices + added;
        let written = self.write_interrupts(fdt);
        let ghost filled = fdt_items(*fdt);
        proof {
            assert(interrupts_ran(self.interrupts(), after_devices, filled, written));
            if written is Err {
                assert(self.vm_config_after_devices(before_devices, after_devices, filled, written));
                assert(self.vm_config_after_head(before_devices, filled, written));
            }
        }
        if let Err(e) = written {
            return Err(e);
        }
        proof {
            lemma_open_nodes_push(filled, FdtItem::EndNode);
        }
        let ended = checked(fdt_end_node(fdt, vdev_node));
        proof {
            if ended is Err {
                assert(Self::vm_config_closed(before_devices, filled, fdt_items(*fdt), ended));
                assert(self.vm_config_after_devices(before_devices, after_devices, fdt_items(*fdt), ended));
                assert(self.vm_config_after_head(before_devices, fdt_items(*fdt), ended));
            }
        }
        if let Err(e) = ended {
            return Err(e);
        }
        let closed = checked(fdt_end_node(fdt, vm_config));
        proof {
            assert(closed is Ok);
            assert(Self::vm_config_closed(before_devices, filled, fdt_items(*fdt), closed));
            assert(self.vm_config_after_devices(before_devices, after_devices, fdt_items(*fdt), closed));
            assert(self.vm_config_after_head(before_devices, fdt_items(*fdt), closed));
        }
        if let Err(e) = closed {
            return Err(e);
        }
        proof {
            let added = self.vm_config_items(os_type@, base_address, firmware_address, intc_phandle, devices);
            assert(fdt_items(*fdt) =~= before + added);
            assert(self.vm_config_written(os_type@, base_address, firmware_address, intc_phandle, added));
        }
        Ok(())
    }

    /// Writes the nodes of the doorbells, in the order in which the
    /// interrupts were added, up to the first that the writer refuses.
    fn write_interrupts(&self, fdt: &mut FdtWriter) -> (r: Result<(), FdtError>)
        ensures
            interrupts_ran(self.interrupts(), fdt_items(*old(fdt)), fdt_items(*final(fdt)), r),
            r is Ok ==> fdt_items(*final(fdt)) == fdt_items(*old(fdt)) + interrupt_items(self.interrupts()),
    {
        let ghost start = fdt_items(*fdt);
        let mut i: usize = 0;
        proof {
            assert(fdt_items(*fdt) =~= start + interrupt_items(self.interrupts().take(0)));
        }
        while i < self.interrupts.len()
            invariant
                0 <= i <= self.interrupts.len(),
                start == fdt_items(*old(fdt)),
                interrupts_ran(self.interrupts().take(i as int), start, fdt_items(*fdt), Ok(())),
                fdt_items(*fdt) == start + interrupt_items(self.interrupts().take(i as int)),
            decreases self.interrupts.len() - i,
        {
            let ghost mid = fdt_items(*fdt);
            let res = self.interrupts[i].generate_vdevice(fdt);
            proof {
                let s = self.interrupts();
                assert(s.take(i + 1).drop_last() == s.take(i as int));
                assert(s.take(i + 1).last() == s[i as int]);
                lemma_interrupts_step(s.take(i + 1), start, mid, fdt_items(*fdt), res);
                if res is Err {
                    lemma_interrupts_failed(s, i + 1, start, fdt_items(*fdt), res);
                }
            }
            if let Err(e) = res {
                return Err(e);
            }
            proof {
                let s = self.interrupts();
                assert(fdt_items(*fdt) =~= start + interrupt_items(s.take(i + 1)));
            }
            i += 1;
        }
        proof {
            assert(self.interrupts().take(i as int) == self.interrupts());
        }
        Ok(())
    }

    /// Writes the device tree of the guest, but for the root node around it.
    /// It needs ordinary memory on the bus: the first extent of it is the base
    /// address that the hypervisor is told. It stops at the first write that
    /// the writer refuses or that a device fails at.
    pub fn create_fdt_basic_config(
        &self,
        fdt: &mut FdtWriter,
        gic_config: &[u64; 4],
        timer_interrupts: &[u32; 4],
    ) -> (r: Result<(), ConfigError>)
        ensures
            self.basic_config_ran(gic_config@, timer_interrupts@, fdt_items(*old(fdt)), fdt_items(*final(fdt)), r),
            r is Ok ==> exists|added: Seq<FdtItem>|
                #[trigger] self.basic_config_written(gic_config@, timer_interrupts@, added) && fdt_items(
                    *final(fdt),
                ) == fdt_items(*old(fdt)) + added,
            r matches Err(ConfigError::NoMemory) ==> regions_listed(self.bus().entries(), Seq::empty()),
    {
        let ghost before = fdt_items(*fdt);
        if let Err(e) = write_root_properties(fdt) {
            return Err(ConfigError::Fdt(e));
        }
        let ghost root = fdt_items(*fdt);
        let r = self.config_after_root(fdt, gic_config, timer_interrupts);
        proof {
            if r is Ok {
                self.lemma_basic_written(gic_config@, timer_interrupts@, before, root, fdt_items(*fdt));
            }
        }
        r
    }

    /// What is written after the properties of the root node makes, with
    /// them, the device tree of the guest but for the root node around it.
    proof fn lemma_basic_written(
        &self,
        gic_config: Seq<u64>,
        timer_interrupts: Seq<u32>,
        before: Seq<FdtItem>,
        root: Seq<FdtItem>,
        after: Seq<FdtItem>,
    )
        requires
            root == before + items_of(root_writes()),
            exists|mem_reg: Seq<u64>, devices: Seq<FdtItem>, vm_config: Seq<FdtItem>|
                #[trigger] self.after_root_written(gic_config, timer_interrupts, root, after, mem_reg, devices, vm_config),
        ensures
            exists|added: Seq<FdtItem>|
                #[trigger] self.basic_config_written(gic_config, timer_interrupts, added) && after == before + added,
    {
        let (mem_reg, devices, vm_config) = choose|
            mem_reg: Seq<u64>,
            devices: Seq<FdtItem>,
            vm_config: Seq<FdtItem>,
        |
            #[trigger] self.after_root_written(gic_config, timer_interrupts, root, after, mem_reg, devices, vm_config);
        let added = self.basic_config_items(mem_reg, gic_config, timer_interrupts, devices, vm_config);
        lemma_concat_five(
            before,
            items_of(root_writes()),
            items_of(platform_writes(mem_reg, self.vcpus(), gic_config, timer_interrupts)),
            devices,
            vm_config,
        );
        assert(after == before + added);
        assert(self.basic_config_written(gic_config, timer_interrupts, added));
    }

    /// Whether a writer that held `root` after the properties of the root
    /// node holds `after` once the rest was written, with the memory
    /// `mem_reg` and with `devices` and `vm_config` added after the nodes of
    /// the platform.
    pub open spec fn after_root_written(
        &self,
        gic_config: Seq<u64>,
        timer_interrupts: Seq<u32>,
        root: Seq<FdtItem>,
        after: Seq<FdtItem>,
        mem_reg: Seq<u64>,
        devices: Seq<FdtItem>,
        vm_config: Seq<FdtItem>,
    ) -> bool {
        &&& regions_listed(self.bus().entries(), mem_reg)
        &&& self.after_platform_written(mem_reg, devices, vm_config)
        &&& after == root + items_of(platform_writes(mem_reg, self.vcpus(), gic_config, timer_interrupts))
            + devices + vm_config
    }

    /// Whether `devices` may be what the devices add after the nodes of the
    /// platform, and `vm_config` the node that configures the virtual machine
    /// with the memory `mem_reg`.
    pub open spec fn after_platform_written(
        &self,
        mem_reg: Seq<u64>,
        devices: Seq<FdtItem>,
        vm_config: Seq<FdtItem>,
    ) -> bool {
        &&& mem_reg.len() > 0
        &&& device_written(self.bus().entries(), devices)
        &&& self.vm_config_written("linux"@, mem_reg[0], None, PHANDLE_GIC, vm_config)
    }

    /// Writes what follows the properties of the root node: the nodes of the
    /// platform, with the memory that the devices report, and the rest.
    fn config_after_root(
        &self,
        fdt: &mut FdtWriter,
        gic_config: &[u64; 4],
        timer_interrupts: &[u32; 4],
    ) -> (r: Result<(), ConfigError>)
        ensures
            self.basic_config_after_root(
                gic_config@,
                timer_interrupts@,
                fdt_items(*old(fdt)),
                fdt_items(*final(fdt)),
                r,
            ),
            r is Ok ==> exists|mem_reg: Seq<u64>, devices: Seq<FdtItem>, vm_config: Seq<FdtItem>|
                #[trigger] self.after_root_written(
                    gic_config@,
                    timer_interrupts@,
                    fdt_items(*old(fdt)),
                    fdt_items(*final(fdt)),
                    mem_reg,
                    devices,
                    vm_config,
                ),
            r matches Err(ConfigError::NoMemory) ==> regions_listed(self.bus().entries(), Seq::empty()),
    {
        let ghost root = fdt_items(*fdt);
        let mem_reg: Vec<u64> = self.bus.list_memory_regions();
        let ghost ws = platform_writes(mem_reg@, self.vcpus(), gic_config@, timer_interrupts@);
        let headed = self.write_platform(fdt, &mem_reg, gic_config, timer_interrupts);
        let ghost head = fdt_items(*fdt);
        proof {
            assert(wrote(root, ws, head, headed is Ok));
        }
        if let Err(e) = headed {
            return Err(ConfigError::Fdt(e));
        }
        let r = self.config_after_platform(fdt, &mem_reg);
        proof {
            if mem_reg@.len() == 0 {
                assert(mem_reg@ =~= Seq::<u64>::empty());
            }
            if r is Ok {
                let (devices, vm_config) = choose|devices: Seq<FdtItem>, vm_config: Seq<FdtItem>|
                    #![trigger self.after_platform_written(mem_reg@, devices, vm_config)]
                    self.after_platform_written(mem_reg@, devices, vm_config) && fdt_items(*fdt) == head + devices
                        + vm_config;
                assert(fdt_items(*fdt) =~= root + items_of(ws) + devices + vm_config);
                assert(self.after_root_written(
                    gic_config@,
                    timer_interrupts@,
                    root,
                    fdt_items(*fdt),
                    mem_reg@,
                    devices,
                    vm_config,
                ));
            }
        }
        r
    }

    /// Writes what follows the nodes of the platform: what the devices add,
    /// and, where there is ordinary memory, the node that configures the
    /// virtual machine.
    fn config_after_platform(&self, fdt: &mut FdtWriter, mem_reg: &Vec<u64>) -> (r: Result<(), ConfigError>)
        ensures
            self.basic_config_after_platform(mem_reg@, fdt_items(*old(fdt)), fdt_items(*final(fdt)), r),
            r is Ok ==> exists|devices: Seq<FdtItem>, vm_config: Seq<FdtItem>|
                #![trigger self.after_platform_written(mem_reg@, devices, vm_config)]
                self.after_platform_written(mem_reg@, devices, vm_config) && fdt_items(*final(fdt)) == fdt_items(
                    *old(fdt),
                ) + devices + vm_config,
            r matches Err(ConfigError::NoMemory) ==> mem_reg@.len() == 0,
    {
        let ghost head = fdt_items(*fdt);
        let added = self.bus.generate_device_config(fdt);
        let ghost devices = fdt_items(*fdt);
        proof {
            assert(devices_ran(self.bus().entries(), false, head, devices, added is Ok));
        }
        if let Err(e) = added {
            return Err(ConfigError::Fdt(e));
        }
        if mem_reg.len() == 0 {
            return Err(ConfigError::NoMemory);
        }
        let configured = self.create_fdt_vm_config(fdt, "linux", mem_reg[0], None, PHANDLE_GIC);
        let r = match configured {
            Ok(()) => Ok(()),
            Err(e) => Err(ConfigError::Fdt(e)),
        };
        proof {
            assert(r == config_result(configured));
            assert(self.basic_config_after_devices(mem_reg@, devices, fdt_items(*fdt), r));
            if r is Ok {
                let from_devices = choose|added: Seq<FdtItem>|
                    #[trigger] device_written(self.bus().entries(), added) && devices == head + added;
                let vm_config = choose|added: Seq<FdtItem>|
                    #[trigger] self.vm_config_written("linux"@, mem_reg@[0], None, PHANDLE_GIC, added) && fdt_items(
                        *fdt,
                    ) == devices + added;
                assert(self.after_platform_written(mem_reg@, from_devices, vm_config));
            }
        }
        r
    }

    /// Hands the writer the nodes of the platform, up to the first write
    /// that it refuses.
    fn write_platform(
        &self,
        fdt: &mut FdtWriter,
        mem_reg: &Vec<u64>,
        gic_config: &[u64; 4],
        timer_interrupts: &[u32; 4],
    ) -> (r: Result<(), FdtError>)
        ensures
            wrote(
                fdt_items(*old(fdt)),
                platform_writes(mem_reg@, self.vcpus(), gic_config@, timer_interrupts@),
                fdt_items(*final(fdt)),
                r is Ok,
            ),
            r is Ok ==> fdt_items(*final(fdt)) == fdt_items(*old(fdt)) + items_of(
                platform_writes(mem_reg@, self.vcpus(), gic_config@, timer_interrupts@),
            ),
            r matches Err(e) ==> e == write_error(
                fdt_items(*old(fdt)),
                platform_writes(mem_reg@, self.vcpus(), gic_config@, timer_interrupts@),
                fdt_items(*final(fdt)),
            ),
    {
        proof {
            lemma_platform_layout(mem_reg@, self.vcpus(), gic_config@, timer_interrupts@);
        }
        self.write_pieces(
            fdt,
            mem_reg,
            gic_config,
            timer_interrupts,
            Ghost(platform_writes(mem_reg@, self.vcpus(), gic_config@, timer_interrupts@)),
        )
    }

    /// Hands the writer the writes `ws`, in which the nodes of the platform
    /// stand one after the other, up to the first write that it refuses.
    fn write_pieces(
        &self,
        fdt: &mut FdtWriter,
        mem_reg: &Vec<u64>,
        gic_config: &[u64; 4],
        timer_interrupts: &[u32; 4],
        Ghost(ws): Ghost<Seq<FdtWrite>>,
    ) -> (r: Result<(), FdtError>)
        requires
            ws.len() == 27 + 7 * (self.vcpus().len() as int),
            holds_at(ws, 0, memory_writes(mem_reg@)),
            holds_at(ws, 4, cpus_writes(self.vcpus())),
            holds_at(ws, 8 + 7 * (self.vcpus().len() as int), psci_writes()),
            holds_at(ws, 12 + 7 * (self.vcpus().len() as int), intc_writes(gic_config@)),
            holds_at(ws, 21 + 7 * (self.vcpus().len() as int), timer_writes(timer_interrupts@)),
        ensures
            wrote(fdt_items(*old(fdt)), ws, fdt_items(*final(fdt)), r is Ok),
            r is Ok ==> fdt_items(*final(fdt)) == fdt_items(*old(fdt)) + items_of(ws),
            r matches Err(e) ==> e == write_error(fdt_items(*old(fdt)), ws, fdt_items(*final(fdt))),
    {
        let ghost start = fdt_items(*fdt);
        let ghost n = self.vcpus().len() as int;
        proof {
            lemma_at_start(start, ws);
        }
        write_memory_node(fdt, mem_reg, Ghost(start), Ghost(ws), Ghost(0))?;
        self.write_cpus_node(fdt, Ghost(start), Ghost(ws), Ghost(4))?;
        write_psci_node(fdt, Ghost(start), Ghost(ws), Ghost(8 + 7 * n))?;
        write_intc_node(fdt, gic_config, Ghost(start), Ghost(ws), Ghost(12 + 7 * n))?;
        write_timer_node(fdt, timer_interrupts, Ghost(start), Ghost(ws), Ghost(21 + 7 * n))?;
        proof {
            lemma_at_end(start, ws, fdt_items(*fdt));
        }
        Ok(())
    }

    /// Hands the writer the node of the CPUs, which stands in `ws` from
    /// index `k` on.
    fn write_cpus_node(
        &self,
        fdt: &mut FdtWriter,
        Ghost(start): Ghost<Seq<FdtItem>>,
        Ghost(ws): Ghost<Seq<FdtWrite>>,
        Ghost(k): Ghost<int>,
    ) -> (r: Result<(), FdtError>)
        requires
            at(start, ws, k, fdt_items(*old(fdt))),
            holds_at(ws, k, cpus_writes(self.vcpus())),
        ensures
            r is Ok ==> at(start, ws, k + 4 + 7 * self.vcpus().len(), fdt_items(*final(fdt))),
            r is Ok ==> open_nodes(fdt_items(*final(fdt))) == open_nodes(fdt_items(*old(fdt))),
            r is Err ==> wrote(start, ws, fdt_items(*final(fdt)), false),
            r matches Err(e) ==> e == write_error(start, ws, fdt_items(*final(fdt))),
        r matches Err(e) ==> e == write_error(start, ws, fdt_items(*final(fdt))),
    {
        let ghost piece = cpus_writes(self.vcpus());
        let ghost n = self.vcpus().len() as int;
        proof {
            lemma_cpus_layout(self.vcpus());
            lemma_holds_inner(ws, k, piece, 0, cpus_open_writes());
            let open = cpus_open_writes();
            lemma_holds_index(ws, k, open, 0);
            lemma_holds_index(ws, k, open, 1);
            lemma_holds_index(ws, k, open, 2);
            lemma_holds_index(ws, k, piece, 3 + 7 * n);
        }
        let cpus = put_begin(fdt, "cpus", Ghost(start), Ghost(ws), Ghost(k))?;
        put_u32(fdt, "#address-cells", 1, Ghost(start), Ghost(ws), Ghost(k + 1))?;
        put_u32(fdt, "#size-cells", 0, Ghost(start), Ghost(ws), Ghost(k + 2))?;
        let ghost inside = open_nodes(fdt_items(*fdt));
        let mut i: usize = 0;
        while i < self.vcpus.len()
            invariant
                0 <= i <= self.vcpus.len(),
                n == self.vcpus().len(),
                piece == cpus_writes(self.vcpus()),
                holds_at(ws, k, piece),
                at(start, ws, k + 3 + 7 * i, fdt_items(*fdt)),
                open_nodes(fdt_items(*fdt)) == inside,
            decreases self.vcpus.len() - i,
        {
            let id: u32 = self.vcpus[i].id();
            proof {
                lemma_cpus_layout(self.vcpus());
                let v = self.vcpus()[i as int];
                lemma_holds_inner(ws, k, piece, 3 + 7 * i, cpu_node_writes(v.spec_id() as u32));
            }
            write_cpu_node(fdt, id, Ghost(start), Ghost(ws), Ghost(k + 3 + 7 * i))?;
            i += 1;
        }
        put_end(fdt, cpus, Ghost(start), Ghost(ws), Ghost(k + 3 + 7 * n))?;
        Ok(())
    }
}

/// Writes the head of the node that configures the virtual machine, up to
/// the first write that the writer refuses. On success it hands back the
/// handles of the two nodes that are still open: the node itself and the node
/// of the virtual devices.
fn write_vm_config_head(
    fdt: &mut FdtWriter,
    os_type: &str,
    base_address: u64,
    firmware_address: Option<u64>,
    intc_phandle: u32,
) -> (r: Result<(FdtWriterNode, FdtWriterNode), FdtError>)
    ensures
        wrote(
            fdt_items(*old(fdt)),
            vm_config_head_writes(os_type@, base_address, firmware_address, intc_phandle),
            fdt_items(*final(fdt)),
            r is Ok,
        ),
        r is Ok ==> fdt_items(*final(fdt)) == fdt_items(*old(fdt)) + vm_config_head(
            os_type@,
            base_address,
            firmware_address,
            intc_phandle,
        ),
        r matches Err(e) ==> e == write_error(
            fdt_items(*old(fdt)),
            vm_config_head_writes(os_type@, base_address, firmware_address, intc_phandle),
            fdt_items(*final(fdt)),
        ),
        r matches Ok(nodes) ==> {
            &&& fdt_node_depth(nodes.0) == open_nodes(fdt_items(*old(fdt))) + 1
            &&& fdt_node_depth(nodes.1) == open_nodes(fdt_items(*final(fdt)))
            &&& open_nodes(fdt_items(*final(fdt))) == open_nodes(fdt_items(*old(fdt))) + 2
        },
{
    let ghost start = fdt_items(*fdt);
    let ghost ws = vm_config_head_writes(os_type@, base_address, firmware_address, intc_phandle);
    let ghost next: int = if firmware_address is Some {
        8
    } else {
        7
    };
    proof {
        lemma_at_start(start, ws);
    }
    let vm_config = put_begin(fdt, "gunyah-vm-config", Ghost(start), Ghost(ws), Ghost(0))?;
    put_string(fdt, "image-name", "gunyah-vmm-vm", Ghost(start), Ghost(ws), Ghost(1))?;
    put_string(fdt, "os-type", os_type, Ghost(start), Ghost(ws), Ghost(2))?;

    let memory_node = put_begin(fdt, "memory", Ghost(start), Ghost(ws), Ghost(3))?;
    put_u32(fdt, "#address-cells", 2, Ghost(start), Ghost(ws), Ghost(4))?;
    put_u32(fdt, "#size-cells", 2, Ghost(start), Ghost(ws), Ghost(5))?;
    put_u64(fdt, "base-address", base_address, Ghost(start), Ghost(ws), Ghost(6))?;
    if let Some(addr) = firmware_address {
        put_u64(fdt, "firmware-address", addr, Ghost(start), Ghost(ws), Ghost(7))?;
    }
    put_end(fdt, memory_node, Ghost(start), Ghost(ws), Ghost(next))?;

    let interrupts_node = put_begin(fdt, "interrupts", Ghost(start), Ghost(ws), Ghost(next + 1))?;
    put_u32(fdt, "config", intc_phandle, Ghost(start), Ghost(ws), Ghost(next + 2))?;
    put_end(fdt, interrupts_node, Ghost(start), Ghost(ws), Ghost(next + 3))?;

    let vcpus_node = put_begin(fdt, "vcpus", Ghost(start), Ghost(ws), Ghost(next + 4))?;
    put_string(fdt, "affinity", "proxy", Ghost(start), Ghost(ws), Ghost(next + 5))?;
    put_end(fdt, vcpus_node, Ghost(start), Ghost(ws), Ghost(next + 6))?;

    let vdev_node = put_begin(fdt, "vdevices", Ghost(start), Ghost(ws), Ghost(next + 7))?;
    put_string(fdt, "generate", "/hypervisor", Ghost(start), Ghost(ws), Ghost(next + 8))?;
    proof {
        lemma_at_end(start, ws, fdt_items(*fdt));
    }
    Ok((vm_config, vdev_node))
}

/// Appending is associative.
proof fn lemma_concat_five(a: Seq<FdtItem>, b: Seq<FdtItem>, c: Seq<FdtItem>, d: Seq<FdtItem>, e: Seq<FdtItem>)
    ensures
        a + b + c + d + e == a + (b + c + d + e),
{
    assert(a + b + c + d + e =~= a + (b + c + d + e));
}

/// Hands the writer the properties of the root node, up to the first that
/// it refuses.
fn write_root_properties(fdt: &mut FdtWriter) -> (r: Result<(), FdtError>)
    ensures
        wrote(fdt_items(*old(fdt)), root_writes(), fdt_items(*final(fdt)), r is Ok),
        r is Ok ==> fdt_items(*final(fdt)) == fdt_items(*old(fdt)) + items_of(root_writes()),
        r matches Err(e) ==> e == write_error(fdt_items(*old(fdt)), root_writes(), fdt_items(*final(fdt))),
{
    let ghost start = fdt_items(*fdt);
    let ghost ws = root_writes();
    proof {
        reveal(root_writes);
        lemma_at_start(start, ws);
    }
    put_u32(fdt, "#address-cells", 2, Ghost(start), Ghost(ws), Ghost(0))?;
    put_u32(fdt, "#size-cells", 2, Ghost(start), Ghost(ws), Ghost(1))?;
    put_u32(fdt, "interrupt-parent", PHANDLE_GIC, Ghost(start), Ghost(ws), Ghost(2))?;
    proof {
        lemma_at_end(start, ws, fdt_items(*fdt));
    }
    Ok(())
}

/// Hands the writer the node of the memory, which stands in `ws` from index
/// `k` on.
fn write_memory_node(
    fdt: &mut FdtWriter,
    mem_reg: &Vec<u64>,
    Ghost(start): Ghost<Seq<FdtItem>>,
    Ghost(ws): Ghost<Seq<FdtWrite>>,
    Ghost(k): Ghost<int>,
) -> (r: Result<(), FdtError>)
    requires
        at(start, ws, k, fdt_items(*old(fdt))),
        holds_at(ws, k, memory_writes(mem_reg@)),
    ensures
        r is Ok ==> at(start, ws, k + 4, fdt_items(*final(fdt))),
        r is Ok ==> open_nodes(fdt_items(*final(fdt))) == open_nodes(fdt_items(*old(fdt))),
        r is Err ==> wrote(start, ws, fdt_items(*final(fdt)), false),
        r matches Err(e) ==> e == write_error(start, ws, fdt_items(*final(fdt))),
{
    proof {
        let piece = memory_writes(mem_reg@);
        lemma_holds_index(ws, k, piece, 0);
        lemma_holds_index(ws, k, piece, 1);
        lemma_holds_index(ws, k, piece, 2);
        lemma_holds_index(ws, k, piece, 3);
    }
    let node = put_begin(fdt, "memory", Ghost(start), Ghost(ws), Ghost(k))?;
    put_string(fdt, "device_type", "memory", Ghost(start), Ghost(ws), Ghost(k + 1))?;
    put_cells64(fdt, "reg", mem_reg.as_slice(), Ghost(start), Ghost(ws), Ghost(k + 2))?;
    put_end(fdt, node, Ghost(start), Ghost(ws), Ghost(k + 3))?;
    Ok(())
}

/// Hands the writer the node of the CPU `id`, which stands in `ws` from
/// index `k` on.
fn write_cpu_node(
    fdt: &mut FdtWriter,
    id: u32,
    Ghost(start): Ghost<Seq<FdtItem>>,
    Ghost(ws): Ghost<Seq<FdtWrite>>,
    Ghost(k): Ghost<int>,
) -> (r: Result<(), FdtError>)
    requires
        at(start, ws, k, fdt_items(*old(fdt))),
        holds_at(ws, k, cpu_node_writes(id)),
    ensures
        r is Ok ==> at(start, ws, k + 7, fdt_items(*final(fdt))),
        r is Ok ==> open_nodes(fdt_items(*final(fdt))) == open_nodes(fdt_items(*old(fdt))),
        r is Err ==> wrote(start, ws, fdt_items(*final(fdt)), false),
        r matches Err(e) ==> e == write_error(start, ws, fdt_items(*final(fdt))),
{
    proof {
        let piece = cpu_node_writes(id);
        lemma_holds_index(ws, k, piece, 0);
        lemma_holds_index(ws, k, piece, 1);
        lemma_holds_index(ws, k, piece, 2);
        lemma_holds_index(ws, k, piece, 3);
        lemma_holds_index(ws, k, piece, 4);
        lemma_holds_index(ws, k, piece, 5);
        lemma_holds_index(ws, k, piece, 6);
    }
    let mut name = String::from_str("cpu@");
    push_hex(&mut name, id as u64);
    let node = put_begin(fdt, name.as_str(), Ghost(start), Ghost(ws), Ghost(k))?;
    put_string(fdt, "device_type", "cpu", Ghost(start), Ghost(ws), Ghost(k + 1))?;
    put_string(fdt, "compatible", "arm,arm-v8", Ghost(start), Ghost(ws), Ghost(k + 2))?;
    put_string(fdt, "enable-method", "psci", Ghost(start), Ghost(ws), Ghost(k + 3))?;
    put_u32(fdt, "reg", id, Ghost(start), Ghost(ws), Ghost(k + 4))?;
    // Makes the hypervisor's resource manager set up PSCI.
    put_null(fdt, "cpu-idle-states", Ghost(start), Ghost(ws), Ghost(k + 5))?;
    put_end(fdt, node, Ghost(start), Ghost(ws), Ghost(k + 6))?;
    Ok(())
}

/// Hands the writer the node of PSCI, which stands in `ws` from index `k`
/// on.
fn write_psci_node(
    fdt: &mut FdtWriter,
    Ghost(start): Ghost<Seq<FdtItem>>,
    Ghost(ws): Ghost<Seq<FdtWrite>>,
    Ghost(k): Ghost<int>,
) -> (r: Result<(), FdtError>)
    requires
        at(start, ws, k, fdt_items(*old(fdt))),
        holds_at(ws, k, psci_writes()),
    ensures
        r is Ok ==> at(start, ws, k + 4, fdt_items(*final(fdt))),
        r is Ok ==> open_nodes(fdt_items(*final(fdt))) == open_nodes(fdt_items(*old(fdt))),
        r is Err ==> wrote(start, ws, fdt_items(*final(fdt)), false),
        r matches Err(e) ==> e == write_error(start, ws, fdt_items(*final(fdt))),
{
    proof {
        let piece = psci_writes();
        lemma_holds_index(ws, k, piece, 0);
        lemma_holds_index(ws, k, piece, 1);
        lemma_holds_index(ws, k, piece, 2);
        lemma_holds_index(ws, k, piece, 3);
    }
    let node = put_begin(fdt, "psci", Ghost(start), Ghost(ws), Ghost(k))?;
    put_string(fdt, "compatible", "arm,psci-0.2", Ghost(start), Ghost(ws), Ghost(k + 1))?;
    put_string(fdt, "method", "hvc", Ghost(start), Ghost(ws), Ghost(k + 2))?;
    put_end(fdt, node, Ghost(start), Ghost(ws), Ghost(k + 3))?;
    Ok(())
}

/// Hands the writer the node of the interrupt controller, which stands in
/// `ws` from index `k` on.
fn write_intc_node(
    fdt: &mut FdtWriter,
    gic_config: &[u64; 4],
    Ghost(start): Ghost<Seq<FdtItem>>,
    Ghost(ws): Ghost<Seq<FdtWrite>>,
    Ghost(k): Ghost<int>,
) -> (r: Result<(), FdtError>)
    requires
        at(start, ws, k, fdt_items(*old(fdt))),
        holds_at(ws, k, intc_writes(gic_config@)),
    ensures
        r is Ok ==> at(start, ws, k + 9, fdt_items(*final(fdt))),
        r is Ok ==> open_nodes(fdt_items(*final(fdt))) == open_nodes(fdt_items(*old(fdt))),
        r is Err ==> wrote(start, ws, fdt_items(*final(fdt)), false),
        r matches Err(e) ==> e == write_error(start, ws, fdt_items(*final(fdt))),
{
    proof {
        let piece = intc_writes(gic_config@);
        lemma_holds_index(ws, k, piece, 0);
        lemma_holds_index(ws, k, piece, 1);
        lemma_holds_index(ws, k, piece, 2);
        lemma_holds_index(ws, k, piece, 3);
        lemma_holds_index(ws, k, piece, 4);
        lemma_holds_index(ws, k, piece, 5);
        lemma_holds_index(ws, k, piece, 6);
        lemma_holds_index(ws, k, piece, 7);
        lemma_holds_index(ws, k, piece, 8);
    }
    let mut name = String::from_str("interrupt-controller@");
    push_hex(&mut name, gic_config[0]);
    let node = put_begin(fdt, name.as_str(), Ghost(start), Ghost(ws), Ghost(k))?;
    put_string(fdt, "compatible", "arm,gic-v3", Ghost(start), Ghost(ws), Ghost(k + 1))?;
    put_u32(fdt, "#interrupt-cells", 3, Ghost(start), Ghost(ws), Ghost(k + 2))?;
    put_u32(fdt, "#address-cells", 2, Ghost(start), Ghost(ws), Ghost(k + 3))?;
    put_u32(fdt, "#size-cells", 2, Ghost(start), Ghost(ws), Ghost(k + 4))?;
    put_null(fdt, "interrupt-controller", Ghost(start), Ghost(ws), Ghost(k + 5))?;
    put_cells64(fdt, "reg", gic_config.as_slice(), Ghost(start), Ghost(ws), Ghost(k + 6))?;
    put_u32(fdt, "phandle", PHANDLE_GIC, Ghost(start), Ghost(ws), Ghost(k + 7))?;
    put_end(fdt, node, Ghost(start), Ghost(ws), Ghost(k + 8))?;
    Ok(())
}

/// Hands the writer the node of the timer, which stands in `ws` from index
/// `k` on.
fn write_timer_node(
    fdt: &mut FdtWriter,
    timer_interrupts: &[u32; 4],
    Ghost(start): Ghost<Seq<FdtItem>>,
    Ghost(ws): Ghost<Seq<FdtWrite>>,
    Ghost(k): Ghost<int>,
) -> (r: Result<(), FdtError>)
    requires
        at(start, ws, k, fdt_items(*old(fdt))),
        holds_at(ws, k, timer_writes(timer_interrupts@)),
    ensures
        r is Ok ==> at(start, ws, k + 6, fdt_items(*final(fdt))),
        r is Ok ==> open_nodes(fdt_items(*final(fdt))) == open_nodes(fdt_items(*old(fdt))),
        r is Err ==> wrote(start, ws, fdt_items(*final(fdt)), false),
        r matches Err(e) ==> e == write_error(start, ws, fdt_items(*final(fdt))),
{
    proof {
        let piece = timer_writes(timer_interrupts@);
        lemma_holds_index(ws, k, piece, 0);
        lemma_holds_index(ws, k, piece, 1);
        lemma_holds_index(ws, k, piece, 2);
        lemma_holds_index(ws, k, piece, 3);
        lemma_holds_index(ws, k, piece, 4);
        lemma_holds_index(ws, k, piece, 5);
    }
    let node = put_begin(fdt, "timer", Ghost(start), Ghost(ws), Ghost(k))?;
    put_string(fdt, "compatible", "arm,armv8-timer", Ghost(start), Ghost(ws), Ghost(k + 1))?;
    put_null(fdt, "always-on", Ghost(start), Ghost(ws), Ghost(k + 2))?;
    let interrupts: [u32; 12] = [
        1,
        timer_interrupts[0],
        0x108,
        1,
        timer_interrupts[1],
        0x108,
        1,
        timer_interrupts[2],
        0x108,
        1,
        timer_interrupts[3],
        0x108,
    ];
    assert(interrupts@ =~= timer_cells(timer_interrupts@));
    put_cells32(fdt, "interrupts", interrupts.as_slice(), Ghost(start), Ghost(ws), Ghost(k + 3))?;
    put_u32(fdt, "clock-frequency", 19200000, Ghost(start), Ghost(ws), Ghost(k + 4))?;
    put_end(fdt, node, Ghost(start), Ghost(ws), Ghost(k + 5))?;
    Ok(())
}

} // verus!
