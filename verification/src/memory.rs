//! Guest memory: a window of a backing, the guest address at which the window
//! is mapped, the flags of the hypervisor's map call, and the partial release
//! of a mapped window.

use vstd::prelude::*;
use crate::bus::AccessId;
use crate::bus::BusAccessInfo;
use crate::text::hex_digits;
use crate::text::push_hex;

verus! {

/// How host and guest share a mapped window.
#[derive(Copy, Clone, Debug, PartialEq, Eq, Structural)]
pub enum ShareType {
    /// Host and guest both access the memory.
    Share,
    /// The guest alone accesses the memory until it is reclaimed.
    Lend,
}

/// What the guest may do with a mapped window.
#[derive(Copy, Clone, Debug, PartialEq, Eq, Structural)]
pub enum GuestMemoryAccess {
    R,
    Rw,
    Rx,
    Rwx,
}

/// Flags of the hypervisor's map call, as the kernel's `gunyah.h` numbers them.
pub const GUNYAH_MEM_FORCE_LEND: u32 = 1;

pub const GUNYAH_MEM_FORCE_SHARE: u32 = 2;

pub const GUNYAH_MEM_ALLOW_READ: u32 = 0x10;

pub const GUNYAH_MEM_ALLOW_WRITE: u32 = 0x20;

pub const GUNYAH_MEM_ALLOW_EXEC: u32 = 0x40;

pub const GUNYAH_MEM_ALLOW_RWX: u32 = 0x70;

pub const GUNYAH_MEM_UNMAP: u32 = 0x100;

/// The flag for a share type.
pub open spec fn share_flag(share_type: ShareType) -> u32 {
    match share_type {
        ShareType::Share => GUNYAH_MEM_FORCE_SHARE,
        ShareType::Lend => GUNYAH_MEM_FORCE_LEND,
    }
}

/// The flags for the guest's access rights.
pub open spec fn access_flags(access: GuestMemoryAccess) -> u32 {
    match access {
        GuestMemoryAccess::R => GUNYAH_MEM_ALLOW_READ,
        GuestMemoryAccess::Rw => GUNYAH_MEM_ALLOW_READ | GUNYAH_MEM_ALLOW_WRITE,
        GuestMemoryAccess::Rx => GUNYAH_MEM_ALLOW_READ | GUNYAH_MEM_ALLOW_EXEC,
        GuestMemoryAccess::Rwx => GUNYAH_MEM_ALLOW_RWX,
    }
}

/// The flags of a map call (`unmap` false) or of its inverse (`unmap` true).
pub open spec fn spec_map_flags(share_type: ShareType, access: GuestMemoryAccess, unmap: bool) -> u32 {
    share_flag(share_type) | access_flags(access) | if unmap {
        GUNYAH_MEM_UNMAP
    } else {
        0
    }
}

/// Computes the flags of a map call: share or lend, the access rights, and
/// whether the call unmaps.
pub fn map_flags(share_type: ShareType, access: GuestMemoryAccess, unmap: bool) -> (flags: u32)
    ensures
        flags == spec_map_flags(share_type, access, unmap),
{
    let share: u32 = match share_type {
        ShareType::Share => GUNYAH_MEM_FORCE_SHARE,
        ShareType::Lend => GUNYAH_MEM_FORCE_LEND,
    };
    let rights: u32 = match access {
        GuestMemoryAccess::R => GUNYAH_MEM_ALLOW_READ,
        GuestMemoryAccess::Rw => GUNYAH_MEM_ALLOW_READ | GUNYAH_MEM_ALLOW_WRITE,
        GuestMemoryAccess::Rx => GUNYAH_MEM_ALLOW_READ | GUNYAH_MEM_ALLOW_EXEC,
        GuestMemoryAccess::Rwx => GUNYAH_MEM_ALLOW_RWX,
    };
    let inverse: u32 = if unmap {
        GUNYAH_MEM_UNMAP
    } else {
        0
    };
    share | rights | inverse
}

/// The flags of a call keep its parts apart: from the flags one reads back
/// the share type, each access right and whether the call unmaps.
pub proof fn lemma_map_flags_parts(share_type: ShareType, access: GuestMemoryAccess, unmap: bool)
    ensures
        spec_map_flags(share_type, access, unmap) & 0x7 == share_flag(share_type),
        spec_map_flags(share_type, access, unmap) & GUNYAH_MEM_ALLOW_RWX == access_flags(access),
        (spec_map_flags(share_type, access, unmap) & GUNYAH_MEM_UNMAP != 0) == unmap,
        access_flags(access) & GUNYAH_MEM_ALLOW_READ != 0,
        (access_flags(access) & GUNYAH_MEM_ALLOW_WRITE != 0) == (access == GuestMemoryAccess::Rw || access
            == GuestMemoryAccess::Rwx),
        (access_flags(access) & GUNYAH_MEM_ALLOW_EXEC != 0) == (access == GuestMemoryAccess::Rx || access
            == GuestMemoryAccess::Rwx),
{
    assert(forall|s: u32, a: u32, u: u32|
        (s == 1 || s == 2) && (a & 0x70 == a) && (u == 0 || u == 0x100) ==> #[trigger] ((s | a | u) & 0x7) == s
            && (s | a | u) & 0x70 == a && (((s | a | u) & 0x100 != 0) == (u == 0x100))) by (bit_vector);
    assert((0x10u32 | 0x20u32) & 0x70 == (0x10u32 | 0x20u32) && (0x10u32 | 0x40u32) & 0x70 == (0x10u32
        | 0x40u32) && 0x10u32 & 0x70 == 0x10u32 && 0x70u32 & 0x70 == 0x70u32) by (bit_vector);
    assert((0x10u32 | 0x20u32) & 0x10 != 0 && (0x10u32 | 0x40u32) & 0x10 != 0 && 0x10u32 & 0x10 != 0
        && 0x70u32 & 0x10 != 0) by (bit_vector);
    assert((0x10u32 | 0x20u32) & 0x20 != 0 && (0x10u32 | 0x40u32) & 0x20 == 0 && 0x10u32 & 0x20 == 0
        && 0x70u32 & 0x20 != 0) by (bit_vector);
    assert((0x10u32 | 0x20u32) & 0x40 == 0 && (0x10u32 | 0x40u32) & 0x40 != 0 && 0x10u32 & 0x40 == 0
        && 0x70u32 & 0x40 != 0) by (bit_vector);
    let s = share_flag(share_type);
    let a = access_flags(access);
    let u: u32 = if unmap { GUNYAH_MEM_UNMAP } else { 0 };
    assert(((s | a | u) & 0x7) == s);
}


/// The arguments of the hypervisor's map call, but for the descriptor of the
/// backing, which the caller holds.
#[derive(Copy, Clone, Debug, PartialEq, Eq, Structural)]
pub struct MapMemArgs {
    pub guest_addr: u64,
    pub flags: u32,
    pub offset: u64,
    pub size: u64,
}

/// Which memory object backs a window: the device and the inode of the
/// descriptor. Two handles are the same backing if and only if both agree.
#[derive(Copy, Clone, Debug, PartialEq, Eq, Structural)]
pub struct GuestMem {
    pub dev: u64,
    pub ino: u64,
}

/// Modes of the call that reserves and releases the storage of a backing, as
/// Linux numbers them.
pub const FALLOC_FL_KEEP_SIZE: i32 = 0x01;

pub const FALLOC_FL_PUNCH_HOLE: i32 = 0x02;

/// The arguments of the call that reserves or releases the storage of a part
/// of a backing.
#[derive(Copy, Clone, Debug, PartialEq, Eq, Structural)]
pub struct FallocateArgs {
    pub mode: i32,
    pub offset: i64,
    pub len: i64,
}

/// Whether `len` bytes from `offset` on are a range of a backing of
/// `mem_len` bytes: the range does not start before the backing, its length
/// is not negative, and it does not reach past the backing's end.
pub open spec fn range_in_backing(mem_len: u64, offset: i64, len: i64) -> bool {
    0 <= offset && 0 <= len && offset + len <= mem_len
}

impl GuestMem {
    /// The arguments that reserve storage for `len` bytes at `offset` of a
    /// backing that is `mem_len` bytes long at this time. The backing keeps
    /// its size, so a range that is not within it is refused.
    pub fn allocate(&self, mem_len: u64, offset: i64, len: i64) -> (r: Result<FallocateArgs, RegionError>)
        ensures
            r == if range_in_backing(mem_len, offset, len) {
                Ok::<FallocateArgs, RegionError>(FallocateArgs { mode: FALLOC_FL_KEEP_SIZE, offset, len })
            } else {
                Err::<FallocateArgs, RegionError>(RegionError::PastEnd)
            },
    {
        if !within_backing(mem_len, offset, len) {
            return Err(RegionError::PastEnd);
        }
        Ok(FallocateArgs { mode: FALLOC_FL_KEEP_SIZE, offset, len })
    }

    /// The arguments that release the storage of `len` bytes at `offset` of
    /// a backing that is `mem_len` bytes long at this time; the bytes read as
    /// zeros afterwards, and releasing what is released already changes
    /// nothing. The backing keeps its size, so a range that is not within it
    /// is refused.
    pub fn punch_hole(&self, mem_len: u64, offset: i64, len: i64) -> (r: Result<FallocateArgs, RegionError>)
        ensures
            r == if range_in_backing(mem_len, offset, len) {
                Ok::<FallocateArgs, RegionError>(FallocateArgs { mode: 0x03, offset, len })
            } else {
                Err::<FallocateArgs, RegionError>(RegionError::PastEnd)
            },
    {
        if !within_backing(mem_len, offset, len) {
            return Err(RegionError::PastEnd);
        }
        assert(0x01i32 | 0x02i32 == 0x03i32) by (bit_vector);
        Ok(FallocateArgs { mode: FALLOC_FL_KEEP_SIZE | FALLOC_FL_PUNCH_HOLE, offset, len })
    }
}

/// Tells whether a range is within a backing.
pub fn within_backing(mem_len: u64, offset: i64, len: i64) -> (b: bool)
    ensures
        b == range_in_backing(mem_len, offset, len),
{
    if offset < 0 || len < 0 {
        return false;
    }
    let end: u64 = offset as u64 + len as u64;
    end <= mem_len
}

/// Why a window was refused.
#[derive(Copy, Clone, Debug, PartialEq, Eq, Structural)]
pub enum RegionError {
    /// The window has no bytes.
    ZeroSize,
    /// The window reaches past the end of what it is a window of.
    PastEnd,
    /// The window, put at its guest address, reaches past the last address.
    OutsideAddressSpace,
    /// The accessor is a vCPU: only the monitor itself reads and writes guest
    /// memory through the bus.
    VcpuAccess,
}

/// The part of a backing that a process mapping covers.
#[derive(Copy, Clone, Debug, PartialEq, Eq, Structural)]
pub struct MapWindow {
    /// Offset into the backing.
    pub offset: u64,
    /// Number of bytes.
    pub len: usize,
}

/// A window of a backing: `size` bytes at offset `off`.
#[derive(Copy, Clone, Debug, PartialEq, Eq, Structural)]
pub struct GuestMemRegion {
    pub mem: GuestMem,
    pub off: u64,
    pub size: usize,
}

impl GuestMemRegion {
    /// A window is not empty and ends within the range of offsets.
    pub open spec fn wf(&self) -> bool {
        self.size > 0 && self.off + self.size <= u64::MAX
    }

    /// The window of `size` bytes at offset `off` of the backing `mem`, whose
    /// length is `mem_len` bytes at this time.
    pub fn new(mem: GuestMem, mem_len: u64, off: u64, size: usize) -> (r: Result<Self, RegionError>)
        ensures
            match r {
                Ok(region) => {
                    &&& size > 0
                    &&& off + size <= mem_len
                    &&& region.wf()
                    &&& region.mem == mem
                    &&& region.off == off
                    &&& region.size == size
                },
                Err(e) => if size == 0 {
                    e == RegionError::ZeroSize
                } else {
                    e == RegionError::PastEnd && off + size > mem_len
                },
            },
    {
        if size == 0 {
            return Err(RegionError::ZeroSize);
        }
        if off > mem_len || size as u64 > mem_len - off {
            return Err(RegionError::PastEnd);
        }
        Ok(GuestMemRegion { mem, off, size })
    }

    /// What to map for the `size` bytes at offset `off` of this window.
    fn map_options(&self, off: u64, size: usize) -> (r: Result<MapWindow, RegionError>)
        requires
            self.wf(),
        ensures
            match r {
                Ok(w) => {
                    &&& size > 0
                    &&& off + size <= self.size
                    &&& w.offset == self.off + off
                    &&& w.len == size
                },
                Err(e) => if size == 0 {
                    e == RegionError::ZeroSize
                } else {
                    e == RegionError::PastEnd && off + size > self.size
                },
            },
    {
        if size == 0 {
            return Err(RegionError::ZeroSize);
        }
        if off > self.size as u64 || size as u64 > self.size as u64 - off {
            return Err(RegionError::PastEnd);
        }
        Ok(MapWindow { offset: self.off + off, len: size })
    }

    /// What to map read-only for the `size` bytes at offset `off` of this
    /// window.
    pub fn map_region(&self, off: u64, size: usize) -> (r: Result<MapWindow, RegionError>)
        requires
            self.wf(),
        ensures
            match r {
                Ok(w) => {
                    &&& size > 0
                    &&& off + size <= self.size
                    &&& w.offset == self.off + off
                    &&& w.len == size
                },
                Err(e) => if size == 0 {
                    e == RegionError::ZeroSize
                } else {
                    e == RegionError::PastEnd && off + size > self.size
                },
            },
    {
        self.map_options(off, size)
    }

    /// What to map for reading and writing for the `size` bytes at offset
    /// `off` of this window.
    pub fn map_region_mut(&self, off: u64, size: usize) -> (r: Result<MapWindow, RegionError>)
        requires
            self.wf(),
        ensures
            match r {
                Ok(w) => {
                    &&& size > 0
                    &&& off + size <= self.size
                    &&& w.offset == self.off + off
                    &&& w.len == size
                },
                Err(e) => if size == 0 {
                    e == RegionError::ZeroSize
                } else {
                    e == RegionError::PastEnd && off + size > self.size
                },
            },
    {
        self.map_options(off, size)
    }

    /// What to map read-only for the whole window.
    pub fn map(&self) -> (w: MapWindow)
        requires
            self.wf(),
        ensures
            w.offset == self.off,
            w.len == self.size,
    {
        MapWindow { offset: self.off, len: self.size }
    }

    /// What to map for reading and writing for the whole window.
    pub fn map_mut(&self) -> (w: MapWindow)
        requires
            self.wf(),
        ensures
            w.offset == self.off,
            w.len == self.size,
    {
        MapWindow { offset: self.off, len: self.size }
    }

    pub fn as_guest_mem(&self) -> (mem: &GuestMem)
        ensures
            *mem == self.mem,
    {
        &self.mem
    }

    pub fn offset(&self) -> (off: u64)
        ensures
            off == self.off,
    {
        self.off
    }

    pub fn size(&self) -> (size: usize)
        ensures
            size == self.size,
    {
        self.size
    }
}

/// The arguments with which `region` is mapped at `guest_addr`.
pub fn map_memory(
    guest_addr: u64,
    share_type: ShareType,
    access: GuestMemoryAccess,
    region: &GuestMemRegion,
) -> (args: MapMemArgs)
    ensures
        args == (MapMemArgs {
            guest_addr,
            flags: spec_map_flags(share_type, access, false),
            offset: region.off,
            size: region.size as u64,
        }),
{
    MapMemArgs {
        guest_addr,
        flags: map_flags(share_type, access, false),
        offset: region.offset(),
        size: region.size() as u64,
    }
}

/// The arguments with which the mapping of `region` at `guest_addr` is undone:
/// those of the map call, and the unmap flag.
pub fn unmap_memory(
    guest_addr: u64,
    share_type: ShareType,
    access: GuestMemoryAccess,
    region: &GuestMemRegion,
) -> (args: MapMemArgs)
    ensures
        args == (MapMemArgs {
            guest_addr,
            flags: spec_map_flags(share_type, access, true),
            offset: region.off,
            size: region.size as u64,
        }),
{
    MapMemArgs {
        guest_addr,
        flags: map_flags(share_type, access, true),
        offset: region.offset(),
        size: region.size() as u64,
    }
}

/// A window of a backing that is mapped into a guest.
#[derive(Copy, Clone, Debug, PartialEq, Eq, Structural)]
pub struct GunyahGuestMemoryRegion {
    pub region: GuestMemRegion,
    pub guest_address: u64,
    pub share_type: ShareType,
    pub guest_access: GuestMemoryAccess,
    /// Whether the mapping is still to be undone when this value goes.
    pub unmap_on_drop: bool,
    /// Whether the guest is told of the window as ordinary memory.
    pub regular_memory: bool,
}

impl GunyahGuestMemoryRegion {
    /// The window is well formed and, put at its guest address, ends within
    /// the address space.
    pub open spec fn wf(&self) -> bool {
        &&& self.region.wf()
        &&& self.guest_address + self.region.size <= 0x1_0000_0000_0000_0000
    }

    /// The part of this mapping that covers `size` bytes from `offset` on.
    pub open spec fn part(&self, offset: int, size: int) -> Self
        recommends
            self.wf(),
            0 <= offset,
            0 < size,
            offset + size <= self.region.size,
    {
        GunyahGuestMemoryRegion {
            region: GuestMemRegion {
                mem: self.region.mem,
                off: (self.region.off + offset) as u64,
                size: size as usize,
            },
            guest_address: (self.guest_address + offset) as u64,
            share_type: self.share_type,
            guest_access: self.guest_access,
            unmap_on_drop: self.unmap_on_drop,
            regular_memory: self.regular_memory,
        }
    }

    /// What is left of this mapping when `len` bytes at `offset` are released:
    /// what lies before them, where `offset` is not 0, and what lies after them,
    /// where they do not reach the end.
    pub open spec fn residuals(&self, offset: u64, len: usize) -> Seq<Self> {
        let before = if offset > 0 {
            seq![self.part(0, offset as int)]
        } else {
            Seq::empty()
        };
        let after = if offset + len < self.region.size {
            seq![self.part(offset + len, self.region.size - (offset + len))]
        } else {
            Seq::empty()
        };
        before + after
    }

    /// Describes the mapping of `region` at `guest_address`.
    pub fn new(
        region: GuestMemRegion,
        guest_address: u64,
        share_type: ShareType,
        guest_access: GuestMemoryAccess,
        unmap_on_drop: bool,
        regular_memory: bool,
    ) -> (r: Result<Self, RegionError>)
        requires
            region.wf(),
        ensures
            r is Ok == (guest_address + region.size <= 0x1_0000_0000_0000_0000),
            r matches Ok(m) ==> m.wf() && m == (GunyahGuestMemoryRegion {
                region,
                guest_address,
                share_type,
                guest_access,
                unmap_on_drop,
                regular_memory,
            }),
            r matches Err(e) ==> e == RegionError::OutsideAddressSpace,
    {
        if region.size as u64 - 1 > u64::MAX - guest_address {
            return Err(RegionError::OutsideAddressSpace);
        }
        Ok(
            GunyahGuestMemoryRegion {
                region,
                guest_address,
                share_type,
                guest_access,
                unmap_on_drop,
                regular_memory,
            },
        )
    }

    /// Describes fresh memory of `len` bytes for the guest at `start`: all of
    /// the backing `mem`, which holds `len` bytes. Memory that is lent is
    /// exclusive to the guest and is told to it as ordinary memory; memory
    /// that is shared is not. The mapping is not undone when the value goes.
    pub fn for_memory(
        mem: GuestMem,
        start: u64,
        len: usize,
        share_type: ShareType,
        guest_access: GuestMemoryAccess,
    ) -> (r: Result<Self, RegionError>)
        ensures
            r == Self::spec_for_memory(mem, start, len, share_type, guest_access, share_type == ShareType::Lend),
            r matches Ok(m) ==> m.wf(),
    {
        let regular_memory: bool = match share_type {
            ShareType::Share => false,
            ShareType::Lend => true,
        };
        let region: GuestMemRegion = GuestMemRegion::new(mem, len as u64, 0, len)?;
        GunyahGuestMemoryRegion::new(region, start, share_type, guest_access, false, regular_memory)
    }

    /// Describes fresh memory as `for_memory` does, but told to the guest as
    /// ordinary memory whether it is lent or shared.
    pub fn for_regular_memory(
        mem: GuestMem,
        start: u64,
        len: usize,
        share_type: ShareType,
        guest_access: GuestMemoryAccess,
    ) -> (r: Result<Self, RegionError>)
        ensures
            r == Self::spec_for_memory(mem, start, len, share_type, guest_access, true),
            r matches Ok(m) ==> m.wf(),
    {
        let region: GuestMemRegion = GuestMemRegion::new(mem, len as u64, 0, len)?;
        GunyahGuestMemoryRegion::new(region, start, share_type, guest_access, false, true)
    }

    /// The description of fresh memory, or why there is none.
    pub open spec fn spec_for_memory(
        mem: GuestMem,
        start: u64,
        len: usize,
        share_type: ShareType,
        guest_access: GuestMemoryAccess,
        regular_memory: bool,
    ) -> Result<Self, RegionError> {
        if len == 0 {
            Err(RegionError::ZeroSize)
        } else if start + len > 0x1_0000_0000_0000_0000 {
            Err(RegionError::OutsideAddressSpace)
        } else {
            Ok(
                GunyahGuestMemoryRegion {
                    region: GuestMemRegion { mem, off: 0, size: len },
                    guest_address: start,
                    share_type,
                    guest_access,
                    unmap_on_drop: false,
                    regular_memory,
                },
            )
        }
    }

    pub fn as_region(&self) -> (region: &GuestMemRegion)
        ensures
            *region == self.region,
    {
        &self.region
    }

    pub fn guest_address(&self) -> (addr: u64)
        ensures
            addr == self.guest_address,
    {
        self.guest_address
    }

    /// The arguments with which the hypervisor maps this window.
    pub open spec fn spec_map_args(&self) -> MapMemArgs {
        MapMemArgs {
            guest_addr: self.guest_address,
            flags: spec_map_flags(self.share_type, self.guest_access, false),
            offset: self.region.off,
            size: self.region.size as u64,
        }
    }

    /// The arguments with which the hypervisor unmaps this window: those it
    /// was mapped with, and the unmap flag.
    pub open spec fn spec_unmap_args(&self) -> MapMemArgs {
        MapMemArgs {
            guest_addr: self.guest_address,
            flags: spec_map_flags(self.share_type, self.guest_access, true),
            offset: self.region.off,
            size: self.region.size as u64,
        }
    }

    /// The calls of the hypervisor that a release of `len` bytes at `offset`
    /// takes, in their order: the unmap of the whole window; the map of what
    /// lies before the released bytes, where `offset` is not 0; the map of
    /// what lies after them, where they do not reach the end.
    pub open spec fn spec_release_calls(&self, offset: u64, len: usize) -> Seq<MapMemArgs> {
        let before = if offset > 0 {
            seq![self.part(0, offset as int).spec_map_args()]
        } else {
            Seq::empty()
        };
        let after = if offset + len < self.region.size {
            seq![self.part(offset + len, self.region.size - (offset + len)).spec_map_args()]
        } else {
            Seq::empty()
        };
        seq![self.spec_unmap_args()] + before + after
    }

    /// The arguments with which the hypervisor maps this window.
    pub fn map_args(&self) -> (args: MapMemArgs)
        ensures
            args == self.spec_map_args(),
    {
        map_memory(self.guest_address, self.share_type, self.guest_access, &self.region)
    }

    /// The arguments with which the hypervisor unmaps this window: those it
    /// was mapped with, and the unmap flag.
    pub fn unmap_args(&self) -> (args: MapMemArgs)
        ensures
            args == self.spec_unmap_args(),
    {
        unmap_memory(self.guest_address, self.share_type, self.guest_access, &self.region)
    }

    /// What is to be done when this value goes: the unmap call, if the mapping
    /// is still this value's to undo.
    pub fn drop_args(&self) -> (args: Option<MapMemArgs>)
        ensures
            args is Some == self.unmap_on_drop,
            args matches Some(a) ==> a == self.spec_unmap_args(),
    {
        if self.unmap_on_drop {
            Some(self.unmap_args())
        } else {
            None
        }
    }

    /// The number of windows that a release of `len` bytes at `offset`
    /// leaves; `None` where that is no release: nothing is to be released, or
    /// more than the window holds, or all of it.
    pub fn residual_count(&self, offset: u64, len: usize) -> (n: Option<usize>)
        ensures
            n is Some == (0 < len && offset + len <= self.region.size && (offset > 0 || offset + len
                < self.region.size)),
            n matches Some(k) ==> k == self.residuals(offset, len).len(),
    {
        let size: u64 = self.region.size as u64;
        if len == 0 || offset > size || len as u64 > size - offset {
            return None;
        }
        let before: usize = if offset > 0 {
            1
        } else {
            0
        };
        let after: usize = if offset + (len as u64) < size {
            1
        } else {
            0
        };
        if before + after == 0 {
            None
        } else {
            Some(before + after)
        }
    }

    /// What a release of `len` bytes at `offset` leaves of the window: what
    /// lies before the released bytes, at the same guest address, and what
    /// lies after them.
    fn split(&self, offset: u64, len: usize) -> (residuals: Vec<GunyahGuestMemoryRegion>)
        requires
            self.wf(),
            0 < len,
            offset + len <= self.region.size,
            offset > 0 || offset + len < self.region.size,
        ensures
            residuals@ == self.residuals(offset, len),
            forall|i: int| 0 <= i < residuals@.len() ==> (#[trigger] residuals@[i]).wf(),
    {
        let mut vec: Vec<GunyahGuestMemoryRegion> = Vec::new();
        let size: u64 = self.region.size as u64;
        if offset != 0 {
            vec.push(
                GunyahGuestMemoryRegion {
                    region: GuestMemRegion { mem: self.region.mem, off: self.region.off, size: offset as usize },
                    guest_address: self.guest_address,
                    share_type: self.share_type,
                    guest_access: self.guest_access,
                    unmap_on_drop: self.unmap_on_drop,
                    regular_memory: self.regular_memory,
                },
            );
        }
        let end: u64 = offset + len as u64;
        if end != size {
            vec.push(
                GunyahGuestMemoryRegion {
                    region: GuestMemRegion {
                        mem: self.region.mem,
                        off: self.region.off + end,
                        size: (size - end) as usize,
                    },
                    guest_address: self.guest_address + end,
                    share_type: self.share_type,
                    guest_access: self.guest_access,
                    unmap_on_drop: self.unmap_on_drop,
                    regular_memory: self.regular_memory,
                },
            );
        }
        assert(vec@ =~= self.residuals(offset, len));
        vec
    }

    /// The calls of the hypervisor that a release of `len` bytes at `offset`
    /// takes, in the order in which they are made. The hypervisor unmaps
    /// whole windows only: the first call unmaps this window, and the calls
    /// after it map what the release leaves, with the share type and the
    /// access that this window was mapped with.
    pub fn release_calls(&self, offset: u64, len: usize) -> (calls: Vec<MapMemArgs>)
        requires
            self.wf(),
            0 < len,
            offset + len <= self.region.size,
            offset > 0 || offset + len < self.region.size,
        ensures
            calls@ == self.spec_release_calls(offset, len),
    {
        let parts = self.split(offset, len);
        let mut calls: Vec<MapMemArgs> = Vec::new();
        calls.push(self.unmap_args());
        if parts.len() >= 1 {
            calls.push(parts[0].map_args());
        }
        if parts.len() >= 2 {
            calls.push(parts[1].map_args());
        }
        assert(calls@ =~= self.spec_release_calls(offset, len));
        calls
    }

    /// Releases `len` bytes at `offset` of the window, once the hypervisor
    /// has answered the unmap of the whole window, the first of
    /// `release_calls`; `unmapped` is its answer, with the error's number
    /// where it refused. Where it refused, nothing is released: the error is
    /// handed on, and this value is as it was and still owes its unmap.
    /// Else the windows that are left are returned, for the caller to map
    /// each (`map_args`), and the unmap is no longer owed for this value.
    pub fn punch_hole(&mut self, offset: u64, len: usize, unmapped: Result<(), i32>) -> (r: Result<
        Vec<GunyahGuestMemoryRegion>,
        i32,
    >)
        requires
            old(self).wf(),
            0 < len,
            offset + len <= old(self).region.size,
            offset > 0 || offset + len < old(self).region.size,
        ensures
            match unmapped {
                Ok(()) => {
                    &&& r matches Ok(residuals)
                    &&& residuals@ == old(self).residuals(offset, len)
                    &&& forall|i: int| 0 <= i < residuals@.len() ==> (#[trigger] residuals@[i]).wf()
                    &&& *final(self) == (GunyahGuestMemoryRegion { unmap_on_drop: false, ..*old(self) })
                },
                Err(errno) => r == Err::<Vec<GunyahGuestMemoryRegion>, i32>(errno) && *final(self) == *old(self),
            },
    {
        match unmapped {
            Ok(()) => Ok(self.release(offset, len)),
            Err(errno) => Err(errno),
        }
    }

    /// Releases `len` bytes at `offset` of a window that the hypervisor has
    /// unmapped: the windows that are left are returned, and the unmap is no
    /// longer owed for this value.
    pub(crate) fn release(&mut self, offset: u64, len: usize) -> (residuals: Vec<GunyahGuestMemoryRegion>)
        requires
            old(self).wf(),
            0 < len,
            offset + len <= old(self).region.size,
            offset > 0 || offset + len < old(self).region.size,
        ensures
            *final(self) == (GunyahGuestMemoryRegion { unmap_on_drop: false, ..*old(self) }),
            residuals@ == old(self).residuals(offset, len),
            forall|i: int| 0 <= i < residuals@.len() ==> (#[trigger] residuals@[i]).wf(),
    {
        let residuals = self.split(offset, len);
        self.unmap_on_drop = false;
        residuals
    }

    /// The extent that the guest is told of as ordinary memory: the guest
    /// address and the size, where the window is ordinary memory.
    pub fn memory_regions(&self) -> (r: Option<Vec<u64>>)
        ensures
            r is Some == self.regular_memory,
            r matches Some(v) ==> v@ == seq![self.guest_address, self.region.size as u64],
    {
        if self.regular_memory {
            let mut v: Vec<u64> = Vec::new();
            v.push(self.guest_address);
            v.push(self.region.size as u64);
            Some(v)
        } else {
            None
        }
    }

    /// The label under which the bus reports failures of this window.
    pub fn debug_label(&self) -> (s: String)
        ensures
            s@ == "GunyahGuestMemoryRegion@"@ + hex_digits(self.guest_address as nat),
    {
        let mut s = String::from_str("GunyahGuestMemoryRegion@");
        push_hex(&mut s, self.guest_address);
        s
    }

    /// What to map for an access of `len` bytes that the bus hands to this
    /// window: `len` bytes at the offset of the access. Only the monitor itself
    /// accesses guest memory through the bus.
    pub fn access_window(&self, access: BusAccessInfo, len: usize) -> (r: Result<MapWindow, RegionError>)
        requires
            self.wf(),
        ensures
            match r {
                Ok(w) => {
                    &&& access.id == AccessId::VmmUserspace
                    &&& len > 0
                    &&& access.offset + len <= self.region.size
                    &&& w.offset == self.region.off + access.offset
                    &&& w.len == len
                },
                Err(e) => if access.id != AccessId::VmmUserspace {
                    e == RegionError::VcpuAccess
                } else if len == 0 {
                    e == RegionError::ZeroSize
                } else {
                    e == RegionError::PastEnd && access.offset + len > self.region.size
                },
            },
    {
        match access.id {
            AccessId::VmmUserspace => self.region.map_region(access.offset, len),
            AccessId::Vcpu(_) => Err(RegionError::VcpuAccess),
        }
    }
}

/// A release in the middle of a window leaves exactly two windows; a release
/// at its start leaves exactly the one after it, and a release at its end
/// exactly the one before it.
pub proof fn lemma_residual_count(m: GunyahGuestMemoryRegion, offset: u64, len: usize)
    requires
        m.wf(),
        0 < len,
        offset + len <= m.region.size,
    ensures
        0 < offset && offset + len < m.region.size ==> m.residuals(offset, len) == seq![
            m.part(0, offset as int),
            m.part(offset + len, m.region.size - (offset + len)),
        ],
        offset == 0 && offset + len < m.region.size ==> m.residuals(offset, len) == seq![
            m.part(offset + len, m.region.size - (offset + len)),
        ],
        0 < offset && offset + len == m.region.size ==> m.residuals(offset, len) == seq![
            m.part(0, offset as int),
        ],
        offset == 0 && offset + len == m.region.size ==> m.residuals(offset, len).len() == 0,
{
    assert(0 < offset && offset + len < m.region.size ==> m.residuals(offset, len) =~= seq![
        m.part(0, offset as int),
        m.part(offset + len, m.region.size - (offset + len)),
    ]);
    assert(offset == 0 && offset + len < m.region.size ==> m.residuals(offset, len) =~= seq![
        m.part(offset + len, m.region.size - (offset + len)),
    ]);
    assert(0 < offset && offset + len == m.region.size ==> m.residuals(offset, len) =~= seq![
        m.part(0, offset as int),
    ]);
}

/// Whether the window `m` covers the byte at offset `x` of the window that it
/// is a part of, which begins at guest address `base` and at offset `off` of
/// the backing.
pub open spec fn covers(m: GunyahGuestMemoryRegion, base: u64, off: u64, x: int) -> bool {
    &&& m.guest_address <= base + x < m.guest_address + m.region.size
    &&& m.region.off - off == m.guest_address - base
}

/// The windows that a release leaves partition what was not released: each
/// byte of the window outside the released bytes lies in exactly one of them,
/// at its old guest address and its old place in the backing, and no released
/// byte lies in any.
pub proof fn lemma_residuals_partition(m: GunyahGuestMemoryRegion, offset: u64, len: usize, x: int)
    requires
        m.wf(),
        0 < len,
        offset + len <= m.region.size,
        0 <= x < m.region.size,
    ensures
        offset <= x < offset + len ==> forall|i: int|
            0 <= i < m.residuals(offset, len).len() ==> !covers(
                #[trigger] m.residuals(offset, len)[i],
                m.guest_address,
                m.region.off,
                x,
            ),
        !(offset <= x < offset + len) ==> exists|i: int|
            {
                &&& 0 <= i < m.residuals(offset, len).len()
                &&& covers(#[trigger] m.residuals(offset, len)[i], m.guest_address, m.region.off, x)
                &&& forall|j: int|
                    0 <= j < m.residuals(offset, len).len() && j != i ==> !covers(
                        #[trigger] m.residuals(offset, len)[j],
                        m.guest_address,
                        m.region.off,
                        x,
                    )
            },
        forall|i: int|
            0 <= i < m.residuals(offset, len).len() ==> {
                let p = #[trigger] m.residuals(offset, len)[i];
                &&& p.region.mem == m.region.mem
                &&& p.share_type == m.share_type
                &&& p.guest_access == m.guest_access
                &&& p.regular_memory == m.regular_memory
                &&& p.region.off - m.region.off == p.guest_address - m.guest_address
                &&& m.guest_address <= p.guest_address
                &&& p.guest_address + p.region.size <= m.guest_address + m.region.size
            },
{
    lemma_residual_count(m, offset, len);
    let r = m.residuals(offset, len);
    if !(offset <= x < offset + len) {
        if x < offset {
            assert(covers(r[0], m.guest_address, m.region.off, x));
        } else {
            let i = r.len() - 1;
            assert(covers(r[i], m.guest_address, m.region.off, x));
        }
    }
}

} // verus!
