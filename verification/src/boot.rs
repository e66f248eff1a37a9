//! What the monitor is told on its command line, and where it puts the
//! images, the ramdisk and the device tree before the guest boots.

use vstd::prelude::*;
use crate::text::chars_of;
use crate::text::push_char;
use crate::types::parse_text;
use crate::types::GuestAddress;
use crate::types::GuestSize;
use crate::types::ParseError;
use crate::bus::BusDevice;
use crate::bus::BusDeviceSync;
use crate::fdt::fdt_begin_node;
use crate::fdt::fdt_blob;
use crate::fdt::fdt_end_node;
use crate::fdt::fdt_error;
use crate::fdt::fdt_finish;
use crate::fdt::finish_refusal;
use crate::fdt::begin_write;
use crate::fdt::end_write;
use crate::fdt::fdt_items;
use crate::fdt::items_of;
use crate::fdt::lemma_at_end;
use crate::fdt::lemma_at_start;
use crate::fdt::open_nodes;
use crate::fdt::plain_write;
use crate::fdt::put_begin;
use crate::fdt::put_end;
use crate::fdt::put_string;
use crate::fdt::put_u32;
use crate::fdt::string_write;
use crate::fdt::u32_item;
use crate::fdt::write_error;
use crate::fdt::wrote;
use crate::fdt::FdtWrite;
use crate::fdt::fdt_new;
use crate::fdt::FdtError;
use crate::fdt::FdtItem;
use crate::virtual_machine::begin;
use crate::virtual_machine::ConfigError;
use crate::virtual_machine::GunyahVirtualMachine;
use vm_fdt::FdtWriter;
use vm_fdt::FdtWriterNode;
use crate::fdt::fdt_node_depth;
use crate::serial::SerialDevice;
use crate::text::hex_digits;

verus! {

/// The base address of the guest's memory where none is given.
pub const DEFAULT_MEM_BASE: u64 = 0x8000_0000;

/// The size of the guest's memory where none is given: 100 MB.
pub const DEFAULT_MEM_SIZE: u64 = 104857600;

/// The number of vCPUs where none is given.
pub const DEFAULT_VCPUS: u8 = 8;

/// The base address of the interrupt controller's distributor where none is
/// given.
pub const DEFAULT_GIC_DIST_BASE: u64 = 0x3FFF0000;

/// The size of the distributor where none is given.
pub const DEFAULT_GIC_DIST_SIZE: u64 = 0x10000;

/// The size of one CPU's redistributor where none is given.
pub const DEFAULT_GIC_REDIST_SIZE: u64 = 0x20000;

/// The address of the serial port where none is given.
pub const DEFAULT_SERIAL_BASE: u64 = 0x3f800;

/// The interrupt of the serial port where none is given.
pub const DEFAULT_SERIAL_INTERRUPT: u32 = 1;

/// A file to load into the guest's memory, and the address to load it at.
#[derive(Clone, Debug)]
pub struct LoadFileArg {
    pub file: String,
    pub addr: GuestAddress,
}

/// Why a text names no file to load.
#[derive(Copy, Clone, Debug, PartialEq, Eq, Structural)]
pub enum LoadFileError {
    /// There is no comma, so no address.
    NoAddress,
    /// What follows the comma is no address.
    Address(ParseError),
}

/// The index of the first comma of `s` from `from` on, or the length of `s`
/// where there is none.
pub open spec fn comma_from(s: Seq<char>, from: int) -> int
    decreases s.len() - from,
{
    if from < 0 || from >= s.len() {
        s.len() as int
    } else if s[from] == ',' {
        from
    } else {
        comma_from(s, from + 1)
    }
}

fn find_comma(s: &Vec<char>, from: usize) -> (at: usize)
    requires
        from <= s@.len(),
    ensures
        at == comma_from(s@, from as int),
        from <= at <= s@.len(),
{
    let mut i: usize = from;
    while i < s.len() && s[i] != ','
        invariant
            from <= i <= s@.len(),
            comma_from(s@, from as int) == comma_from(s@, i as int),
        decreases s@.len() - i,
    {
        i += 1;
    }
    i
}

fn text_of(s: &Vec<char>, from: usize, to: usize) -> (t: String)
    requires
        from <= to <= s@.len(),
    ensures
        t@ == s@.subrange(from as int, to as int),
{
    let mut t = String::new();
    let mut i: usize = from;
    while i < to
        invariant
            from <= i <= to <= s@.len(),
            t@ == s@.subrange(from as int, i as int),
        decreases to - i,
    {
        push_char(&mut t, s[i]);
        assert(s@.subrange(from as int, i + 1) =~= s@.subrange(from as int, i as int).push(s@[i as int]));
        i += 1;
    }
    t
}

impl LoadFileArg {
    /// Reads `FILE,ADDR`: the path up to the first comma, and the address
    /// between that comma and the next one or the end.
    pub fn from_str(s: &str) -> (r: Result<Self, LoadFileError>)
        ensures
            ({
                let first = comma_from(s@, 0);
                let second = comma_from(s@, first + 1);
                if first == s@.len() {
                    r matches Err(LoadFileError::NoAddress)
                } else {
                    match parse_text(s@.subrange(first + 1, second)) {
                        Ok(v) => r matches Ok(arg) && arg.file@ == s@.subrange(0, first) && arg.addr@ == v,
                        Err(e) => r matches Err(LoadFileError::Address(err)) && err == e,
                    }
                }
            }),
    {
        let chars: Vec<char> = chars_of(s);
        let first: usize = find_comma(&chars, 0);
        if first == chars.len() {
            return Err(LoadFileError::NoAddress);
        }
        let second: usize = find_comma(&chars, first + 1);
        let file: String = text_of(&chars, 0, first);
        let addr_text: String = text_of(&chars, first + 1, second);
        match GuestAddress::from_str(addr_text.as_str()) {
            Ok(addr) => Ok(LoadFileArg { file, addr }),
            Err(e) => Err(LoadFileError::Address(e)),
        }
    }
}

/// What the monitor is told on its command line.
#[derive(Clone, Debug)]
pub struct RunCommand {
    /// Binary image to execute.
    pub image: String,
    /// Base address of the binary image; the base of the memory where none is
    /// given.
    pub image_base: Option<GuestAddress>,
    /// Ramdisk to be loaded.
    pub rdisk: String,
    /// Files to load into the guest's memory.
    pub files: Vec<LoadFileArg>,
    /// Base address of the guest's memory.
    pub mem_base: GuestAddress,
    /// Size of the guest's memory.
    pub size: GuestSize,
    /// Number of vCPUs to spawn.
    pub vcpus: u8,
    /// Address to place the device tree at; towards the end of the guest's
    /// memory where none is given.
    pub dtb_base: Option<GuestAddress>,
    /// Use huge pages.
    pub huge_pages: bool,
    /// Whether the guest's memory is lent to it; shared with it otherwise.
    pub protected: bool,
    /// The kernel's command line.
    pub command_line: String,
    /// Base address of the interrupt controller's distributor.
    pub gic_dist_base: GuestAddress,
    /// Size of the distributor.
    pub gic_dist_size: GuestSize,
    /// Base address of the redistributors; right before the distributor where
    /// none is given.
    pub gic_redist_base: Option<GuestAddress>,
    /// Size of one CPU's redistributor.
    pub gic_redist_size: GuestSize,
    /// Address of the serial port.
    pub serial_base: GuestAddress,
    /// Interrupt of the serial port.
    pub serial_interrupt: u32,
}

/// Why a command line cannot be run.
#[derive(Copy, Clone, Debug, PartialEq, Eq, Structural)]
pub enum ValidateError {
    /// The image is not a file.
    ImageNotFile,
    /// A virtual machine needs more than zero vCPUs.
    NoVcpus,
    /// The file at this index of the files to load is not a file.
    NotFile { index: usize },
}

/// The index of the first `false` of `s` from `from` on, or the length of `s`
/// where all are `true`.
pub open spec fn first_false(s: Seq<bool>, from: int) -> int
    decreases s.len() - from,
{
    if from < 0 || from >= s.len() {
        s.len() as int
    } else if !s[from] {
        from
    } else {
        first_false(s, from + 1)
    }
}

impl RunCommand {
    /// Checks the command line against what the file system says:
    /// `image_is_file` tells whether the image is a file, and `files_are_files`
    /// tells it of each of the files to load, in their order.
    pub fn validate(&self, image_is_file: bool, files_are_files: &[bool]) -> (r: Result<(), ValidateError>)
        requires
            files_are_files@.len() == self.files@.len(),
        ensures
            r == if !image_is_file {
                Err::<(), ValidateError>(ValidateError::ImageNotFile)
            } else if self.vcpus == 0 {
                Err(ValidateError::NoVcpus)
            } else if first_false(files_are_files@, 0) < files_are_files@.len() {
                Err(ValidateError::NotFile { index: first_false(files_are_files@, 0) as usize })
            } else {
                Ok(())
            },
    {
        if !image_is_file {
            return Err(ValidateError::ImageNotFile);
        }
        if self.vcpus == 0 {
            return Err(ValidateError::NoVcpus);
        }
        let mut i: usize = 0;
        while i < files_are_files.len() && files_are_files[i]
            invariant
                0 <= i <= files_are_files@.len(),
                first_false(files_are_files@, 0) == first_false(files_are_files@, i as int),
            decreases files_are_files@.len() - i,
        {
            i += 1;
        }
        if i < files_are_files.len() {
            return Err(ValidateError::NotFile { index: i });
        }
        Ok(())
    }

    /// The end of the guest's memory.
    pub fn mem_end(&self) -> (end: GuestAddress)
        requires
            self.mem_base@ + self.size@ <= u64::MAX,
        ensures
            end@ == self.mem_base@ + self.size@,
    {
        self.mem_base.add(self.size)
    }
}


/// Why the images cannot be placed or loaded.
#[derive(Copy, Clone, Debug, PartialEq, Eq, Structural)]
pub enum LoadError {
    /// An address or a size does not fit in 64 bits.
    Overflow,
    /// The page size is zero.
    PageSize,
    /// The memory is too small to hold the device tree.
    MemoryTooSmall,
    /// Files to load besides the image and the ramdisk are not supported.
    FilesUnsupported,
    /// The device tree could not be written.
    Config(ConfigError),
    /// Two of the regions to load overlap: `first` reaches into `second`.
    Overlap { first: LoadRegion, second: LoadRegion },
    /// The last of the regions to load ends after the guest's memory.
    OutsideMemory { region: LoadRegion },
}

/// What a region to load holds.
#[derive(Copy, Clone, Debug, PartialEq, Eq, Structural)]
pub enum RegionKind {
    Dtb,
    Image,
    Ramdisk,
    /// The file at this index of the files to load.
    File(usize),
}

/// A region of the guest's memory into which something is loaded.
#[derive(Copy, Clone, Debug, PartialEq, Eq, Structural)]
pub struct LoadRegion {
    pub kind: RegionKind,
    pub addr: u64,
    pub size: u64,
}

/// `v` rounded up to the next multiple of `mask + 1`, where `mask + 1` is a
/// power of two: the bits of `mask` are cleared in `v + mask`.
pub open spec fn align_up(v: u64, mask: u64) -> u64
    recommends
        v + mask <= u64::MAX,
{
    ((v + mask) as u64) & !mask
}

/// Rounding up with a mask of low bits (`mask + 1` is a power of two) gives
/// the least number that is not below `v` and has none of the mask's bits.
pub proof fn lemma_align_up(v: u64, mask: u64)
    requires
        v + mask <= u64::MAX,
        mask < u64::MAX,
        mask & ((mask + 1) as u64) == 0,
    ensures
        align_up(v, mask) & mask == 0,
        v <= align_up(v, mask) <= v + mask,
        forall|w: u64| v <= w && w & mask == 0 ==> align_up(v, mask) <= w,
{
    let sum: u64 = (v + mask) as u64;
    let next: u64 = (mask + 1) as u64;
    assert((sum & !mask) & mask == 0 && (sum & !mask) <= sum && sum - (sum & !mask) <= mask) by (bit_vector);
    assert forall|w: u64| v <= w && w & mask == 0 implies align_up(v, mask) <= w by {
        assert((sum & !mask) <= w) by (bit_vector)
            requires
                mask & next == 0,
                next == mask + 1,
                sum == v + mask,
                v <= w,
                w & mask == 0,
        ;
    }
}

/// The address `addr + offset` with the bits of `offset` cleared.
pub fn align_address_offset(addr: GuestAddress, offset: u64) -> (r: Result<GuestAddress, LoadError>)
    ensures
        addr@ + offset <= u64::MAX ==> r == Ok::<GuestAddress, LoadError>(GuestAddress(align_up(addr@, offset))),
        addr@ + offset > u64::MAX ==> r == Err::<GuestAddress, LoadError>(LoadError::Overflow),
{
    match addr.get().checked_add(offset) {
        Some(sum) => Ok(GuestAddress::new(sum & !offset)),
        None => Err(LoadError::Overflow),
    }
}

/// `addr` rounded up to a multiple of the page size, which is a power of two.
pub fn align_address(addr: GuestAddress, page_size: usize) -> (r: Result<GuestAddress, LoadError>)
    ensures
        r == if page_size == 0 {
            Err::<GuestAddress, LoadError>(LoadError::PageSize)
        } else if addr@ + (page_size - 1) > u64::MAX {
            Err(LoadError::Overflow)
        } else {
            Ok(GuestAddress(align_up(addr@, (page_size - 1) as u64)))
        },
{
    if page_size == 0 {
        return Err(LoadError::PageSize);
    }
    let page_mask: u64 = (page_size - 1) as u64;
    align_address_offset(addr, page_mask)
}

/// `size` rounded up to a multiple of the page size, which is a power of two.
pub fn align_size(size: GuestSize, page_size: usize) -> (r: Result<GuestSize, LoadError>)
    ensures
        r == if page_size == 0 {
            Err::<GuestSize, LoadError>(LoadError::PageSize)
        } else if size@ + (page_size - 1) > u64::MAX {
            Err(LoadError::Overflow)
        } else {
            Ok(GuestSize(align_up(size@, (page_size - 1) as u64)))
        },
{
    if page_size == 0 {
        return Err(LoadError::PageSize);
    }
    let page_mask: u64 = (page_size - 1) as u64;
    match size.get().checked_add(page_mask) {
        Some(sum) => Ok(GuestSize::new(sum & !page_mask)),
        None => Err(LoadError::Overflow),
    }
}


/// The image is aligned to this much less one: 16 MiB.
pub const RDISK_ALIGN_MASK: u64 = 0x100_0000 - 1;

/// Where the image and the ramdisk go.
#[derive(Copy, Clone, Debug, PartialEq, Eq, Structural)]
pub struct ImageLayout {
    pub image_base: GuestAddress,
    pub rdisk_base: GuestAddress,
    pub rdisk_end: GuestAddress,
}

/// Where the device tree goes, and how much room it has.
#[derive(Copy, Clone, Debug, PartialEq, Eq, Structural)]
pub struct DtbLayout {
    pub dtb_addr: GuestAddress,
    pub dtb_len: GuestSize,
}

impl RunCommand {
    /// The base of the image: the one given, or the base of the memory.
    pub open spec fn spec_image_base(&self) -> u64 {
        match self.image_base {
            Some(b) => b@,
            None => self.mem_base@,
        }
    }

    /// Where the image and the ramdisk go: the image at its base; the ramdisk
    /// at the next multiple of 16 MiB after the image and one page more, both
    /// rounded up to whole pages.
    pub open spec fn spec_place_images(&self, image_len: usize, rdisk_len: usize, page_size: usize) -> Result<
        ImageLayout,
        LoadError,
    > {
        let image_base = self.spec_image_base();
        if image_len + page_size > u64::MAX {
            Err(LoadError::Overflow)
        } else if page_size == 0 {
            Err(LoadError::PageSize)
        } else if image_len + page_size + (page_size - 1) > u64::MAX {
            Err(LoadError::Overflow)
        } else {
            let room = align_up((image_len + page_size) as u64, (page_size - 1) as u64);
            if image_base + room + RDISK_ALIGN_MASK > u64::MAX {
                Err(LoadError::Overflow)
            } else {
                let rdisk_base = align_up((image_base + room) as u64, RDISK_ALIGN_MASK);
                if rdisk_base + rdisk_len > u64::MAX {
                    Err(LoadError::Overflow)
                } else {
                    Ok(
                        ImageLayout {
                            image_base: GuestAddress(image_base),
                            rdisk_base: GuestAddress(rdisk_base),
                            rdisk_end: GuestAddress((rdisk_base + rdisk_len) as u64),
                        },
                    )
                }
            }
        }
    }

    /// Places the image of `image_len` bytes and the ramdisk of `rdisk_len`
    /// bytes.
    pub fn place_images(&self, image_len: usize, rdisk_len: usize, page_size: usize) -> (r: Result<
        ImageLayout,
        LoadError,
    >)
        ensures
            r == self.spec_place_images(image_len, rdisk_len, page_size),
    {
        let image_base: GuestAddress = match self.image_base {
            Some(b) => b,
            None => self.mem_base,
        };
        let padded: u64 = match (image_len as u64).checked_add(page_size as u64) {
            Some(p) => p,
            None => {
                return Err(LoadError::Overflow);
            },
        };
        let room: GuestSize = align_size(GuestSize::new(padded), page_size)?;
        let image_end: u64 = match image_base.get().checked_add(room.get()) {
            Some(e) => e,
            None => {
                return Err(LoadError::Overflow);
            },
        };
        let rdisk_base: GuestAddress = align_address_offset(GuestAddress::new(image_end), RDISK_ALIGN_MASK)?;
        let rdisk_end: u64 = match rdisk_base.get().checked_add(rdisk_len as u64) {
            Some(e) => e,
            None => {
                return Err(LoadError::Overflow);
            },
        };
        Ok(ImageLayout { image_base, rdisk_base, rdisk_end: GuestAddress::new(rdisk_end) })
    }

    /// Where the device tree of `dtb_len` bytes goes: where the command line
    /// says; else at the last page boundary that leaves the device tree and
    /// two pages before the end of the memory. Its room is its length and one
    /// page more, rounded up to whole pages.
    pub open spec fn spec_place_dtb(&self, dtb_len: usize, page_size: usize) -> Result<DtbLayout, LoadError> {
        if page_size == 0 {
            Err(LoadError::PageSize)
        } else {
            let addr: Result<u64, LoadError> = match self.dtb_base {
                Some(b) => Ok(b@),
                None => if self.mem_base@ + self.size@ > u64::MAX {
                    Err(LoadError::Overflow)
                } else if self.mem_base@ + self.size@ < dtb_len + page_size + page_size {
                    Err(LoadError::MemoryTooSmall)
                } else {
                    let low = (self.mem_base@ + self.size@ - dtb_len - page_size - page_size) as u64;
                    if low + (page_size - 1) > u64::MAX {
                        Err(LoadError::Overflow)
                    } else {
                        Ok(align_up(low, (page_size - 1) as u64))
                    }
                },
            };
            match addr {
                Err(e) => Err(e),
                Ok(dtb_addr) => if dtb_len + page_size + (page_size - 1) > u64::MAX {
                    Err(LoadError::Overflow)
                } else {
                    Ok(
                        DtbLayout {
                            dtb_addr: GuestAddress(dtb_addr),
                            dtb_len: GuestSize(
                                align_up((dtb_len + page_size) as u64, (page_size - 1) as u64),
                            ),
                        },
                    )
                },
            }
        }
    }

    /// Places the device tree of `dtb_len` bytes.
    pub fn place_dtb(&self, dtb_len: usize, page_size: usize) -> (r: Result<DtbLayout, LoadError>)
        ensures
            r == self.spec_place_dtb(dtb_len, page_size),
    {
        if page_size == 0 {
            return Err(LoadError::PageSize);
        }
        let dtb_addr: GuestAddress = match self.dtb_base {
            Some(b) => b,
            None => {
                let mem_end: u64 = match self.mem_base.get().checked_add(self.size.get()) {
                    Some(e) => e,
                    None => {
                        return Err(LoadError::Overflow);
                    },
                };
                let low: Option<u64> = match mem_end.checked_sub(dtb_len as u64) {
                    Some(a) => match a.checked_sub(page_size as u64) {
                        Some(b) => b.checked_sub(page_size as u64),
                        None => None,
                    },
                    None => None,
                };
                match low {
                    Some(addr) => align_address(GuestAddress::new(addr), page_size)?,
                    None => {
                        return Err(LoadError::MemoryTooSmall);
                    },
                }
            },
        };
        let padded: u64 = match (dtb_len as u64).checked_add(page_size as u64) {
            Some(p) => p,
            None => {
                return Err(LoadError::Overflow);
            },
        };
        let dtb_len: GuestSize = align_size(GuestSize::new(padded), page_size)?;
        Ok(DtbLayout { dtb_addr, dtb_len })
    }
}


/// `s`, which is in ascending order of address, with `x` put after the last
/// region whose address is not above that of `x`.
pub open spec fn insert_by_addr(s: Seq<LoadRegion>, x: LoadRegion) -> Seq<LoadRegion>
    decreases s.len(),
{
    if s.len() == 0 {
        seq![x]
    } else if s.last().addr <= x.addr {
        s.push(x)
    } else {
        insert_by_addr(s.drop_last(), x).push(s.last())
    }
}

/// The regions in ascending order of address; regions at the same address
/// keep their order.
pub open spec fn sorted_by_addr(s: Seq<LoadRegion>) -> Seq<LoadRegion>
    decreases s.len(),
{
    if s.len() == 0 {
        Seq::empty()
    } else {
        insert_by_addr(sorted_by_addr(s.drop_last()), s.last())
    }
}

/// Whether the addresses of `s` ascend.
pub open spec fn ascending(s: Seq<LoadRegion>) -> bool {
    forall|i: int, j: int| 0 <= i < j < s.len() ==> (#[trigger] s[i]).addr <= (#[trigger] s[j]).addr
}

/// Where `x` goes in `s`: `insert_by_addr` puts it at the index before which
/// no address is above that of `x` and from which on every address is.
proof fn lemma_insert_at(s: Seq<LoadRegion>, x: LoadRegion, j: int)
    requires
        0 <= j <= s.len(),
        forall|k: int| j <= k < s.len() ==> (#[trigger] s[k]).addr > x.addr,
        j > 0 ==> s[j - 1].addr <= x.addr,
    ensures
        insert_by_addr(s, x) == s.insert(j, x),
    decreases s.len(),
{
    if s.len() == 0 {
        assert(s.insert(0, x) =~= seq![x]);
    } else if j == s.len() {
        assert(s.insert(j, x) =~= s.push(x));
    } else {
        assert(s.last().addr > x.addr);
        lemma_insert_at(s.drop_last(), x, j);
        assert(s.drop_last().insert(j, x).push(s.last()) =~= s.insert(j, x));
    }
}

/// Putting a region into regions whose addresses ascend keeps them ascending
/// and adds the region to them, nothing else.
pub proof fn lemma_insert_by_addr(s: Seq<LoadRegion>, x: LoadRegion)
    requires
        ascending(s),
    ensures
        ascending(insert_by_addr(s, x)),
        insert_by_addr(s, x).to_multiset() == s.to_multiset().insert(x),
        insert_by_addr(s, x).len() == s.len() + 1,
    decreases s.len(),
{
    broadcast use vstd::seq_lib::group_to_multiset_ensures;

    if s.len() == 0 {
        assert(seq![x] =~= Seq::<LoadRegion>::empty().push(x));
    } else if s.last().addr <= x.addr {
        let t = s.push(x);
        assert forall|i: int, j: int| 0 <= i < j < t.len() implies (#[trigger] t[i]).addr <= (#[trigger] t[j]).addr by {
            if j == s.len() {
                if i < s.len() - 1 {
                    assert(s[i].addr <= s[s.len() - 1].addr);
                }
            } else {
                assert(s[i].addr <= s[j].addr);
            }
        }
    } else {
        let head = s.drop_last();
        assert(ascending(head)) by {
            assert forall|i: int, j: int| 0 <= i < j < head.len() implies (#[trigger] head[i]).addr <= (
            #[trigger] head[j]).addr by {
                assert(s[i].addr <= s[j].addr);
            }
        }
        lemma_insert_by_addr(head, x);
        let mid = insert_by_addr(head, x);
        let t = mid.push(s.last());
        assert(s =~= head.push(s.last()));
        assert forall|i: int| 0 <= i < mid.len() implies (#[trigger] mid[i]).addr <= s.last().addr by {
            assert(mid.to_multiset().count(mid[i]) > 0);
            if mid[i] != x {
                assert(head.to_multiset().count(mid[i]) > 0);
                let k = choose|k: int| 0 <= k < head.len() && head[k] == mid[i];
                assert(s[k].addr <= s[s.len() - 1].addr);
            }
        }
        assert forall|i: int, j: int| 0 <= i < j < t.len() implies (#[trigger] t[i]).addr <= (#[trigger] t[j]).addr by {
            if j < mid.len() {
                assert(mid[i].addr <= mid[j].addr);
            } else {
                assert(mid[i].addr <= s.last().addr);
            }
        }
        assert(head.to_multiset().insert(x).insert(s.last()) =~= head.to_multiset().insert(s.last()).insert(x));
    }
}

/// Sorting puts the regions in ascending order of address and neither adds
/// nor loses one.
pub proof fn lemma_sorted_by_addr(s: Seq<LoadRegion>)
    ensures
        ascending(sorted_by_addr(s)),
        sorted_by_addr(s).to_multiset() == s.to_multiset(),
        sorted_by_addr(s).len() == s.len(),
    decreases s.len(),
{
    broadcast use vstd::seq_lib::group_to_multiset_ensures;

    if s.len() > 0 {
        lemma_sorted_by_addr(s.drop_last());
        lemma_insert_by_addr(sorted_by_addr(s.drop_last()), s.last());
        assert(s =~= s.drop_last().push(s.last()));
    }
}

/// The regions in ascending order of address; regions at the same address
/// keep their order.
pub fn sort_regions(regions: &Vec<LoadRegion>) -> (sorted: Vec<LoadRegion>)
    ensures
        sorted@ == sorted_by_addr(regions@),
{
    let mut out: Vec<LoadRegion> = Vec::new();
    let mut i: usize = 0;
    while i < regions.len()
        invariant
            0 <= i <= regions.len(),
            out@ == sorted_by_addr(regions@.take(i as int)),
            out@.len() == i,
        decreases regions.len() - i,
    {
        let x: LoadRegion = regions[i];
        let mut j: usize = out.len();
        while j > 0 && out[j - 1].addr > x.addr
            invariant
                0 <= j <= out@.len(),
                forall|k: int| j <= k < out@.len() ==> (#[trigger] out@[k]).addr > x.addr,
            decreases j,
        {
            j -= 1;
        }
        proof {
            lemma_insert_at(out@, x, j as int);
            assert(regions@.take(i + 1).drop_last() == regions@.take(i as int));
            assert(regions@.take(i + 1).last() == x);
        }
        out.insert(j, x);
        i += 1;
    }
    proof {
        assert(regions@.take(i as int) == regions@);
    }
    out
}

/// The index of the first region of `s`, from `i` on, that reaches into the
/// region after it; the last index where none does.
pub open spec fn first_clash(s: Seq<LoadRegion>, i: int) -> int
    decreases s.len() - i,
{
    if i < 0 || i + 1 >= s.len() {
        s.len() - 1
    } else if s[i].addr + s[i].size > s[i + 1].addr {
        i
    } else {
        first_clash(s, i + 1)
    }
}

/// Whether regions in ascending order of address can be loaded into memory
/// that ends at `mem_end`: no region reaches into the next one, and the last
/// one ends within the memory.
pub open spec fn spec_check_sorted(s: Seq<LoadRegion>, mem_end: u64) -> Result<(), LoadError> {
    if s.len() == 0 {
        Ok(())
    } else {
        let i = first_clash(s, 0);
        if i + 1 < s.len() {
            Err(LoadError::Overlap { first: s[i], second: s[i + 1] })
        } else if s.last().addr + s.last().size > mem_end {
            Err(LoadError::OutsideMemory { region: s.last() })
        } else {
            Ok(())
        }
    }
}

/// Checks that the regions can be loaded into memory that ends at `mem_end`:
/// in ascending order of address, no region reaches into the next one, and
/// the last one ends within the memory.
pub fn check_regions(regions: &Vec<LoadRegion>, mem_end: GuestAddress) -> (r: Result<(), LoadError>)
    ensures
        r == spec_check_sorted(sorted_by_addr(regions@), mem_end@),
{
    let sorted: Vec<LoadRegion> = sort_regions(regions);
    let n: usize = sorted.len();
    if n == 0 {
        return Ok(());
    }
    let mut i: usize = 0;
    while i + 1 < n
        invariant
            0 <= i < n == sorted@.len(),
            sorted@ == sorted_by_addr(regions@),
            first_clash(sorted@, 0) == first_clash(sorted@, i as int),
        decreases n - i,
    {
        let first: LoadRegion = sorted[i];
        let second: LoadRegion = sorted[i + 1];
        if first.size > u64::MAX - first.addr || first.addr + first.size > second.addr {
            assert(first_clash(sorted@, i as int) == i);
            return Err(LoadError::Overlap { first, second });
        }
        i += 1;
    }
    let last: LoadRegion = sorted[n - 1];
    if last.size > u64::MAX - last.addr || last.addr + last.size > mem_end.get() {
        return Err(LoadError::OutsideMemory { region: last });
    }
    Ok(())
}


/// The interrupts of the timer.
pub open spec fn timer_interrupts() -> Seq<u32> {
    seq![13u32, 14u32, 11u32, 10u32]
}

/// The result that hands on an error of the device tree writer.
pub open spec fn tree_refusal(e: FdtError) -> Result<Vec<u8>, LoadError> {
    Err(LoadError::Config(ConfigError::Fdt(e)))
}

/// Whether a result is an error of the device tree writer.
pub open spec fn tree_refused(r: Result<Vec<u8>, LoadError>) -> bool {
    match r {
        Err(LoadError::Config(ConfigError::Fdt(_))) => true,
        _ => false,
    }
}

/// A new writer that has begun the root node, and the node's handle. The
/// writer takes the root node's name, which is empty.
fn begin_tree() -> (r: Result<(FdtWriter, FdtWriterNode), FdtError>)
    ensures
        r is Ok,
        r matches Ok(begun) ==> fdt_items(begun.0) == seq![begin(""@)] && fdt_node_depth(begun.1) == 1,
{
    let mut fdt: FdtWriter = match fdt_new() {
        Ok(fdt) => fdt,
        Err(e) => {
            return Err(fdt_error(e));
        },
    };
    proof {
        reveal_strlit("");
        assert(fdt_items(fdt) =~= Seq::<FdtItem>::empty());
    }
    match fdt_begin_node(&mut fdt, "") {
        Ok(node) => {
            proof {
                assert(fdt_items(fdt) =~= seq![begin(""@)]);
                assert(fdt_items(fdt).drop_last() =~= Seq::<FdtItem>::empty());
            }
            Ok((fdt, node))
        },
        Err(e) => Err(fdt_error(e)),
    }
}

/// What is loaded before the guest boots, and where.
#[derive(Debug)]
pub struct LoadPlan {
    /// The device tree.
    pub dtb: Vec<u8>,
    pub dtb_layout: DtbLayout,
    pub images: ImageLayout,
}

impl RunCommand {
    /// The interrupt controller as the device tree describes it: base and
    /// size of the distributor, then base and size of the redistributors of
    /// all vCPUs, which lie right before the distributor where no base is
    /// given.
    pub open spec fn spec_gic_config(&self) -> Result<Seq<u64>, LoadError> {
        let total = self.gic_redist_size@ * self.vcpus;
        if total > u64::MAX {
            Err(LoadError::Overflow)
        } else {
            match self.gic_redist_base {
                Some(b) => Ok(seq![self.gic_dist_base@, self.gic_dist_size@, b@, total as u64]),
                None => if total > self.gic_dist_base@ {
                    Err(LoadError::Overflow)
                } else {
                    Ok(
                        seq![
                            self.gic_dist_base@,
                            self.gic_dist_size@,
                            (self.gic_dist_base@ - total) as u64,
                            total as u64,
                        ],
                    )
                },
            }
        }
    }

    /// Computes the interrupt controller's four cells.
    pub fn gic_config(&self) -> (r: Result<[u64; 4], LoadError>)
        ensures
            match self.spec_gic_config() {
                Ok(cells) => r matches Ok(c) && c@ == cells,
                Err(e) => r == Err::<[u64; 4], LoadError>(e),
            },
    {
        let total: u64 = match self.gic_redist_size.get().checked_mul(self.vcpus as u64) {
            Some(t) => t,
            None => {
                return Err(LoadError::Overflow);
            },
        };
        let base: u64 = match self.gic_redist_base {
            Some(b) => b.get(),
            None => match self.gic_dist_base.get().checked_sub(total) {
                Some(b) => b,
                None => {
                    return Err(LoadError::Overflow);
                },
            },
        };
        let cells: [u64; 4] = [self.gic_dist_base.get(), self.gic_dist_size.get(), base, total];
        proof {
            match self.spec_gic_config() {
                Ok(c) => {
                    assert(cells@ =~= c);
                },
                Err(_) => {},
            }
        }
        Ok(cells)
    }

    /// What is handed to the writer for the node that tells the kernel how it
    /// was started: the console, where there is a serial port; the command
    /// line; the ramdisk's start and end, of which the low 32 bits are kept.
    pub open spec fn chosen_writes(
        &self,
        serial: Option<SerialDevice>,
        command_line: Seq<char>,
        rdisk_start: GuestAddress,
        rdisk_end: GuestAddress,
    ) -> Seq<FdtWrite> {
        seq![begin_write("chosen"@)] + (match serial {
            Some(ser) => seq![
                string_write("stdout-path"@, "/"@ + ("serial@"@ + hex_digits(ser.start as nat))),
            ],
            None => Seq::empty(),
        }) + seq![
            string_write("bootargs"@, command_line),
            plain_write(u32_item("linux,initrd-start"@, rdisk_start@ as u32)),
            plain_write(u32_item("linux,initrd-end"@, rdisk_end@ as u32)),
            end_write(),
        ]
    }

    /// The node that tells the kernel how it was started.
    pub open spec fn chosen_items(
        &self,
        serial: Option<SerialDevice>,
        command_line: Seq<char>,
        rdisk_start: GuestAddress,
        rdisk_end: GuestAddress,
    ) -> Seq<FdtItem> {
        items_of(self.chosen_writes(serial, command_line, rdisk_start, rdisk_end))
    }

    /// The whole device tree of the guest: the root node around `basic`, which
    /// the virtual machine writes, and the node `chosen`.
    pub open spec fn device_tree_items(
        &self,
        serial: Option<SerialDevice>,
        command_line: Seq<char>,
        rdisk_start: GuestAddress,
        rdisk_end: GuestAddress,
        basic: Seq<FdtItem>,
    ) -> Seq<FdtItem> {
        seq![begin(""@)] + basic + self.chosen_items(serial, command_line, rdisk_start, rdisk_end)
            + seq![FdtItem::EndNode]
    }

    /// Whether `items` may be the whole device tree of the guest: the devices
    /// of the virtual machine say what they add.
    pub open spec fn device_tree_written<O: BusDevice, I: BusDeviceSync>(
        &self,
        vm: &GunyahVirtualMachine<O, I>,
        serial: Option<SerialDevice>,
        command_line: Seq<char>,
        rdisk_start: GuestAddress,
        rdisk_end: GuestAddress,
        items: Seq<FdtItem>,
    ) -> bool {
        exists|basic: Seq<FdtItem>|
            #[trigger] vm.basic_config_written(self.spec_gic_config()->Ok_0, timer_interrupts(), basic) && items
                == self.device_tree_items(serial, command_line, rdisk_start, rdisk_end, basic)
    }

    /// What the end of `generate_fdt` comes to, for a writer that holds
    /// `filled` after the node `chosen`: the root node is ended where the
    /// devices have left it the innermost open one, and the blob is made
    /// where the writer can make one; else the result is the writer's error:
    /// `OutOfOrderEndNode` for the root node, the error of `finish` for the
    /// blob.
    pub open spec fn device_tree_finished(filled: Seq<FdtItem>, r: Result<Vec<u8>, LoadError>) -> bool {
        if open_nodes(filled) == 1 {
            match fdt_blob(filled.push(FdtItem::EndNode)) {
                Some(blob) => match r {
                    Ok(dtb) => dtb@ == blob,
                    Err(_) => false,
                },
                None => r == tree_refusal(finish_refusal(filled.push(FdtItem::EndNode))),
            }
        } else {
            r == tree_refusal(FdtError::OutOfOrderEndNode)
        }
    }

    /// What `generate_fdt` comes to after the virtual machine has written
    /// its part, for a writer that holds `basic`: the node `chosen` is handed
    /// to the writer, then the tree is finished.
    pub open spec fn device_tree_after_basic(
        &self,
        serial: Option<SerialDevice>,
        command_line: Seq<char>,
        rdisk_start: GuestAddress,
        rdisk_end: GuestAddress,
        basic: Seq<FdtItem>,
        r: Result<Vec<u8>, LoadError>,
    ) -> bool {
        exists|filled: Seq<FdtItem>, taken: bool|
            #[trigger] wrote(
                basic,
                self.chosen_writes(serial, command_line, rdisk_start, rdisk_end),
                filled,
                taken,
            ) && if taken {
                Self::device_tree_finished(filled, r)
            } else {
                r == tree_refusal(
                    write_error(basic, self.chosen_writes(serial, command_line, rdisk_start, rdisk_end), filled),
                )
            }
    }

    /// What `generate_fdt` comes to, whatever the writer and the devices do.
    /// Where the interrupt controller's cells cannot be computed, the result
    /// is that error. Else the virtual machine writes its part into a new
    /// writer that has begun the root node, and its error is the result;
    /// then the node `chosen` is handed to the writer, the root node is
    /// ended and the blob is made, and the first refusal is the result.
    pub open spec fn device_tree_ran<O: BusDevice, I: BusDeviceSync>(
        &self,
        vm: &GunyahVirtualMachine<O, I>,
        serial: Option<SerialDevice>,
        command_line: Seq<char>,
        rdisk_start: GuestAddress,
        rdisk_end: GuestAddress,
        r: Result<Vec<u8>, LoadError>,
    ) -> bool {
        match self.spec_gic_config() {
            Err(e) => r == Err::<Vec<u8>, LoadError>(e),
            Ok(gic) => exists|basic: Seq<FdtItem>, b: Result<(), ConfigError>|
                #[trigger] vm.basic_config_ran(gic, timer_interrupts(), seq![begin(""@)], basic, b) && match b {
                    Err(e) => r == Err::<Vec<u8>, LoadError>(LoadError::Config(e)),
                    Ok(()) => self.device_tree_after_basic(serial, command_line, rdisk_start, rdisk_end, basic, r),
                },
        }
    }

    /// Makes the device tree of the guest: the root node, in it what the
    /// virtual machine writes and the node `chosen`.
    pub fn generate_fdt<O: BusDevice, I: BusDeviceSync>(
        &self,
        vm: &GunyahVirtualMachine<O, I>,
        serial: Option<SerialDevice>,
        command_line: &str,
        rdisk_start: GuestAddress,
        rdisk_end: GuestAddress,
    ) -> (r: Result<Vec<u8>, LoadError>)
        ensures
            self.device_tree_ran(vm, serial, command_line@, rdisk_start, rdisk_end, r),
            r is Ok ==> self.spec_gic_config() is Ok,
            r matches Ok(dtb) ==> exists|items: Seq<FdtItem>|
                #[trigger] self.device_tree_written(vm, serial, command_line@, rdisk_start, rdisk_end, items)
                    && fdt_blob(items) == Some(dtb@),
            r matches Err(e) ==> e is Config || self.spec_gic_config() == Err::<Seq<u64>, LoadError>(e),
    {
        let (mut fdt, root_node): (FdtWriter, FdtWriterNode) = match begin_tree() {
            Ok(begun) => begun,
            Err(e) => {
                return Err(LoadError::Config(ConfigError::Fdt(e)));
            },
        };
        let gic: [u64; 4] = match self.gic_config() {
            Ok(gic) => gic,
            Err(e) => {
                return Err(e);
            },
        };
        let timers: [u32; 4] = [13, 14, 11, 10];
        assert(timers@ =~= timer_interrupts());
        let ghost before_basic = fdt_items(fdt);
        let based = vm.create_fdt_basic_config(&mut fdt, &gic, &timers);
        let ghost after_basic = fdt_items(fdt);
        proof {
            assert(vm.basic_config_ran(gic@, timer_interrupts(), seq![begin(""@)], after_basic, based));
        }
        if let Err(e) = based {
            return Err(LoadError::Config(e));
        }
        let ghost basic = choose|added: Seq<FdtItem>|
            #[trigger] vm.basic_config_written(gic@, timer_interrupts(), added) && fdt_items(fdt) == before_basic
                + added;
        let r = self.close_tree(fdt, root_node, serial, command_line, rdisk_start, rdisk_end);
        proof {
            if r is Ok {
                let items = self.device_tree_items(serial, command_line@, rdisk_start, rdisk_end, basic);
                assert(after_basic + self.chosen_items(serial, command_line@, rdisk_start, rdisk_end)
                    + seq![FdtItem::EndNode] =~= items);
                assert(self.device_tree_written(vm, serial, command_line@, rdisk_start, rdisk_end, items));
            }
        }
        r
    }

    /// Hands the node `chosen` to a writer that holds what the virtual
    /// machine wrote, ends the root node and makes the blob.
    fn close_tree(
        &self,
        writer: FdtWriter,
        root_node: FdtWriterNode,
        serial: Option<SerialDevice>,
        command_line: &str,
        rdisk_start: GuestAddress,
        rdisk_end: GuestAddress,
    ) -> (r: Result<Vec<u8>, LoadError>)
        requires
            fdt_node_depth(root_node) == 1,
        ensures
            self.device_tree_after_basic(serial, command_line@, rdisk_start, rdisk_end, fdt_items(writer), r),
            r matches Ok(dtb) ==> fdt_blob(
                fdt_items(writer) + self.chosen_items(serial, command_line@, rdisk_start, rdisk_end)
                    + seq![FdtItem::EndNode],
            ) == Some(dtb@),
            r is Err ==> tree_refused(r),
    {
        let mut fdt = writer;
        let ghost after_basic = fdt_items(fdt);
        let chosen = self.write_chosen(&mut fdt, serial, command_line, rdisk_start, rdisk_end);
        let ghost filled = fdt_items(fdt);
        proof {
            assert(wrote(
                after_basic,
                self.chosen_writes(serial, command_line@, rdisk_start, rdisk_end),
                filled,
                chosen is Ok,
            ));
        }
        if let Err(e) = chosen {
            return Err(LoadError::Config(ConfigError::Fdt(e)));
        }
        if let Err(e) = fdt_end_node(&mut fdt, root_node) {
            let r = Err(LoadError::Config(ConfigError::Fdt(fdt_error(e))));
            proof {
                assert(Self::device_tree_finished(filled, r));
            }
            return r;
        }
        proof {
            assert(fdt_items(fdt) =~= after_basic + self.chosen_items(
                serial,
                command_line@,
                rdisk_start,
                rdisk_end,
            ) + seq![FdtItem::EndNode]);
        }
        let r = match fdt_finish(fdt) {
            Ok(dtb) => Ok(dtb),
            Err(e) => Err(LoadError::Config(ConfigError::Fdt(fdt_error(e)))),
        };
        proof {
            assert(Self::device_tree_finished(filled, r));
        }
        r
    }

    fn write_chosen(
        &self,
        fdt: &mut FdtWriter,
        serial: Option<SerialDevice>,
        command_line: &str,
        rdisk_start: GuestAddress,
        rdisk_end: GuestAddress,
    ) -> (r: Result<(), FdtError>)
        ensures
            wrote(
                fdt_items(*old(fdt)),
                self.chosen_writes(serial, command_line@, rdisk_start, rdisk_end),
                fdt_items(*final(fdt)),
                r is Ok,
            ),
            r is Ok ==> fdt_items(*final(fdt)) == fdt_items(*old(fdt)) + self.chosen_items(
                serial,
                command_line@,
                rdisk_start,
                rdisk_end,
            ),
            r matches Err(e) ==> e == write_error(
                fdt_items(*old(fdt)),
                self.chosen_writes(serial, command_line@, rdisk_start, rdisk_end),
                fdt_items(*final(fdt)),
            ),
    {
        let ghost begun = fdt_items(*fdt);
        let ghost ws = self.chosen_writes(serial, command_line@, rdisk_start, rdisk_end);
        let ghost first: int = if serial is Some {
            2
        } else {
            1
        };
        proof {
            lemma_at_start(begun, ws);
        }
        let chosen = put_begin(fdt, "chosen", Ghost(begun), Ghost(ws), Ghost(0))?;
        if let Some(ser) = serial {
            let mut path = String::from_str("/");
            path.append(ser.device_name().as_str());
            put_string(fdt, "stdout-path", path.as_str(), Ghost(begun), Ghost(ws), Ghost(1))?;
        }
        put_string(fdt, "bootargs", command_line, Ghost(begun), Ghost(ws), Ghost(first))?;
        let start: u32 = #[verifier::truncate] (rdisk_start.get() as u32);
        let end: u32 = #[verifier::truncate] (rdisk_end.get() as u32);
        put_u32(fdt, "linux,initrd-start", start, Ghost(begun), Ghost(ws), Ghost(first + 1))?;
        put_u32(fdt, "linux,initrd-end", end, Ghost(begun), Ghost(ws), Ghost(first + 2))?;
        put_end(fdt, chosen, Ghost(begun), Ghost(ws), Ghost(first + 3))?;
        proof {
            lemma_at_end(begun, ws, fdt_items(*fdt));
        }
        Ok(())
    }

    /// The regions that are loaded, in the order in which they are listed:
    /// the device tree, the image, the ramdisk.
    pub open spec fn load_regions(images: ImageLayout, dtb: DtbLayout, image_len: usize, rdisk_len: usize) -> Seq<
        LoadRegion,
    > {
        seq![
            LoadRegion { kind: RegionKind::Dtb, addr: dtb.dtb_addr@, size: dtb.dtb_len@ },
            LoadRegion { kind: RegionKind::Image, addr: images.image_base@, size: image_len as u64 },
            LoadRegion { kind: RegionKind::Ramdisk, addr: images.rdisk_base@, size: rdisk_len as u64 },
        ]
    }

    /// Where everything goes, for a device tree of `dtb_len` bytes, or why it
    /// cannot be loaded: the image and the ramdisk are placed, then the
    /// device tree; files besides them are refused; the regions must not
    /// overlap and must lie in the guest's memory.
    pub open spec fn spec_plan_load(&self, image_len: usize, rdisk_len: usize, dtb_len: usize, page_size: usize) -> Result<
        (ImageLayout, DtbLayout),
        LoadError,
    > {
        match self.spec_place_images(image_len, rdisk_len, page_size) {
            Err(e) => Err(e),
            Ok(images) => match self.spec_place_dtb(dtb_len, page_size) {
                Err(e) => Err(e),
                Ok(dtb) => if self.files@.len() > 0 {
                    Err(LoadError::FilesUnsupported)
                } else if self.mem_base@ + self.size@ > u64::MAX {
                    Err(LoadError::Overflow)
                } else {
                    match spec_check_sorted(
                        sorted_by_addr(Self::load_regions(images, dtb, image_len, rdisk_len)),
                        (self.mem_base@ + self.size@) as u64,
                    ) {
                        Err(e) => Err(e),
                        Ok(()) => Ok((images, dtb)),
                    }
                },
            },
        }
    }

    /// Places the image, the ramdisk and a device tree of `dtb_len` bytes, and
    /// checks that they can be loaded.
    pub fn plan_load(&self, image_len: usize, rdisk_len: usize, dtb_len: usize, page_size: usize) -> (r: Result<
        (ImageLayout, DtbLayout),
        LoadError,
    >)
        ensures
            r == self.spec_plan_load(image_len, rdisk_len, dtb_len, page_size),
    {
        let images: ImageLayout = self.place_images(image_len, rdisk_len, page_size)?;
        let dtb: DtbLayout = self.place_dtb(dtb_len, page_size)?;
        if self.files.len() > 0 {
            return Err(LoadError::FilesUnsupported);
        }
        let mem_end: u64 = match self.mem_base.get().checked_add(self.size.get()) {
            Some(e) => e,
            None => {
                return Err(LoadError::Overflow);
            },
        };
        let mut regions: Vec<LoadRegion> = Vec::new();
        regions.push(LoadRegion { kind: RegionKind::Dtb, addr: dtb.dtb_addr.get(), size: dtb.dtb_len.get() });
        regions.push(LoadRegion { kind: RegionKind::Image, addr: images.image_base.get(), size: image_len as u64 });
        regions.push(
            LoadRegion { kind: RegionKind::Ramdisk, addr: images.rdisk_base.get(), size: rdisk_len as u64 },
        );
        assert(regions@ =~= Self::load_regions(images, dtb, image_len, rdisk_len));
        check_regions(&regions, GuestAddress::new(mem_end))?;
        Ok((images, dtb))
    }

    /// What `load_binaries` makes of `g`, the result of `generate_fdt`: its
    /// error, or what `spec_plan_load` says of a device tree of that length:
    /// its error, or the plan with that device tree.
    pub open spec fn load_planned(
        &self,
        image_len: usize,
        rdisk_len: usize,
        page_size: usize,
        g: Result<Vec<u8>, LoadError>,
        r: Result<LoadPlan, LoadError>,
    ) -> bool {
        match g {
            Err(e) => r == Err::<LoadPlan, LoadError>(e),
            Ok(dtb) => match self.spec_plan_load(image_len, rdisk_len, dtb@.len() as usize, page_size) {
                Err(e) => r == Err::<LoadPlan, LoadError>(e),
                Ok((images, dtb_layout)) => match r {
                    Ok(plan) => plan.dtb@ == dtb@ && plan.images == images && plan.dtb_layout == dtb_layout,
                    Err(_) => false,
                },
            },
        }
    }

    /// Prepares what is loaded before the guest boots: places the image of
    /// `image_len` bytes and the ramdisk of `rdisk_len` bytes, makes the
    /// device tree, places it, and checks that all can be loaded. The caller
    /// then writes the device tree and tells the hypervisor of it, sets the
    /// boot address to the image's base, and writes the image and the ramdisk.
    pub fn load_binaries<O: BusDevice, I: BusDeviceSync>(
        &self,
        vm: &GunyahVirtualMachine<O, I>,
        serial: Option<SerialDevice>,
        image_len: usize,
        rdisk_len: usize,
        page_size: usize,
    ) -> (r: Result<LoadPlan, LoadError>)
        ensures
            match self.spec_place_images(image_len, rdisk_len, page_size) {
                Err(e) => r == Err::<LoadPlan, LoadError>(e),
                Ok(placed) => exists|g: Result<Vec<u8>, LoadError>|
                    #[trigger] self.device_tree_ran(
                        vm,
                        serial,
                        self.command_line@,
                        placed.rdisk_base,
                        placed.rdisk_end,
                        g,
                    ) && self.load_planned(image_len, rdisk_len, page_size, g, r),
            },
            match r {
                Ok(plan) => {
                    &&& self.spec_plan_load(image_len, rdisk_len, plan.dtb@.len() as usize, page_size) == Ok::<
                        (ImageLayout, DtbLayout),
                        LoadError,
                    >((plan.images, plan.dtb_layout))
                    &&& exists|items: Seq<FdtItem>|
                        #[trigger] self.device_tree_written(
                            vm,
                            serial,
                            self.command_line@,
                            plan.images.rdisk_base,
                            plan.images.rdisk_end,
                            items,
                        ) && fdt_blob(items) == Some(plan.dtb@)
                },
                Err(e) => {
                    ||| e is Config
                    ||| self.spec_gic_config() == Err::<Seq<u64>, LoadError>(e)
                    ||| exists|dtb_len: usize| #[trigger]
                        self.spec_plan_load(image_len, rdisk_len, dtb_len, page_size) == Err::<
                            (ImageLayout, DtbLayout),
                            LoadError,
                        >(e)
                },
            },
    {
        let placed: ImageLayout = match self.place_images(image_len, rdisk_len, page_size) {
            Ok(placed) => placed,
            Err(e) => {
                return Err(e);
            },
        };
        let made = self.generate_fdt(vm, serial, self.command_line.as_str(), placed.rdisk_base, placed.rdisk_end);
        let dtb: Vec<u8> = match made {
            Ok(dtb) => dtb,
            Err(e) => {
                let r = Err(e);
                proof {
                    assert(self.load_planned(image_len, rdisk_len, page_size, made, r));
                }
                return r;
            },
        };
        let r = match self.plan_load(image_len, rdisk_len, dtb.len(), page_size) {
            Ok((images, dtb_layout)) => Ok(LoadPlan { dtb, dtb_layout, images }),
            Err(e) => Err(e),
        };
        proof {
            assert(self.load_planned(image_len, rdisk_len, page_size, made, r));
        }
        r
    }
}

} // verus!
