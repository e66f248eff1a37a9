//! What holds of the bus whatever is put into it: which device an address
//! reaches, what a refused change leaves behind, and that a memory gives back
//! what was written to it.

use vstd::prelude::*;
use crate::bus::Bus;
use crate::bus::BusAccessError;
use crate::bus::BusAccessInfo;
use crate::bus::BusDevice;
use crate::bus::BusDeviceEntry;
use crate::bus::BusDeviceSync;
use crate::bus::BusEntry;
use crate::bus::BusRange;
use crate::bus::DeviceError;
use crate::bus::Error;

verus! {

/// No two entries of a well-formed bus overlap.
pub proof fn lemma_entries_disjoint<O: BusDevice, I: BusDeviceSync>(bus: Bus<O, I>, i: int, j: int)
    requires
        bus.wf(),
        0 <= i < bus.entries().len(),
        0 <= j < bus.entries().len(),
        i != j,
    ensures
        !bus.entries()[i].range.spec_overlaps(bus.entries()[j].range.base, bus.entries()[j].range.len),
{
    if i < j {
        assert(bus.entries()[i].range.end() <= bus.entries()[j].range.base);
    } else {
        assert(bus.entries()[j].range.end() <= bus.entries()[i].range.base);
    }
}

/// After an insertion, every address inside the new range reaches the new
/// device.
pub proof fn lemma_insert_reaches<O: BusDevice, I: BusDeviceSync>(
    bus: Bus<O, I>,
    device: BusDeviceEntry<O, I>,
    base: u64,
    len: u64,
    next: Bus<O, I>,
    addr: u64,
)
    requires
        bus.wf(),
        next.wf(),
        bus.insert_post(device, base, len, &next, Ok(())),
        (BusRange { base, len }).spec_contains(addr),
    ensures
        next.owned(addr),
        next.entries()[next.owner(addr)] == (BusEntry { range: BusRange { base, len }, device }),
        next.info_at(next.owner(addr), addr).offset == addr - base,
{
    let s = bus.entries();
    let e = BusEntry { range: BusRange { base, len }, device };
    let k = choose|k: int| 0 <= k <= s.len() && #[trigger] s.insert(k, e) == next.entries();
    assert(next.entries()[k] == e);
    next.lemma_owner_unique(addr, k, next.owner(addr));
}

/// After an insertion, an address outside the new range reaches the device
/// that it reached before, or none if it reached none.
pub proof fn lemma_insert_keeps<O: BusDevice, I: BusDeviceSync>(
    bus: Bus<O, I>,
    device: BusDeviceEntry<O, I>,
    base: u64,
    len: u64,
    next: Bus<O, I>,
    addr: u64,
)
    requires
        bus.wf(),
        next.wf(),
        bus.insert_post(device, base, len, &next, Ok(())),
        !(BusRange { base, len }).spec_contains(addr),
    ensures
        next.owned(addr) == bus.owned(addr),
        bus.owned(addr) ==> next.entries()[next.owner(addr)] == bus.entries()[bus.owner(addr)],
{
    let s = bus.entries();
    let t = next.entries();
    let e = BusEntry { range: BusRange { base, len }, device };
    let k = choose|k: int| 0 <= k <= s.len() && #[trigger] s.insert(k, e) == next.entries();
    if bus.owned(addr) {
        let i = bus.owner(addr);
        let j = if i < k { i } else { i + 1 };
        assert(t[j] == s[i]);
        next.lemma_owner_unique(addr, j, next.owner(addr));
    }
    if next.owned(addr) {
        let j = next.owner(addr);
        assert(j != k);
        let i = if j < k { j } else { j - 1 };
        assert(t[j] == s[i]);
    }
}

/// An insertion of a range that overlaps a range of the table fails with
/// `Error::Overlap`, and the table stays as it was.
pub proof fn lemma_insert_overlap_refused<O: BusDevice, I: BusDeviceSync>(
    bus: Bus<O, I>,
    device: BusDeviceEntry<O, I>,
    base: u64,
    len: u64,
    next: Bus<O, I>,
    r: Result<(), Error>,
    j: int,
)
    requires
        bus.insert_post(device, base, len, &next, r),
        0 <= j < bus.entries().len(),
        bus.entries()[j].range.spec_overlaps(base, len),
    ensures
        r matches Err(Error::Overlap { base: b, len: l, .. }) && b == base && l == len,
        next.entries() == bus.entries(),
        forall|addr: u64| next.owned(addr) == bus.owned(addr) && next.owner(addr) == bus.owner(addr),
{
}

/// What was inserted can be removed by its exact range, and by no other length.
pub proof fn lemma_inserted_is_present<O: BusDevice, I: BusDeviceSync>(
    bus: Bus<O, I>,
    device: BusDeviceEntry<O, I>,
    base: u64,
    len: u64,
    next: Bus<O, I>,
    other_len: u64,
)
    requires
        bus.wf(),
        next.wf(),
        bus.insert_post(device, base, len, &next, Ok(())),
    ensures
        next.has_range(base, len),
        next.has_range(base, other_len) ==> other_len == len,
{
    let s = bus.entries();
    let e = BusEntry { range: BusRange { base, len }, device };
    let k = choose|k: int| 0 <= k <= s.len() && #[trigger] s.insert(k, e) == next.entries();
    assert(next.entries()[k].range == (BusRange { base, len }));
    if next.has_range(base, other_len) {
        let j = choose|j: int|
            0 <= j < next.entries().len() && (#[trigger] next.entries()[j]).range == (BusRange {
                base,
                len: other_len,
            });
        if j != k {
            lemma_entries_disjoint(next, j, k);
        }
    }
}

/// After a removal the range is no longer in the table, so a second removal
/// of it fails; every other range is still there.
pub proof fn lemma_removed_is_absent<O: BusDevice, I: BusDeviceSync>(
    bus: Bus<O, I>,
    base: u64,
    len: u64,
    next: Bus<O, I>,
    k: int,
)
    requires
        bus.wf(),
        0 <= k < bus.entries().len(),
        bus.entries()[k].range == (BusRange { base, len }),
        next.entries() == bus.entries().remove(k),
    ensures
        !next.has_range(base, len),
        forall|b: u64, l: u64| (b != base || l != len) ==> next.has_range(b, l) == bus.has_range(b, l),
{
    let s = bus.entries();
    let t = next.entries();
    if next.has_range(base, len) {
        let j = choose|j: int| 0 <= j < t.len() && (#[trigger] t[j]).range == (BusRange { base, len });
        let i = if j < k { j } else { j + 1 };
        assert(t[j] == s[i]);
        lemma_entries_disjoint(bus, i, k);
    }
    assert forall|b: u64, l: u64| (b != base || l != len) implies next.has_range(b, l) == bus.has_range(
        b,
        l,
    ) by {
        if next.has_range(b, l) {
            let j = choose|j: int| 0 <= j < t.len() && (#[trigger] t[j]).range == (BusRange { base: b, len: l });
            let i = if j < k { j } else { j + 1 };
            assert(s[i].range == (BusRange { base: b, len: l }));
        }
        if bus.has_range(b, l) {
            let i = choose|i: int| 0 <= i < s.len() && (#[trigger] s[i]).range == (BusRange { base: b, len: l });
            let j = if i < k { i } else { i - 1 };
            assert(t[j].range == (BusRange { base: b, len: l }));
        }
    }
}

/// The device `d` is a memory if, whatever is written to it, a read at the
/// same place and of the same length gives back what the write has stored.
/// It is said of the one device, not of every value of its type.
pub open spec fn memory_backed<O: BusDevice>(d: O) -> bool {
    forall|
        info: BusAccessInfo,
        data: Seq<u8>,
        n: O,
        w: Result<(), DeviceError>,
        buf: Seq<u8>,
        m: O,
        out: Seq<u8>,
        r: Result<(), DeviceError>,
    |
        #![trigger d.write_post(info, data, &n, w), n.read_post(info, buf, &m, out, r)]
        d.write_post(info, data, &n, w) && w is Ok && n.read_post(info, buf, &m, out, r) && buf.len()
            == data.len() ==> r is Ok && out == data
}

/// Round trip: where the device that owns an address is a memory and a
/// write through the bus to that address has succeeded, a read of as many
/// bytes at the same address succeeds and returns what was written. Nothing
/// is asked of the other devices on the bus.
pub proof fn lemma_write_then_read<O: BusDevice, I: BusDeviceSync>(
    bus: Bus<O, I>,
    addr: u64,
    data: Seq<u8>,
    written: Bus<O, I>,
    buf: Seq<u8>,
    after: Bus<O, I>,
    out: Seq<u8>,
    r: Result<(), BusAccessError>,
)
    requires
        bus.wf(),
        written.wf(),
        bus.owned(addr),
        bus.entries()[bus.owner(addr)].device is OuterSync,
        memory_backed(bus.entries()[bus.owner(addr)].device->OuterSync_0),
        bus.write_post(addr, data, &written, Ok(())),
        written.read_post(addr, buf, &after, out, r),
        buf.len() == data.len(),
    ensures
        r is Ok,
        out == data,
{
    let i = bus.owner(addr);
    assert(written.entries()[i].range.spec_contains(addr));
    written.lemma_owner_unique(addr, i, written.owner(addr));
    let info = bus.info_at(i, addr);
    assert(written.info_at(i, addr) == info);
    let d = bus.entries()[i].device->OuterSync_0;
    let n = written.entries()[i].device->OuterSync_0;
    let m = after.entries()[i].device->OuterSync_0;
    let dw = choose|dw: Result<(), DeviceError>|
        d.write_post(info, data, &n, dw) && crate::bus::wrapped(dw, written.entries()[i].device, true, Ok(()));
    assert(dw is Ok);
    let dr = choose|dr: Result<(), DeviceError>|
        n.read_post(info, buf, &m, out, dr) && crate::bus::wrapped(dr, after.entries()[i].device, false, r);
    assert(d.write_post(info, data, &n, dw) && n.read_post(info, buf, &m, out, dr));
}

} // verus!
