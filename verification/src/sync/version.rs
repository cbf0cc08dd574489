//! Who authored an operation, and what one side knows the other has.
//!
//! Each device numbers the operations it authors, so an operation is known by
//! its device and its number there. A version vector records, for each
//! device, the highest number seen: an operation has been seen when its
//! number is at most that.

use vstd::prelude::*;

verus! {

/// A device that authors operations.
#[derive(Debug, Clone, Copy, PartialEq, Eq, PartialOrd, Ord, Hash, Structural)]
pub struct DeviceId(pub u64);

impl DeviceId {
    /// A device by its number.
    pub fn new(id: u64) -> (device: DeviceId)
        ensures
            device.0 == id,
    {
        DeviceId(id)
    }

    /// The device's number.
    pub fn get(self) -> (id: u64)
        ensures
            id == self.0,
    {
        self.0
    }
}

/// An operation, by the device that authored it and its number there.
#[derive(Debug, Clone, Copy, PartialEq, Eq, PartialOrd, Ord, Hash, Structural)]
pub struct OperationId {
    /// The device that authored it.
    pub device: DeviceId,
    /// Its number among that device's operations.
    pub sequence: u64,
}

impl OperationId {
    /// An operation by its device and number.
    pub fn new(device: DeviceId, sequence: u64) -> (id: OperationId)
        ensures
            id == (OperationId { device, sequence }),
    {
        OperationId { device, sequence }
    }
}

/// Identity order: by device, then by number, so that one device's
/// operations come in the order it authored them.
pub open spec fn id_before(a: OperationId, b: OperationId) -> bool {
    a.device.0 < b.device.0 || (a.device.0 == b.device.0 && a.sequence < b.sequence)
}

/// Whether one identity comes before another.
pub fn id_comes_before(a: OperationId, b: OperationId) -> (before: bool)
    ensures
        before == id_before(a, b),
{
    a.device.0 < b.device.0 || (a.device.0 == b.device.0 && a.sequence < b.sequence)
}

/// For each device, the highest operation number seen.
#[derive(Debug, PartialEq, Eq)]
pub struct VersionVector {
    /// One entry per device, as device and highest number, by device.
    entries: Vec<(u64, u64)>,
}

impl Clone for VersionVector {
    /// The same operations seen.
    fn clone(&self) -> (copy: VersionVector)
        ensures
            forall|id: OperationId| #[trigger] copy.seen(id) == self.seen(id),
    {
        proof {
            use_type_invariant(self);
        }
        let mut entries: Vec<(u64, u64)> = Vec::new();
        let mut index: usize = 0;
        while index < self.entries.len()
            invariant
                index <= self.entries@.len(),
                entries@ == self.entries@.take(index as int),
                devices_ascending(self.entries@),
            decreases self.entries@.len() - index,
        {
            entries.push(self.entries[index]);
            index += 1;
        }
        assert(entries@ =~= self.entries@);
        VersionVector { entries }
    }
}

impl Default for VersionVector {
    /// Nothing seen.
    fn default() -> (vector: VersionVector)
        ensures
            forall|id: OperationId| !#[trigger] vector.seen(id),
    {
        VersionVector::new()
    }
}

/// Whether entries name each device once, in ascending order.
pub open spec fn devices_ascending(entries: Seq<(u64, u64)>) -> bool {
    forall|i: int, j: int| 0 <= i < j < entries.len() ==> #[trigger] entries[i].0 < #[trigger] entries[j].0
}

/// Whether entries record an operation as seen.
pub open spec fn entries_see(entries: Seq<(u64, u64)>, id: OperationId) -> bool {
    exists|i: int| 0 <= i < entries.len() && #[trigger] entries[i].0 == id.device.0 && id.sequence <= entries[i].1
}

impl VersionVector {
    #[verifier::type_invariant]
    spec fn ordered(self) -> bool {
        devices_ascending(self.entries@)
    }

    /// Whether an operation has been seen: its device's highest number seen is
    /// at least its own.
    pub closed spec fn seen(&self, id: OperationId) -> bool {
        entries_see(self.entries@, id)
    }

    /// Nothing seen.
    pub fn new() -> (vector: VersionVector)
        ensures
            forall|id: OperationId| !#[trigger] vector.seen(id),
    {
        VersionVector { entries: Vec::new() }
    }

    /// Whether an operation has been seen.
    pub fn has_seen(&self, id: OperationId) -> (seen: bool)
        ensures
            seen == self.seen(id),
    {
        proof {
            use_type_invariant(self);
        }
        let mut index: usize = 0;
        while index < self.entries.len()
            invariant
                index <= self.entries@.len(),
                forall|i: int| 0 <= i < index ==> !(#[trigger] self.entries@[i].0 == id.device.0 && id.sequence <= self.entries@[i].1),
            decreases self.entries@.len() - index,
        {
            let (device, highest) = self.entries[index];
            if device == id.device.0 && id.sequence <= highest {
                return true;
            }
            index = index + 1;
        }
        false
    }

    /// Records an operation as seen, and with it every earlier one from the
    /// same device.
    pub fn observe(&mut self, id: OperationId)
        ensures
            forall|other: OperationId| #[trigger]
                final(self).seen(other) == (old(self).seen(other) || (other.device == id.device && other.sequence
                    <= id.sequence)),
    {
        proof {
            use_type_invariant(&*self);
        }
        let device = id.device.0;
        let mut index: usize = 0;
        while index < self.entries.len() && self.entries[index].0 < device
            invariant
                index <= self.entries@.len(),
                devices_ascending(self.entries@),
                forall|i: int| 0 <= i < index ==> #[trigger] self.entries@[i].0 < device,
            decreases self.entries@.len() - index,
        {
            index = index + 1;
        }
        let ghost before = self.entries@;
        if index < self.entries.len() && self.entries[index].0 == device {
            let highest = self.entries[index].1;
            let raised = if id.sequence > highest {
                id.sequence
            } else {
                highest
            };
            let mut entries: Vec<(u64, u64)> = Vec::new();
            std::mem::swap(&mut entries, &mut self.entries);
            entries.set(index, (device, raised));
            proof {
                assert forall|other: OperationId| #[trigger]
                    entries_see(entries@, other) == (entries_see(before, other) || (other.device == id.device
                        && other.sequence <= id.sequence)) by {
                    if other.device.0 == device {
                        if entries_see(before, other) {
                            let i = choose|i: int|
                                0 <= i < before.len() && #[trigger] before[i].0 == other.device.0 && other.sequence
                                    <= before[i].1;
                            assert(i == index as int);
                            assert(entries@[i].0 == other.device.0);
                        }
                        if entries_see(entries@, other) {
                            let i = choose|i: int|
                                0 <= i < entries@.len() && #[trigger] entries@[i].0 == other.device.0
                                    && other.sequence <= entries@[i].1;
                            assert(i == index as int);
                        }
                        if other.sequence <= raised {
                            assert(entries@[index as int].0 == other.device.0);
                        }
                    } else {
                        if entries_see(before, other) {
                            let i = choose|i: int|
                                0 <= i < before.len() && #[trigger] before[i].0 == other.device.0 && other.sequence
                                    <= before[i].1;
                            assert(entries@[i].0 == other.device.0);
                        }
                        if entries_see(entries@, other) {
                            let i = choose|i: int|
                                0 <= i < entries@.len() && #[trigger] entries@[i].0 == other.device.0
                                    && other.sequence <= entries@[i].1;
                            assert(before[i].0 == other.device.0);
                        }
                    }
                }
            }
            self.entries = entries;
        } else {
            let mut entries: Vec<(u64, u64)> = Vec::new();
            std::mem::swap(&mut entries, &mut self.entries);
            entries.insert(index, (device, id.sequence));
            proof {
                assert(devices_ascending(entries@)) by {
                    assert forall|i: int, j: int| 0 <= i < j < entries@.len() implies #[trigger] entries@[i].0
                        < #[trigger] entries@[j].0 by {
                        if j < index as int {
                        } else if j == index as int {
                            assert(entries@[i] == before[i]);
                        } else if i < index as int {
                            assert(entries@[j] == before[j - 1]);
                            assert(before[j - 1].0 >= device);
                        } else if i == index as int {
                            assert(entries@[j] == before[j - 1]);
                            assert(before[index as int].0 > device);
                            assert(before[index as int].0 <= before[j - 1].0);
                        } else {
                            assert(entries@[j] == before[j - 1]);
                            assert(entries@[i] == before[i - 1]);
                        }
                    }
                }
                assert forall|other: OperationId| #[trigger]
                    entries_see(entries@, other) == (entries_see(before, other) || (other.device == id.device
                        && other.sequence <= id.sequence)) by {
                    if entries_see(before, other) {
                        let i = choose|i: int|
                            0 <= i < before.len() && #[trigger] before[i].0 == other.device.0 && other.sequence
                                <= before[i].1;
                        if i < index as int {
                            assert(entries@[i] == before[i]);
                        } else {
                            assert(entries@[i + 1] == before[i]);
                        }
                    }
                    if other.device == id.device && other.sequence <= id.sequence {
                        assert(entries@[index as int].0 == other.device.0);
                    }
                    if entries_see(entries@, other) {
                        let i = choose|i: int|
                            0 <= i < entries@.len() && #[trigger] entries@[i].0 == other.device.0 && other.sequence
                                <= entries@[i].1;
                        if i < index as int {
                            assert(before[i] == entries@[i]);
                        } else if i > index as int {
                            assert(before[i - 1] == entries@[i]);
                        } else {
                            assert(other.device.0 == id.device.0);
                        }
                    }
                }
            }
            self.entries = entries;
        }
    }

    /// Records everything another vector has seen as seen here too.
    pub fn merge_from(&mut self, other: &VersionVector)
        ensures
            forall|id: OperationId| #[trigger] final(self).seen(id) == (old(self).seen(id) || other.seen(id)),
    {
        let mut index: usize = 0;
        while index < other.entries.len()
            invariant
                index <= other.entries@.len(),
                forall|id: OperationId| #[trigger]
                    self.seen(id) == (old(self).seen(id) || exists|j: int|
                        0 <= j < index && #[trigger] other.entries@[j].0 == id.device.0 && id.sequence
                            <= other.entries@[j].1),
            decreases other.entries@.len() - index,
        {
            let (device, highest) = other.entries[index];
            self.observe(OperationId { device: DeviceId(device), sequence: highest });
            proof {
                assert forall|id: OperationId| #[trigger]
                    self.seen(id) == (old(self).seen(id) || exists|j: int|
                        0 <= j < index + 1 && #[trigger] other.entries@[j].0 == id.device.0 && id.sequence
                            <= other.entries@[j].1) by {
                    if id.device.0 == device && id.sequence <= highest {
                        assert(other.entries@[index as int].0 == id.device.0);
                    }
                }
            }
            index = index + 1;
        }
    }
}

/// Seeing an operation is seeing every earlier one from the same device.
pub proof fn lemma_seen_reaches_back(vector: VersionVector, id: OperationId, earlier: OperationId)
    requires
        vector.seen(id),
        earlier.device == id.device,
        earlier.sequence <= id.sequence,
    ensures
        vector.seen(earlier),
{
    let entries = vector.entries@;
    let i = choose|i: int| 0 <= i < entries.len() && #[trigger] entries[i].0 == id.device.0 && id.sequence <= entries[i].1;
    assert(entries[i].0 == earlier.device.0);
}

} // verus!
