//! Work that has been done here and not yet reached anywhere else.
//!
//! A full outbox refuses; it does not forget. An entry is the user's work,
//! so the bound is a signal to tell the user about, never a reason to drop
//! the oldest. Acknowledgement is by identity, so holding again what is
//! already held, or acknowledging again what has arrived, changes nothing.

use vstd::prelude::*;

use crate::sync::version::{id_before, id_comes_before, lemma_seen_reaches_back, DeviceId, OperationId, VersionVector};
use crate::text::{decimal, push_decimal, push_str};

verus! {

/// Why the outbox would not take something.
#[derive(Debug, Clone, Copy, PartialEq, Eq, Hash, Structural)]
#[non_exhaustive]
pub enum OutboxError {
    /// It holds as much as it will: a full outbox refuses rather than
    /// forgetting the user's work.
    Full {
        /// How many entries that is.
        limit: usize,
    },
}

impl OutboxError {
    /// The error as a person reads it.
    pub fn to_text(self) -> (text: String)
        ensures
            text@ == (match self {
                OutboxError::Full { limit } => decimal(limit as int) + " edits are already waiting to be synchronised"@,
            }),
    {
        let mut text = String::new();
        match self {
            OutboxError::Full { limit } => {
                push_decimal(&mut text, limit as i128);
                push_str(&mut text, " edits are already waiting to be synchronised");
            },
        }
        assert(text@ =~= (match self {
            OutboxError::Full { limit } => decimal(limit as int) + " edits are already waiting to be synchronised"@,
        }));
        text
    }
}

/// Whether identities come in identity order, each once.
pub open spec fn ids_ascending(ids: Seq<OperationId>) -> bool {
    forall|i: int, j: int| 0 <= i < j < ids.len() ==> id_before(#[trigger] ids[i], #[trigger] ids[j])
}

/// The operations authored here that have not yet reached the other side.
#[derive(Debug, PartialEq, Eq)]
pub struct Outbox {
    device: Option<DeviceId>,
    waiting: Vec<OperationId>,
    acknowledged: VersionVector,
}

impl Outbox {
    /// How many operations may wait: enough that reaching it means a sync
    /// has not run for a very long time, which the user needs to hear about.
    pub const LIMIT: usize = 65_536;

    #[verifier::type_invariant]
    spec fn in_order(self) -> bool {
        &&& ids_ascending(self.waiting@)
        &&& self.waiting@.len() <= Outbox::LIMIT
    }

    /// What is waiting, in identity order.
    pub closed spec fn spec_waiting(&self) -> Seq<OperationId> {
        self.waiting@
    }

    /// What this side knows the other has.
    pub closed spec fn spec_acknowledged(&self) -> VersionVector {
        self.acknowledged
    }

    /// The device whose operation was held first, if any was.
    pub closed spec fn spec_device(&self) -> Option<DeviceId> {
        self.device
    }

    /// An empty outbox that has seen nothing acknowledged.
    pub fn new() -> (outbox: Outbox)
        ensures
            outbox.spec_waiting() == Seq::<OperationId>::empty(),
            outbox.spec_device() is None,
            forall|id: OperationId| !#[trigger] outbox.spec_acknowledged().seen(id),
    {
        Outbox { device: None, waiting: Vec::new(), acknowledged: VersionVector::new() }
    }

    /// Records that an operation was authored here and needs to travel.
    /// Holding one already waiting, or one already acknowledged, changes
    /// nothing, so replaying the log on startup duplicates nothing. A full
    /// outbox refuses, changing nothing, rather than discarding anything.
    pub fn hold(&mut self, id: OperationId) -> (result: Result<(), OutboxError>)
        ensures
            final(self).spec_acknowledged() == old(self).spec_acknowledged(),
            old(self).spec_acknowledged().seen(id) || old(self).spec_waiting().contains(id) ==> {
                &&& result is Ok
                &&& final(self).spec_waiting() == old(self).spec_waiting()
                &&& final(self).spec_device() == old(self).spec_device()
            },
            !old(self).spec_acknowledged().seen(id) && !old(self).spec_waiting().contains(id)
                && old(self).spec_waiting().len() >= Outbox::LIMIT ==> {
                &&& result == Err::<(), OutboxError>(OutboxError::Full { limit: Outbox::LIMIT })
                &&& final(self).spec_waiting() == old(self).spec_waiting()
                &&& final(self).spec_device() == old(self).spec_device()
            },
            !old(self).spec_acknowledged().seen(id) && !old(self).spec_waiting().contains(id)
                && old(self).spec_waiting().len() < Outbox::LIMIT ==> {
                &&& result is Ok
                &&& final(self).spec_waiting().to_set() == old(self).spec_waiting().to_set().insert(id)
                &&& final(self).spec_waiting().len() == old(self).spec_waiting().len() + 1
                &&& final(self).spec_device() == (match old(self).spec_device() {
                    Some(device) => Some(device),
                    None => Some(id.device),
                })
            },
            ids_ascending(final(self).spec_waiting()),
    {
        proof {
            use_type_invariant(&*self);
        }
        if self.acknowledged.has_seen(id) {
            return Ok(());
        }
        let index = self.position(id);
        if index < self.waiting.len() && self.waiting[index] == id {
            return Ok(());
        }
        proof {
            assert(!self.waiting@.contains(id)) by {
                if self.waiting@.contains(id) {
                    let k = choose|k: int| 0 <= k < self.waiting@.len() && self.waiting@[k] == id;
                    if k < index as int {
                    } else if k > index as int {
                        assert(id_before(self.waiting@[index as int], self.waiting@[k]));
                    }
                }
            }
        }
        if self.waiting.len() >= Outbox::LIMIT {
            return Err(OutboxError::Full { limit: Outbox::LIMIT });
        }
        if self.device.is_none() {
            self.device = Some(id.device);
        }
        let ghost before = self.waiting@;
        let mut waiting: Vec<OperationId> = Vec::new();
        std::mem::swap(&mut waiting, &mut self.waiting);
        waiting.insert(index, id);
        proof {
            assert(ids_ascending(waiting@)) by {
                assert forall|i: int, j: int| 0 <= i < j < waiting@.len() implies id_before(
                    #[trigger] waiting@[i],
                    #[trigger] waiting@[j],
                ) by {
                    if j < index as int {
                    } else if j == index as int {
                        assert(waiting@[i] == before[i]);
                    } else if i < index as int {
                        assert(waiting@[j] == before[j - 1]);
                        assert(waiting@[i] == before[i]);
                        if i < j - 1 {
                            assert(id_before(before[i], before[j - 1]));
                        }
                    } else if i == index as int {
                        assert(waiting@[j] == before[j - 1]);
                        if j - 1 > index as int {
                            assert(id_before(before[index as int], before[j - 1]));
                        }
                    } else {
                        assert(waiting@[j] == before[j - 1]);
                        assert(waiting@[i] == before[i - 1]);
                    }
                }
            }
            assert(waiting@.to_set() =~= before.to_set().insert(id)) by {
                assert forall|x: OperationId| waiting@.to_set().contains(x) <==> before.to_set().insert(id).contains(x) by {
                    if waiting@.to_set().contains(x) {
                        let k = choose|k: int| 0 <= k < waiting@.len() && waiting@[k] == x;
                        if k < index as int {
                            assert(before[k] == x);
                        } else if k > index as int {
                            assert(before[k - 1] == x);
                        }
                    }
                    if before.to_set().contains(x) {
                        let k = choose|k: int| 0 <= k < before.len() && before[k] == x;
                        if k < index as int {
                            assert(waiting@[k] == x);
                        } else {
                            assert(waiting@[k + 1] == x);
                        }
                    }
                    if x == id {
                        assert(waiting@[index as int] == x);
                    }
                }
            }
        }
        self.waiting = waiting;
        Ok(())
    }

    /// Where an identity sits among those waiting: the number that come
    /// before it.
    fn position(&self, id: OperationId) -> (index: usize)
        requires
            ids_ascending(self.waiting@),
        ensures
            index <= self.waiting@.len(),
            forall|i: int| 0 <= i < index ==> id_before(#[trigger] self.waiting@[i], id),
            forall|i: int| index <= i < self.waiting@.len() ==> !id_before(#[trigger] self.waiting@[i], id),
    {
        let mut low: usize = 0;
        let mut high: usize = self.waiting.len();
        while low < high
            invariant
                low <= high <= self.waiting@.len(),
                ids_ascending(self.waiting@),
                forall|i: int| 0 <= i < low ==> id_before(#[trigger] self.waiting@[i], id),
                forall|i: int| high <= i < self.waiting@.len() ==> !id_before(#[trigger] self.waiting@[i], id),
            decreases high - low,
        {
            let middle = low + (high - low) / 2;
            if id_comes_before(self.waiting[middle], id) {
                proof {
                    assert forall|i: int| 0 <= i <= middle implies id_before(#[trigger] self.waiting@[i], id) by {
                        if i < middle {
                            assert(id_before(self.waiting@[i], self.waiting@[middle as int]));
                        }
                    }
                }
                low = middle + 1;
            } else {
                proof {
                    assert forall|i: int| middle <= i < self.waiting@.len() implies !id_before(
                        #[trigger] self.waiting@[i],
                        id,
                    ) by {
                        if i > middle {
                            assert(id_before(self.waiting@[middle as int], self.waiting@[i]));
                        }
                    }
                }
                high = middle;
            }
        }
        low
    }

    /// Records that the other side has an operation: it stops waiting, and
    /// it and every earlier operation from its device count as seen.
    /// Acknowledging twice, or acknowledging something never held, changes
    /// nothing more.
    pub fn acknowledge(&mut self, id: OperationId)
        ensures
            forall|other: OperationId| #[trigger]
                final(self).spec_acknowledged().seen(other) == (old(self).spec_acknowledged().seen(other) || (
                other.device == id.device && other.sequence <= id.sequence)),
            final(self).spec_waiting().to_set() == old(self).spec_waiting().to_set().remove(id),
            ids_ascending(final(self).spec_waiting()),
            final(self).spec_device() == old(self).spec_device(),
    {
        proof {
            use_type_invariant(&*self);
        }
        let mut acknowledged = VersionVector::new();
        std::mem::swap(&mut acknowledged, &mut self.acknowledged);
        acknowledged.observe(id);
        self.acknowledged = acknowledged;
        let index = self.position(id);
        let ghost before = self.waiting@;
        if index < self.waiting.len() && self.waiting[index] == id {
            let mut waiting: Vec<OperationId> = Vec::new();
            std::mem::swap(&mut waiting, &mut self.waiting);
            waiting.remove(index);
            proof {
                assert(waiting@ =~= before.remove(index as int));
                assert(waiting@.to_set() =~= before.to_set().remove(id)) by {
                    assert forall|x: OperationId| waiting@.to_set().contains(x) <==> before.to_set().remove(id).contains(x) by {
                        if waiting@.to_set().contains(x) {
                            let k = choose|k: int| 0 <= k < waiting@.len() && waiting@[k] == x;
                            if k < index as int {
                                assert(before[k] == x);
                                assert(id_before(x, id));
                            } else {
                                assert(before[k + 1] == x);
                                assert(id_before(id, x));
                            }
                        }
                        if before.to_set().remove(id).contains(x) {
                            let k = choose|k: int| 0 <= k < before.len() && before[k] == x;
                            if k < index as int {
                                assert(waiting@[k] == x);
                            } else if k > index as int {
                                assert(waiting@[k - 1] == x);
                            }
                        }
                    }
                }
            }
            self.waiting = waiting;
        } else {
            proof {
                assert(!before.contains(id)) by {
                    if before.contains(id) {
                        let k = choose|k: int| 0 <= k < before.len() && before[k] == id;
                        if k > index as int {
                            assert(id_before(before[index as int], before[k]));
                        }
                    }
                }
                assert(before.to_set().remove(id) =~= before.to_set());
            }
        }
    }

    /// Records that everything a vector has seen has arrived: it all stops
    /// waiting, in one exchange rather than one per operation.
    pub fn acknowledge_through(&mut self, seen: &VersionVector)
        ensures
            forall|other: OperationId| #[trigger]
                final(self).spec_acknowledged().seen(other) == (old(self).spec_acknowledged().seen(other)
                    || seen.seen(other)),
            final(self).spec_waiting() == old(self).spec_waiting().filter(|id: OperationId| !seen.seen(id)),
            ids_ascending(final(self).spec_waiting()),
            final(self).spec_device() == old(self).spec_device(),
    {
        proof {
            use_type_invariant(&*self);
        }
        let ghost before = self.waiting@;
        let ghost keep = |id: OperationId| !seen.seen(id);
        let mut kept: Vec<OperationId> = Vec::new();
        let mut index: usize = 0;
        assert(before.take(0).filter(keep) =~= Seq::<OperationId>::empty()) by {
            reveal(Seq::filter);
        }
        while index < self.waiting.len()
            invariant
                index <= before.len(),
                self.waiting@ == before,
                ids_ascending(before),
                before.len() <= Outbox::LIMIT,
                keep == (|id: OperationId| !seen.seen(id)),
                kept@ == before.take(index as int).filter(keep),
                kept@.len() <= index,
                ids_ascending(kept@),
                forall|k: int| 0 <= k < kept@.len() ==> exists|i: int| 0 <= i < index && before[i] == #[trigger] kept@[k],
            decreases before.len() - index,
        {
            let id = self.waiting[index];
            proof {
                reveal(Seq::filter);
                assert(before.take(index as int + 1).drop_last() =~= before.take(index as int));
                assert(before.take(index as int + 1).last() == id);
            }
            if !seen.has_seen(id) {
                let ghost prior = kept@;
                proof {
                    assert forall|k: int| 0 <= k < prior.len() implies id_before(#[trigger] prior[k], id) by {
                        let i = choose|i: int| 0 <= i < index && before[i] == prior[k];
                    }
                }
                kept.push(id);
                proof {
                    assert forall|k: int| 0 <= k < kept@.len() implies exists|i: int| 0 <= i < index + 1 && before[i]
                        == #[trigger] kept@[k] by {
                        if k < prior.len() {
                            assert(kept@[k] == prior[k]);
                            let i = choose|i: int| 0 <= i < index && before[i] == prior[k];
                        } else {
                            assert(before[index as int] == kept@[k]);
                        }
                    }
                    assert forall|i: int, j: int| 0 <= i < j < kept@.len() implies id_before(
                        #[trigger] kept@[i],
                        #[trigger] kept@[j],
                    ) by {
                        assert(kept@[i] == prior[i]);
                        if j < prior.len() {
                            assert(kept@[j] == prior[j]);
                        }
                    }
                }
            }
            index = index + 1;
        }
        assert(before.take(before.len() as int) =~= before);
        self.waiting = kept;
        let mut acknowledged = VersionVector::new();
        std::mem::swap(&mut acknowledged, &mut self.acknowledged);
        acknowledged.merge_from(seen);
        self.acknowledged = acknowledged;
    }

    /// What is still waiting, oldest first: in identity order, which for one
    /// device is the order it authored them.
    pub fn waiting(&self) -> (waiting: Vec<OperationId>)
        ensures
            waiting@ == self.spec_waiting(),
            ids_ascending(waiting@),
            waiting@.len() <= Outbox::LIMIT,
    {
        proof {
            use_type_invariant(self);
        }
        let mut waiting: Vec<OperationId> = Vec::new();
        let mut index: usize = 0;
        while index < self.waiting.len()
            invariant
                index <= self.waiting@.len(),
                waiting@ == self.waiting@.take(index as int),
            decreases self.waiting@.len() - index,
        {
            waiting.push(self.waiting[index]);
            index += 1;
        }
        assert(waiting@ =~= self.waiting@);
        waiting
    }

    /// How many are waiting.
    pub fn len(&self) -> (count: usize)
        ensures
            count == self.spec_waiting().len(),
            count <= Outbox::LIMIT,
    {
        proof {
            use_type_invariant(self);
        }
        self.waiting.len()
    }

    /// Whether everything authored here has arrived.
    pub fn is_empty(&self) -> (empty: bool)
        ensures
            empty == (self.spec_waiting().len() == 0),
    {
        self.waiting.len() == 0
    }

    /// Whether the outbox is nine tenths full: worth telling the user while
    /// there is still room to act.
    pub fn is_nearly_full(&self) -> (nearly: bool)
        ensures
            nearly == (self.spec_waiting().len() * 10 >= Outbox::LIMIT * 9),
    {
        proof {
            use_type_invariant(self);
        }
        self.waiting.len() * 10 >= Outbox::LIMIT * 9
    }

    /// What this side knows the other has.
    pub fn acknowledged(&self) -> (acknowledged: &VersionVector)
        ensures
            *acknowledged == self.spec_acknowledged(),
    {
        &self.acknowledged
    }
}

impl Default for Outbox {
    /// An empty outbox.
    fn default() -> (outbox: Outbox)
        ensures
            outbox.spec_waiting() == Seq::<OperationId>::empty(),
            outbox.spec_device() is None,
            forall|id: OperationId| !#[trigger] outbox.spec_acknowledged().seen(id),
    {
        Outbox::new()
    }
}

/// Acknowledging an operation again changes nothing: what counts as seen is
/// what already did, and nothing more stops waiting.
pub proof fn lemma_acknowledging_twice_is_a_no_op(once: Outbox, twice: Outbox, id: OperationId)
    requires
        once.spec_acknowledged().seen(id),
        !once.spec_waiting().contains(id),
        forall|other: OperationId| #[trigger]
            twice.spec_acknowledged().seen(other) == (once.spec_acknowledged().seen(other) || (other.device
                == id.device && other.sequence <= id.sequence)),
        twice.spec_waiting().to_set() == once.spec_waiting().to_set().remove(id),
    ensures
        forall|other: OperationId| #[trigger]
            twice.spec_acknowledged().seen(other) == once.spec_acknowledged().seen(other),
        twice.spec_waiting().to_set() == once.spec_waiting().to_set(),
{
    assert forall|other: OperationId| #[trigger]
        twice.spec_acknowledged().seen(other) == once.spec_acknowledged().seen(other) by {
        if other.device == id.device && other.sequence <= id.sequence {
            lemma_seen_reaches_back(once.spec_acknowledged(), id, other);
        }
    }
    assert(once.spec_waiting().to_set().remove(id) =~= once.spec_waiting().to_set());
}

/// An operation that has been acknowledged is never queued again: after it
/// is acknowledged, holding it leaves the outbox as it was.
pub proof fn lemma_an_acknowledged_edit_is_not_queued_again(
    before: Outbox,
    acknowledged: Outbox,
    held: Outbox,
    id: OperationId,
    result: Result<(), OutboxError>,
)
    requires
        forall|other: OperationId| #[trigger]
            acknowledged.spec_acknowledged().seen(other) == (before.spec_acknowledged().seen(other) || (
            other.device == id.device && other.sequence <= id.sequence)),
        acknowledged.spec_acknowledged().seen(id) ==> result is Ok && held.spec_waiting()
            == acknowledged.spec_waiting(),
    ensures
        result is Ok,
        held.spec_waiting() == acknowledged.spec_waiting(),
{
    assert(acknowledged.spec_acknowledged().seen(id));
}

/// The warning comes while there is still room: an outbox that refuses is
/// already reported nearly full, and the report starts before the limit.
pub proof fn lemma_the_warning_comes_before_the_refusal(waiting: nat)
    ensures
        waiting >= Outbox::LIMIT ==> waiting * 10 >= Outbox::LIMIT * 9,
        (Outbox::LIMIT - 1) * 10 >= Outbox::LIMIT * 9,
{
}

} // verus!
