//! Totals of events, kept only for purposes the user agreed to.

use vstd::prelude::*;

use crate::security::consent::{Consents, Purpose};
use crate::security::redaction::{fields_sensitivity, value_sensitivity, Field, FieldValue, Record, Sensitivity};
use crate::telemetry::event::{all_events, event_index, event_is_a_fault, event_key, lemma_event_index_distinct, Event};

verus! {

/// The agreement an event is counted under: crash diagnostics for a fault,
/// usage analytics otherwise.
pub open spec fn event_purpose(event: Event) -> Purpose {
    if event_is_a_fault(event) {
        Purpose::CrashDiagnostics
    } else {
        Purpose::UsageAnalytics
    }
}

/// A total as a signed number, the largest one when it does not fit.
pub open spec fn total_number(total: u64) -> i64 {
    if total > i64::MAX {
        i64::MAX
    } else {
        total as i64
    }
}

/// A total after one more occurrence: one more, saturating; one when nothing
/// was held.
pub open spec fn incremented(held: Option<u64>) -> u64 {
    match held {
        Some(total) => if total == u64::MAX {
            u64::MAX
        } else {
            (total + 1) as u64
        },
        None => 1u64,
    }
}

/// The totals after counting one occurrence of an event.
pub open spec fn with_occurrence(slots: Seq<Option<u64>>, event: Event) -> Seq<Option<u64>> {
    slots.update(event_index(event), Some(incremented(slots[event_index(event)])))
}

/// The totals held, as event and total pairs in declaration order, over the
/// first `count` events.
pub open spec fn held_totals(slots: Seq<Option<u64>>, count: int) -> Seq<(Event, u64)>
    decreases count,
{
    if count <= 0 {
        Seq::empty()
    } else {
        let earlier = held_totals(slots, count - 1);
        match slots[count - 1] {
            Some(total) => earlier.push((all_events()[count - 1], total)),
            None => earlier,
        }
    }
}

/// Totals of events: what is kept is a total per kind, never an order, and
/// only while the user agrees to the purpose it is counted under.
#[derive(Debug, PartialEq, Eq)]
pub struct Counts {
    totals: Vec<Option<u64>>,
}

impl Counts {
    #[verifier::type_invariant]
    spec fn one_slot_per_event(self) -> bool {
        self.totals@.len() == 14
    }

    /// The total held for each event, in declaration order; `None` when
    /// nothing is held.
    pub closed spec fn spec_slots(&self) -> Seq<Option<u64>> {
        self.totals@
    }

    /// The total held for an event, if any.
    pub open spec fn spec_held(&self, event: Event) -> Option<u64> {
        self.spec_slots()[event_index(event)]
    }

    /// Nothing counted.
    pub fn new() -> (counts: Counts)
        ensures
            forall|event: Event| #[trigger] counts.spec_held(event) is None,
            counts.spec_slots().len() == 14,
    {
        let mut totals: Vec<Option<u64>> = Vec::new();
        let mut index: usize = 0;
        while index < 14
            invariant
                index <= 14,
                totals@.len() == index,
                forall|i: int| 0 <= i < index ==> totals@[i] is None,
            decreases 14 - index,
        {
            totals.push(None);
            index += 1;
        }
        proof {
            assert forall|event: Event| #[trigger] totals@[event_index(event)] is None by {
                lemma_event_index_distinct(event, event);
            }
        }
        Counts { totals }
    }

    /// The agreement an event is counted under.
    pub fn purpose_for(event: Event) -> (purpose: Purpose)
        ensures
            purpose == event_purpose(event),
    {
        if event.is_a_fault() {
            Purpose::CrashDiagnostics
        } else {
            Purpose::UsageAnalytics
        }
    }

    /// Counts an event, if its purpose is agreed to; returns whether it was
    /// counted. A total saturates rather than wrapping.
    pub fn record(&mut self, event: Event, consents: &Consents) -> (counted: bool)
        ensures
            old(self).spec_slots().len() == 14,
            final(self).spec_slots().len() == 14,
            counted == consents.spec_allows(event_purpose(event)),
            !counted ==> *final(self) == *old(self),
            counted ==> final(self).spec_slots() == with_occurrence(old(self).spec_slots(), event),
    {
        proof {
            use_type_invariant(&*self);
        }
        if !consents.allows(Counts::purpose_for(event)) {
            return false;
        }
        let index = event.index();
        let total = match self.totals[index] {
            Some(total) => total.saturating_add(1),
            None => 1,
        };
        self.totals = replaced(&self.totals, index, Some(total));
        true
    }

    /// The total for an event; zero when nothing is held.
    pub fn total(&self, event: Event) -> (total: u64)
        ensures
            self.spec_slots().len() == 14,
            total == (match self.spec_held(event) {
                Some(total) => total,
                None => 0,
            }),
    {
        proof {
            use_type_invariant(self);
        }
        match self.totals[event.index()] {
            Some(total) => total,
            None => 0,
        }
    }

    /// The totals held, in declaration order of their events.
    pub fn totals(&self) -> (totals: Vec<(Event, u64)>)
        ensures
            totals@ == held_totals(self.spec_slots(), 14),
    {
        proof {
            use_type_invariant(self);
        }
        let all = Event::all();
        let mut pairs: Vec<(Event, u64)> = Vec::new();
        let mut index: usize = 0;
        while index < 14
            invariant
                all@ == all_events(),
                self.totals@.len() == 14,
                index <= 14,
                pairs@ == held_totals(self.totals@, index as int),
            decreases 14 - index,
        {
            if let Some(total) = self.totals[index] {
                pairs.push((all[index], total));
            }
            index += 1;
        }
        pairs
    }

    /// Whether nothing is held.
    pub fn is_empty(&self) -> (empty: bool)
        ensures
            self.spec_slots().len() == 14,
            empty == forall|event: Event| #[trigger] self.spec_held(event) is None,
    {
        proof {
            use_type_invariant(self);
        }
        let mut index: usize = 0;
        while index < 14
            invariant
                self.totals@.len() == 14,
                index <= 14,
                forall|i: int| 0 <= i < index ==> self.totals@[i] is None,
            decreases 14 - index,
        {
            if self.totals[index].is_some() {
                proof {
                    let event = all_events()[index as int];
                    lemma_all_events_indexed(index as int);
                    assert(!(self.spec_held(event) is None));
                }
                return false;
            }
            index += 1;
        }
        proof {
            assert forall|event: Event| #[trigger] self.spec_held(event) is None by {
                lemma_event_index_distinct(event, event);
            }
        }
        true
    }

    /// Discards every total counted under a purpose.
    pub fn forget(&mut self, purpose: Purpose)
        ensures
            old(self).spec_slots().len() == 14,
            final(self).spec_slots().len() == 14,
            forall|event: Event| #[trigger] final(self).spec_held(event) == if event_purpose(event) == purpose {
                None
            } else {
                old(self).spec_held(event)
            },
    {
        proof {
            use_type_invariant(&*self);
        }
        let all = Event::all();
        let mut keep: Vec<bool> = Vec::new();
        let mut index: usize = 0;
        while index < 14
            invariant
                all@ == all_events(),
                index <= 14,
                keep@.len() == index,
                forall|i: int| 0 <= i < index ==> #[trigger] keep@[i] == (event_purpose(all_events()[i]) != purpose),
            decreases 14 - index,
        {
            keep.push(Counts::purpose_for(all[index]) != purpose);
            index += 1;
        }
        let kept = keep_only(&self.totals, &keep);
        proof {
            assert forall|event: Event| #[trigger] kept@[event_index(event)] == if event_purpose(event) == purpose {
                None
            } else {
                old(self).totals@[event_index(event)]
            } by {
                lemma_event_index_distinct(event, event);
            }
        }
        self.totals = kept;
    }

    /// Discards every total.
    pub fn forget_all(&mut self)
        ensures
            old(self).spec_slots().len() == 14,
            final(self).spec_slots().len() == 14,
            forall|event: Event| #[trigger] final(self).spec_held(event) is None,
    {
        proof {
            use_type_invariant(&*self);
        }
        *self = Counts::new();
    }

    /// Discards every total whose purpose is no longer agreed to.
    pub fn apply(&mut self, consents: &Consents)
        ensures
            old(self).spec_slots().len() == 14,
            final(self).spec_slots().len() == 14,
            forall|event: Event| #[trigger] final(self).spec_held(event) == if consents.spec_allows(
                event_purpose(event),
            ) {
                old(self).spec_held(event)
            } else {
                None
            },
    {
        proof {
            use_type_invariant(&*self);
        }
        let all = Event::all();
        let mut keep: Vec<bool> = Vec::new();
        let mut index: usize = 0;
        while index < 14
            invariant
                all@ == all_events(),
                index <= 14,
                keep@.len() == index,
                forall|i: int| 0 <= i < index ==> #[trigger] keep@[i] == consents.spec_allows(event_purpose(all_events()[i])),
            decreases 14 - index,
        {
            keep.push(consents.allows(Counts::purpose_for(all[index])));
            index += 1;
        }
        let kept = keep_only(&self.totals, &keep);
        proof {
            assert forall|event: Event| #[trigger] kept@[event_index(event)] == if consents.spec_allows(event_purpose(event)) {
                old(self).totals@[event_index(event)]
            } else {
                None
            } by {
                lemma_event_index_distinct(event, event);
            }
        }
        self.totals = kept;
    }
}

impl Counts {
    /// The totals as a public record: one number per event held, named by the
    /// event's key, in declaration order.
    pub fn report(&self) -> (report: Record)
        ensures
            report.spec_event()@ == "telemetry.counts"@,
            report.spec_fields().len() == held_totals(self.spec_slots(), 14).len(),
            forall|i: int| 0 <= i < report.spec_fields().len() ==> (#[trigger] report.spec_fields()[i]).spec_name()@
                == event_key(held_totals(self.spec_slots(), 14)[i].0) && report.spec_fields()[i].spec_value()
                == FieldValue::Number(total_number(held_totals(self.spec_slots(), 14)[i].1)),
            fields_sensitivity(report.spec_fields()) == Sensitivity::Public,
    {
        proof {
            use_type_invariant(self);
        }
        let all = Event::all();
        let mut report = Record::new("telemetry.counts");
        let mut index: usize = 0;
        while index < 14
            invariant
                all@ == all_events(),
                self.totals@.len() == 14,
                index <= 14,
                report.spec_event()@ == "telemetry.counts"@,
                report.spec_fields().len() == held_totals(self.totals@, index as int).len(),
                held_totals(self.totals@, index as int).len() <= index,
                forall|i: int| 0 <= i < report.spec_fields().len() ==> (#[trigger] report.spec_fields()[i]).spec_name()@
                    == event_key(held_totals(self.totals@, index as int)[i].0) && report.spec_fields()[i].spec_value()
                    == FieldValue::Number(total_number(held_totals(self.totals@, index as int)[i].1)),
            decreases 14 - index,
        {
            if let Some(total) = self.totals[index] {
                let number = if total > i64::MAX as u64 {
                    i64::MAX
                } else {
                    total as i64
                };
                report = report.with(Field::number(all[index].key(), number));
            }
            index += 1;
        }
        proof {
            let fields = report.spec_fields();
            assert forall|i: int| 0 <= i < fields.len() implies value_sensitivity(#[trigger] fields[i].spec_value())
                == Sensitivity::Public by {}
            crate::security::audit::lemma_all_public(fields);
        }
        report
    }
}

impl Clone for Counts {
    /// The same totals.
    fn clone(&self) -> (copy: Counts)
        ensures
            copy.spec_slots() == self.spec_slots(),
    {
        proof {
            use_type_invariant(self);
        }
        let mut totals: Vec<Option<u64>> = Vec::new();
        let mut index: usize = 0;
        while index < self.totals.len()
            invariant
                index <= self.totals@.len(),
                totals@ == self.totals@.take(index as int),
            decreases self.totals@.len() - index,
        {
            totals.push(self.totals[index]);
            index += 1;
            assert(totals@ =~= self.totals@.take(index as int));
        }
        assert(self.totals@.take(self.totals@.len() as int) =~= self.totals@);
        Counts { totals }
    }
}

impl Default for Counts {
    /// Nothing counted.
    fn default() -> (counts: Counts)
        ensures
            forall|event: Event| #[trigger] counts.spec_held(event) is None,
    {
        Counts::new()
    }
}

/// What is kept is a total and never an order: counting two events in either
/// order leaves the same totals.
pub proof fn lemma_counting_is_order_free(slots: Seq<Option<u64>>, first: Event, second: Event)
    requires
        slots.len() == 14,
    ensures
        with_occurrence(with_occurrence(slots, first), second) == with_occurrence(with_occurrence(slots, second), first),
{
    lemma_event_index_distinct(first, second);
    lemma_event_index_distinct(first, first);
    lemma_event_index_distinct(second, second);
    assert(with_occurrence(with_occurrence(slots, first), second) =~= with_occurrence(with_occurrence(slots, second), first));
}

/// Every event is counted under exactly one agreement: crash diagnostics
/// exactly for the faults.
pub proof fn lemma_one_agreement_per_event(event: Event)
    ensures
        (event_purpose(event) == Purpose::CrashDiagnostics) == event_is_a_fault(event),
        event_purpose(event) == Purpose::CrashDiagnostics || event_purpose(event) == Purpose::UsageAnalytics,
{
}

/// Each position of the list of events holds that event.
pub proof fn lemma_all_events_indexed(index: int)
    requires
        0 <= index < 14,
    ensures
        event_index(all_events()[index]) == index,
{
}

/// A copy of some totals with one replaced.
fn replaced(slots: &Vec<Option<u64>>, at: usize, value: Option<u64>) -> (copy: Vec<Option<u64>>)
    requires
        at < slots@.len(),
    ensures
        copy@ == slots@.update(at as int, value),
{
    let mut copy: Vec<Option<u64>> = Vec::new();
    let mut index: usize = 0;
    while index < slots.len()
        invariant
            index <= slots@.len(),
            at < slots@.len(),
            copy@ == slots@.update(at as int, value).take(index as int),
        decreases slots@.len() - index,
    {
        if index == at {
            copy.push(value);
        } else {
            copy.push(slots[index]);
        }
        index += 1;
        assert(copy@ =~= slots@.update(at as int, value).take(index as int));
    }
    assert(slots@.update(at as int, value).take(slots@.len() as int) =~= slots@.update(at as int, value));
    copy
}

/// A copy of some totals keeping those whose flag is set.
fn keep_only(slots: &Vec<Option<u64>>, keep: &Vec<bool>) -> (copy: Vec<Option<u64>>)
    requires
        keep@.len() == slots@.len(),
    ensures
        copy@.len() == slots@.len(),
        forall|i: int| 0 <= i < slots@.len() ==> #[trigger] copy@[i] == if keep@[i] {
            slots@[i]
        } else {
            None
        },
{
    let mut copy: Vec<Option<u64>> = Vec::new();
    let mut index: usize = 0;
    while index < slots.len()
        invariant
            keep@.len() == slots@.len(),
            index <= slots@.len(),
            copy@.len() == index,
            forall|i: int| 0 <= i < index ==> #[trigger] copy@[i] == if keep@[i] {
                slots@[i]
            } else {
                None
            },
        decreases slots@.len() - index,
    {
        if keep[index] {
            copy.push(slots[index]);
        } else {
            copy.push(None);
        }
        index += 1;
    }
    copy
}

} // verus!
