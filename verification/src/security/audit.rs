//! What was decided, and when: a bounded log of authorisation decisions that
//! records the kind of actor and never the person, and says how much it
//! dropped.

use vstd::prelude::*;

use std::collections::VecDeque;

use crate::security::authorisation::{
    authorise, capability_key, refusal_key, role_key, spec_authorise, Capability, PluginId, Refusal, Role,
    Subject,
};
use crate::security::redaction::{
    fields_sensitivity, value_sensitivity, Field, FieldValue, Record, Sensitivity,
};

verus! {

/// Who acted, by kind: a role, or a plugin's identifier.
#[derive(Debug, Clone, Copy, PartialEq, Eq, Hash, Structural)]
#[non_exhaustive]
pub enum Actor {
    /// A person, by role.
    User(Role),
    /// A plugin, by identifier.
    Plugin(PluginId),
}

/// The actor of a subject: its role or its plugin identifier.
pub open spec fn actor_of(subject: Subject) -> Actor {
    match subject {
        Subject::User { role } => Actor::User(role),
        Subject::Plugin { id, .. } => Actor::Plugin(id),
    }
}

/// The stable key of an actor's kind.
pub open spec fn actor_key(actor: Actor) -> Seq<char> {
    match actor {
        Actor::User(_) => "actor.user"@,
        Actor::Plugin(_) => "actor.plugin"@,
    }
}

impl Actor {
    /// The actor behind a subject.
    pub fn of(subject: Subject) -> (actor: Actor)
        ensures
            actor == actor_of(subject),
    {
        match subject {
            Subject::User { role } => Actor::User(role),
            Subject::Plugin { id, .. } => Actor::Plugin(id),
        }
    }

    /// A stable identifier of the kind of actor.
    pub fn key(self) -> (key: &'static str)
        ensures
            key@ == actor_key(self),
    {
        match self {
            Actor::User(_) => "actor.user",
            Actor::Plugin(_) => "actor.plugin",
        }
    }
}

/// What was decided.
#[derive(Debug, Clone, Copy, PartialEq, Eq, Hash, Structural)]
#[non_exhaustive]
pub enum Decision {
    /// The request was allowed.
    Allowed,
    /// The request was refused, for this reason.
    Refused(Refusal),
}

/// The decision an authorisation result records.
pub open spec fn decision_of(result: Result<(), Refusal>) -> Decision {
    match result {
        Ok(()) => Decision::Allowed,
        Err(refusal) => Decision::Refused(refusal),
    }
}

/// The stable key of a decision.
pub open spec fn decision_key(decision: Decision) -> Seq<char> {
    match decision {
        Decision::Allowed => "decision.allowed"@,
        Decision::Refused(_) => "decision.refused"@,
    }
}

impl Decision {
    /// The decision an authorisation result records.
    pub fn of(result: Result<(), Refusal>) -> (decision: Decision)
        ensures
            decision == decision_of(result),
    {
        match result {
            Ok(()) => Decision::Allowed,
            Err(refusal) => Decision::Refused(refusal),
        }
    }

    /// Whether the request was allowed.
    pub fn is_allowed(self) -> (allowed: bool)
        ensures
            allowed == (self is Allowed),
    {
        matches!(self, Decision::Allowed)
    }

    /// A stable identifier of the decision.
    pub fn key(self) -> (key: &'static str)
        ensures
            key@ == decision_key(self),
    {
        match self {
            Decision::Allowed => "decision.allowed",
            Decision::Refused(_) => "decision.refused",
        }
    }
}

/// One decision: when (an ordinal the caller supplies), by whom, about what,
/// and what was decided.
#[derive(Debug, Clone, Copy, PartialEq, Eq, Hash, Structural)]
pub struct Entry {
    /// When, as an ordinal the caller supplies.
    pub ordinal: u64,
    /// Who asked, by kind.
    pub actor: Actor,
    /// What they asked to do.
    pub capability: Capability,
    /// What was decided.
    pub decision: Decision,
}

/// The ordinal as a signed number, the largest one when it does not fit.
pub open spec fn ordinal_number(ordinal: u64) -> i64 {
    if ordinal > i64::MAX {
        i64::MAX
    } else {
        ordinal as i64
    }
}

/// Whether a field is a named stable key.
pub open spec fn is_key_field(field: Field, name: Seq<char>, key: Seq<char>) -> bool {
    field.spec_name()@ == name && (field.spec_value() matches FieldValue::Key(value) && value@ == key)
}

/// Whether a record is the rendering of an entry: the event key, then the
/// ordinal, the actor's kind, the capability and the decision, then the role
/// or the plugin identifier, then the reason for a refusal.
pub open spec fn renders_entry(record: Record, entry: Entry) -> bool {
    let fields = record.spec_fields();
    &&& record.spec_event()@ == "audit.decision"@
    &&& fields.len() == (if entry.decision is Refused { 6int } else { 5int })
    &&& fields[0].spec_name()@ == "ordinal"@
    &&& fields[0].spec_value() == FieldValue::Number(ordinal_number(entry.ordinal))
    &&& is_key_field(fields[1], "actor"@, actor_key(entry.actor))
    &&& is_key_field(fields[2], "capability"@, capability_key(entry.capability))
    &&& is_key_field(fields[3], "decision"@, decision_key(entry.decision))
    &&& match entry.actor {
        Actor::User(role) => is_key_field(fields[4], "role"@, role_key(role)),
        Actor::Plugin(id) => fields[4].spec_name()@ == "plugin"@ && fields[4].spec_value() == FieldValue::Identifier(id.0),
    }
    &&& match entry.decision {
        Decision::Allowed => true,
        Decision::Refused(refusal) => is_key_field(fields[5], "reason"@, refusal_key(refusal)),
    }
}

impl Entry {
    /// Records a decision about a subject, keeping only the kind of actor.
    pub fn new(ordinal: u64, subject: Subject, capability: Capability, decision: Decision) -> (entry: Entry)
        ensures
            entry == (Entry { ordinal, actor: actor_of(subject), capability, decision }),
    {
        Entry { ordinal, actor: Actor::of(subject), capability, decision }
    }

    /// When.
    pub fn ordinal(self) -> (ordinal: u64)
        ensures
            ordinal == self.ordinal,
    {
        self.ordinal
    }

    /// Who asked, by kind.
    pub fn actor(self) -> (actor: Actor)
        ensures
            actor == self.actor,
    {
        self.actor
    }

    /// What they asked to do.
    pub fn capability(self) -> (capability: Capability)
        ensures
            capability == self.capability,
    {
        self.capability
    }

    /// What was decided.
    pub fn decision(self) -> (decision: Decision)
        ensures
            decision == self.decision,
    {
        self.decision
    }

    /// The entry as a diagnostic record made only of stable keys and numbers,
    /// and therefore public: safe to attach to a support ticket.
    pub fn render(self) -> (record: Record)
        ensures
            renders_entry(record, self),
            fields_sensitivity(record.spec_fields()) == Sensitivity::Public,
    {
        let ordinal = if self.ordinal > i64::MAX as u64 {
            i64::MAX
        } else {
            self.ordinal as i64
        };
        let record = Record::new("audit.decision")
            .with(Field::number("ordinal", ordinal))
            .with(Field::key("actor", self.actor.key()))
            .with(Field::key("capability", self.capability.key()))
            .with(Field::key("decision", self.decision.key()));
        let record = match self.actor {
            Actor::User(role) => record.with(Field::key("role", role.key())),
            Actor::Plugin(id) => record.with(Field::identifier("plugin", id.get())),
        };
        let record = match self.decision {
            Decision::Allowed => record,
            Decision::Refused(refusal) => record.with(Field::key("reason", refusal.key())),
        };
        proof {
            let fields = record.spec_fields();
            assert forall|i: int| 0 <= i < fields.len() implies value_sensitivity(#[trigger] fields[i].spec_value())
                == Sensitivity::Public by {}
            lemma_all_public(fields);
        }
        record
    }

    /// The entry as it renders.
    pub fn to_text(self) -> (text: String)
        ensures
            exists|record: Record| renders_entry(record, self) && text@ == record.spec_text(),
    {
        let record = self.render();
        record.to_text()
    }
}

/// Fields that are each public make a public record.
pub proof fn lemma_all_public(fields: Seq<Field>)
    requires
        forall|i: int| 0 <= i < fields.len() ==> value_sensitivity(#[trigger] fields[i].spec_value())
            == Sensitivity::Public,
    ensures
        fields_sensitivity(fields) == Sensitivity::Public,
    decreases fields.len(),
{
    if fields.len() > 0 {
        let shorter = fields.drop_last();
        assert forall|i: int| 0 <= i < shorter.len() implies value_sensitivity(#[trigger] shorter[i].spec_value())
            == Sensitivity::Public by {
            assert(shorter[i] == fields[i]);
        }
        lemma_all_public(shorter);
        assert(value_sensitivity(fields[fields.len() - 1].spec_value()) == Sensitivity::Public);
    }
}

/// A bounded log of decisions, oldest first.
///
/// When full, the oldest entry goes and the count of discarded entries grows,
/// so the log never reads as a complete record of a period in which it was not
/// one.
#[derive(Debug, Clone)]
pub struct AuditLog {
    entries: VecDeque<Entry>,
    capacity: usize,
    discarded: u64,
}

impl AuditLog {
    /// The capacity of a log made by `new`.
    pub const DEFAULT_CAPACITY: usize = 1024;

    /// The entries held, oldest first.
    pub closed spec fn spec_entries(&self) -> Seq<Entry> {
        self.entries@
    }

    /// The most entries held at once.
    pub closed spec fn spec_capacity(&self) -> usize {
        self.capacity
    }

    /// How many entries were dropped to make room.
    pub closed spec fn spec_discarded(&self) -> u64 {
        self.discarded
    }

    /// Whether the log keeps its bounds: room for at least one entry, and no
    /// more entries than room.
    pub open spec fn well_formed(&self) -> bool {
        1 <= self.spec_capacity() && self.spec_entries().len() <= self.spec_capacity()
    }

    /// An empty log of the default capacity.
    pub fn new() -> (log: AuditLog)
        ensures
            log.well_formed(),
            log.spec_entries() == Seq::<Entry>::empty(),
            log.spec_capacity() == AuditLog::DEFAULT_CAPACITY,
            log.spec_discarded() == 0,
    {
        AuditLog::with_capacity(AuditLog::DEFAULT_CAPACITY)
    }

    /// An empty log holding up to `capacity` entries; zero is treated as one,
    /// since a log that keeps nothing only appears to be on.
    pub fn with_capacity(capacity: usize) -> (log: AuditLog)
        ensures
            log.well_formed(),
            log.spec_entries() == Seq::<Entry>::empty(),
            log.spec_capacity() == (if capacity == 0 { 1 } else { capacity }),
            log.spec_discarded() == 0,
    {
        let capacity = if capacity == 0 { 1 } else { capacity };
        AuditLog { entries: VecDeque::with_capacity(capacity), capacity, discarded: 0 }
    }

    /// Appends an entry, dropping the oldest first when the log is full.
    pub fn record(&mut self, entry: Entry)
        ensures
            final(self).spec_capacity() == old(self).spec_capacity(),
            old(self).spec_entries().len() >= old(self).spec_capacity() ==> final(self).spec_entries()
                == (if old(self).spec_entries().len() > 0 {
                old(self).spec_entries().drop_first()
            } else {
                old(self).spec_entries()
            }).push(entry) && final(self).spec_discarded() == (if old(
                self,
            ).spec_discarded() == u64::MAX {
                u64::MAX as int
            } else {
                old(self).spec_discarded() + 1
            }),
            old(self).spec_entries().len() < old(self).spec_capacity() ==> final(self).spec_entries()
                == old(self).spec_entries().push(entry) && final(self).spec_discarded() == old(
                self,
            ).spec_discarded(),
            old(self).well_formed() ==> final(self).well_formed(),
    {
        if self.entries.len() >= self.capacity {
            if self.entries.len() > 0 {
                let _ = self.entries.pop_front();
            }
            self.discarded = if self.discarded == u64::MAX { u64::MAX } else { self.discarded + 1 };
        }
        self.entries.push_back(entry);
    }

    /// Decides and records in one step, so that deciding and recording cannot
    /// come apart: returns the authorisation decision and appends its entry.
    pub fn authorise(&mut self, ordinal: u64, subject: Subject, capability: Capability) -> (result: Result<
        (),
        Refusal,
    >)
        ensures
            result == spec_authorise(subject, capability),
            final(self).spec_entries().last() == (Entry {
                ordinal,
                actor: actor_of(subject),
                capability,
                decision: decision_of(result),
            }),
            final(self).spec_capacity() == old(self).spec_capacity(),
            old(self).spec_entries().len() >= old(self).spec_capacity() ==> final(self).spec_entries()
                == (if old(self).spec_entries().len() > 0 {
                old(self).spec_entries().drop_first()
            } else {
                old(self).spec_entries()
            }).push(final(self).spec_entries().last()),
            old(self).spec_entries().len() < old(self).spec_capacity() ==> final(self).spec_entries()
                == old(self).spec_entries().push(final(self).spec_entries().last()),
            old(self).well_formed() ==> final(self).well_formed(),
    {
        let result = authorise(subject, capability);
        self.record(Entry::new(ordinal, subject, capability, Decision::of(result)));
        result
    }

    /// The entries held, oldest first.
    pub fn entries(&self) -> (entries: Vec<Entry>)
        ensures
            entries@ == self.spec_entries(),
    {
        let mut entries: Vec<Entry> = Vec::new();
        let mut index: usize = 0;
        while index < self.entries.len()
            invariant
                index <= self.entries@.len(),
                entries@ == self.entries@.take(index as int),
            decreases self.entries@.len() - index,
        {
            entries.push(self.entries[index]);
            index += 1;
            assert(entries@ =~= self.entries@.take(index as int));
        }
        assert(self.entries@.take(self.entries@.len() as int) =~= self.entries@);
        entries
    }

    /// The refusals held, oldest first.
    pub fn refusals(&self) -> (refusals: Vec<Entry>)
        ensures
            refusals@ == self.spec_entries().filter(|entry: Entry| !(entry.decision is Allowed)),
    {
        let ghost refused = |entry: Entry| !(entry.decision is Allowed);
        let mut refusals: Vec<Entry> = Vec::new();
        let mut index: usize = 0;
        while index < self.entries.len()
            invariant
                index <= self.entries@.len(),
                refused == (|entry: Entry| !(entry.decision is Allowed)),
                refusals@ == self.entries@.take(index as int).filter(refused),
            decreases self.entries@.len() - index,
        {
            let entry = self.entries[index];
            proof {
                reveal(Seq::filter);
                assert(self.entries@.take(index as int + 1).drop_last() =~= self.entries@.take(index as int));
                assert(self.entries@.take(index as int + 1).last() == entry);
            }
            if !entry.decision.is_allowed() {
                refusals.push(entry);
            }
            index += 1;
        }
        assert(self.entries@.take(self.entries@.len() as int) =~= self.entries@);
        refusals
    }

    /// How many entries are held.
    pub fn len(&self) -> (length: usize)
        ensures
            length == self.spec_entries().len(),
    {
        self.entries.len()
    }

    /// Whether no entry is held.
    pub fn is_empty(&self) -> (empty: bool)
        ensures
            empty == (self.spec_entries().len() == 0),
    {
        self.entries.len() == 0
    }

    /// How many entries were dropped to make room.
    pub fn discarded(&self) -> (discarded: u64)
        ensures
            discarded == self.spec_discarded(),
    {
        self.discarded
    }

    /// Whether the log still holds everything it was given.
    pub fn is_complete(&self) -> (complete: bool)
        ensures
            complete == (self.spec_discarded() == 0),
    {
        self.discarded == 0
    }
}

impl Default for AuditLog {
    /// An empty log of the default capacity.
    fn default() -> (log: AuditLog)
        ensures
            log.well_formed(),
            log.spec_entries() == Seq::<Entry>::empty(),
            log.spec_capacity() == AuditLog::DEFAULT_CAPACITY,
            log.spec_discarded() == 0,
    {
        AuditLog::new()
    }
}

} // verus!
