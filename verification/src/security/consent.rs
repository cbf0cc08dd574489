//! What the user has agreed to: purposes that are separately granted and
//! separately withdrawable, none of them implied by another.

use vstd::prelude::*;

use crate::text::push_str;

verus! {

/// Where processing for a purpose happens.
#[derive(Debug, Clone, Copy, PartialEq, Eq, Hash, Structural)]
#[non_exhaustive]
pub enum ProcessingLocation {
    /// On the user's machine.
    OnDevice,
    /// On a server.
    Cloud,
}

impl ProcessingLocation {
    /// Whether anything leaves the machine.
    pub fn leaves_the_device(self) -> (leaves: bool)
        ensures
            leaves == (self is Cloud),
    {
        matches!(self, ProcessingLocation::Cloud)
    }

    /// A stable identifier, for storage and localisation.
    pub fn key(self) -> (key: &'static str)
        ensures
            key@ == (match self {
                ProcessingLocation::OnDevice => "processing.on_device"@,
                ProcessingLocation::Cloud => "processing.cloud"@,
            }),
    {
        match self {
            ProcessingLocation::OnDevice => "processing.on_device",
            ProcessingLocation::Cloud => "processing.cloud",
        }
    }
}

/// Something the user may agree to, each separately.
#[derive(Debug, Clone, Copy, PartialEq, Eq, PartialOrd, Ord, Hash, Structural)]
#[non_exhaustive]
pub enum Purpose {
    /// Analysing a track on a server.
    CloudAnalysis,
    /// Language features on a server.
    CloudLanguage,
    /// Stem separation on a server.
    CloudStemSeparation,
    /// Synchronising projects between devices.
    ProjectSync,
    /// Working with other people.
    Collaboration,
    /// Sending crash reports.
    CrashDiagnostics,
    /// Counting how features are used.
    UsageAnalytics,
    /// Training models on the user's work.
    ModelTraining,
    /// Suggestions learnt from behaviour, on the device.
    PersonalisedSuggestions,
}

/// The order purposes are declared in, which is the order grants are kept in.
pub open spec fn purpose_rank(purpose: Purpose) -> int {
    match purpose {
        Purpose::CloudAnalysis => 0,
        Purpose::CloudLanguage => 1,
        Purpose::CloudStemSeparation => 2,
        Purpose::ProjectSync => 3,
        Purpose::Collaboration => 4,
        Purpose::CrashDiagnostics => 5,
        Purpose::UsageAnalytics => 6,
        Purpose::ModelTraining => 7,
        Purpose::PersonalisedSuggestions => 8,
    }
}

/// Every purpose, in declaration order.
pub open spec fn all_purposes() -> Seq<Purpose> {
    seq![
        Purpose::CloudAnalysis,
        Purpose::CloudLanguage,
        Purpose::CloudStemSeparation,
        Purpose::ProjectSync,
        Purpose::Collaboration,
        Purpose::CrashDiagnostics,
        Purpose::UsageAnalytics,
        Purpose::ModelTraining,
        Purpose::PersonalisedSuggestions,
    ]
}

/// Where each purpose is processed: everything on a server but personalised
/// suggestions.
pub open spec fn purpose_location(purpose: Purpose) -> ProcessingLocation {
    match purpose {
        Purpose::PersonalisedSuggestions => ProcessingLocation::OnDevice,
        _ => ProcessingLocation::Cloud,
    }
}

/// Whether a purpose sends the user's own material rather than facts about it.
pub open spec fn purpose_sends_content(purpose: Purpose) -> bool {
    match purpose {
        Purpose::CloudAnalysis | Purpose::CloudLanguage | Purpose::CloudStemSeparation | Purpose::ProjectSync
        | Purpose::Collaboration | Purpose::ModelTraining => true,
        _ => false,
    }
}

/// The stable key of each purpose.
pub open spec fn purpose_key(purpose: Purpose) -> Seq<char> {
    match purpose {
        Purpose::CloudAnalysis => "purpose.cloud_analysis"@,
        Purpose::CloudLanguage => "purpose.cloud_language"@,
        Purpose::CloudStemSeparation => "purpose.cloud_stem_separation"@,
        Purpose::ProjectSync => "purpose.project_sync"@,
        Purpose::Collaboration => "purpose.collaboration"@,
        Purpose::CrashDiagnostics => "purpose.crash_diagnostics"@,
        Purpose::UsageAnalytics => "purpose.usage_analytics"@,
        Purpose::ModelTraining => "purpose.model_training"@,
        Purpose::PersonalisedSuggestions => "purpose.personalised_suggestions"@,
    }
}

impl Purpose {
    /// Every purpose, in declaration order.
    pub fn all() -> (all: Vec<Purpose>)
        ensures
            all@ == all_purposes(),
    {
        let all = vec![
            Purpose::CloudAnalysis,
            Purpose::CloudLanguage,
            Purpose::CloudStemSeparation,
            Purpose::ProjectSync,
            Purpose::Collaboration,
            Purpose::CrashDiagnostics,
            Purpose::UsageAnalytics,
            Purpose::ModelTraining,
            Purpose::PersonalisedSuggestions,
        ];
        assert(all@ =~= all_purposes());
        all
    }

    /// Where the processing happens.
    pub fn location(self) -> (location: ProcessingLocation)
        ensures
            location == purpose_location(self),
    {
        match self {
            Purpose::PersonalisedSuggestions => ProcessingLocation::OnDevice,
            _ => ProcessingLocation::Cloud,
        }
    }

    /// Whether the purpose sends the user's own material.
    pub fn sends_content(self) -> (sends: bool)
        ensures
            sends == purpose_sends_content(self),
    {
        matches!(
            self,
            Purpose::CloudAnalysis | Purpose::CloudLanguage | Purpose::CloudStemSeparation | Purpose::ProjectSync
                | Purpose::Collaboration | Purpose::ModelTraining
        )
    }

    /// A stable identifier, for storage and localisation.
    pub fn key(self) -> (key: &'static str)
        ensures
            key@ == purpose_key(self),
    {
        match self {
            Purpose::CloudAnalysis => "purpose.cloud_analysis",
            Purpose::CloudLanguage => "purpose.cloud_language",
            Purpose::CloudStemSeparation => "purpose.cloud_stem_separation",
            Purpose::ProjectSync => "purpose.project_sync",
            Purpose::Collaboration => "purpose.collaboration",
            Purpose::CrashDiagnostics => "purpose.crash_diagnostics",
            Purpose::UsageAnalytics => "purpose.usage_analytics",
            Purpose::ModelTraining => "purpose.model_training",
            Purpose::PersonalisedSuggestions => "purpose.personalised_suggestions",
        }
    }

    fn rank(self) -> (rank: u8)
        ensures
            rank == purpose_rank(self),
    {
        match self {
            Purpose::CloudAnalysis => 0,
            Purpose::CloudLanguage => 1,
            Purpose::CloudStemSeparation => 2,
            Purpose::ProjectSync => 3,
            Purpose::Collaboration => 4,
            Purpose::CrashDiagnostics => 5,
            Purpose::UsageAnalytics => 6,
            Purpose::ModelTraining => 7,
            Purpose::PersonalisedSuggestions => 8,
        }
    }
}

/// Nothing leaves the device without sending content, the other way round:
/// every purpose that sends the user's material is processed on a server.
pub proof fn lemma_content_leaves_the_device(purpose: Purpose)
    ensures
        purpose_sends_content(purpose) ==> purpose_location(purpose) is Cloud,
{
}

/// One agreement: to which purpose, and when (an ordinal supplied by the
/// caller, since the core reads no clock).
#[derive(Debug, Clone, Copy, PartialEq, Eq, Hash, Structural)]
pub struct Grant {
    /// What was agreed to.
    pub purpose: Purpose,
    /// When it was first agreed to.
    pub ordinal: u64,
}

impl Grant {
    /// What was agreed to.
    pub fn purpose(self) -> (purpose: Purpose)
        ensures
            purpose == self.purpose,
    {
        self.purpose
    }

    /// When it was first agreed to.
    pub fn ordinal(self) -> (ordinal: u64)
        ensures
            ordinal == self.ordinal,
    {
        self.ordinal
    }
}

/// The refusal when a purpose has not been agreed to.
#[derive(Debug, Clone, Copy, PartialEq, Eq, Hash, Structural)]
pub struct ConsentRequired {
    /// The purpose that needs agreement.
    pub purpose: Purpose,
}

impl ConsentRequired {
    /// The refusal as it is written down: `<purpose> has not been agreed to`.
    pub fn to_text(self) -> (text: String)
        ensures
            text@ == purpose_key(self.purpose) + " has not been agreed to"@,
    {
        let mut text = String::new();
        push_str(&mut text, self.purpose.key());
        push_str(&mut text, " has not been agreed to");
        text
    }
}

/// Grants kept in declaration order of their purposes, each purpose at most
/// once.
pub open spec fn grants_in_order(grants: Seq<Grant>) -> bool {
    forall|i: int, j: int|
        0 <= i < j < grants.len() ==> purpose_rank(grants[i].purpose) < purpose_rank(grants[j].purpose)
}

/// Whether some grant is for a purpose.
pub open spec fn grants_include(grants: Seq<Grant>, purpose: Purpose) -> bool {
    exists|i: int| 0 <= i < grants.len() && (#[trigger] grants[i]).purpose == purpose
}

/// How many grants come before a purpose in declaration order.
pub open spec fn grants_below(grants: Seq<Grant>, purpose: Purpose) -> int
    decreases grants.len(),
{
    if grants.len() == 0 {
        0
    } else {
        grants_below(grants.drop_last(), purpose) + (if purpose_rank(grants.last().purpose) < purpose_rank(purpose) {
            1int
        } else {
            0int
        })
    }
}

/// In ordered grants, the grants below a purpose are exactly a prefix.
proof fn lemma_grants_below_prefix(grants: Seq<Grant>, purpose: Purpose, index: int)
    requires
        grants_in_order(grants),
        0 <= index <= grants.len(),
        forall|i: int| 0 <= i < index ==> purpose_rank(#[trigger] grants[i].purpose) < purpose_rank(purpose),
        forall|i: int| index <= i < grants.len() ==> purpose_rank(#[trigger] grants[i].purpose) >= purpose_rank(purpose),
    ensures
        grants_below(grants, purpose) == index,
    decreases grants.len(),
{
    if grants.len() > 0 {
        let shorter = grants.drop_last();
        if index == grants.len() {
            lemma_grants_below_prefix(shorter, purpose, index - 1);
        } else {
            lemma_grants_below_prefix(shorter, purpose, index);
        }
    }
}

/// The purposes the user has agreed to, each with when it was first agreed.
///
/// Nothing is agreed to by default, no purpose implies another, and each can
/// be withdrawn on its own.
#[derive(Debug, PartialEq, Eq)]
pub struct Consents {
    granted: Vec<Grant>,
}

impl Consents {
    #[verifier::type_invariant]
    spec fn ordered(self) -> bool {
        grants_in_order(self.granted@)
    }

    /// The grants, in declaration order of their purposes.
    pub closed spec fn spec_grants(&self) -> Seq<Grant> {
        self.granted@
    }

    /// Whether a purpose has been agreed to.
    pub open spec fn spec_allows(&self, purpose: Purpose) -> bool {
        grants_include(self.spec_grants(), purpose)
    }

    /// Agreement to nothing.
    pub fn none() -> (consents: Consents)
        ensures
            consents.spec_grants() == Seq::<Grant>::empty(),
            forall|purpose: Purpose| !consents.spec_allows(purpose),
    {
        Consents { granted: Vec::new() }
    }

    /// Records agreement to a purpose, at an ordinal the caller supplies.
    ///
    /// Agreeing again keeps the first answer and returns `false`; otherwise the
    /// grant takes its place in declaration order and no other purpose is
    /// affected.
    pub fn grant(&mut self, purpose: Purpose, ordinal: u64) -> (granted: bool)
        ensures
            granted == !old(self).spec_allows(purpose),
            !granted ==> *final(self) == *old(self),
            granted ==> final(self).spec_grants() == old(self).spec_grants().insert(
                grants_below(old(self).spec_grants(), purpose),
                Grant { purpose, ordinal },
            ),
            forall|other: Purpose| #[trigger] final(self).spec_allows(other) == (old(self).spec_allows(other)
                || other == purpose),
            grants_in_order(final(self).spec_grants()),
    {
        proof {
            use_type_invariant(&*self);
        }
        if self.allows(purpose) {
            return false;
        }
        let rank = purpose.rank();
        let mut index: usize = 0;
        while index < self.granted.len() && self.granted[index].purpose.rank() < rank
            invariant
                grants_in_order(self.granted@),
                rank == purpose_rank(purpose),
                index <= self.granted@.len(),
                forall|i: int| 0 <= i < index ==> purpose_rank(#[trigger] self.granted@[i].purpose) < rank,
            decreases self.granted@.len() - index,
        {
            index += 1;
        }
        let ghost before = self.granted@;
        proof {
            assert forall|i: int| index <= i < before.len() implies purpose_rank(#[trigger] before[i].purpose) > rank by {
                if i > index {
                    assert(purpose_rank(before[index as int].purpose) < purpose_rank(before[i].purpose));
                }
                assert(before[index as int].purpose != purpose);
                assert(before[i].purpose != purpose);
                lemma_rank_distinct(before[i].purpose, purpose);
                lemma_rank_distinct(before[index as int].purpose, purpose);
            }
            lemma_grants_below_prefix(before, purpose, index as int);
        }
        let added = Grant { purpose, ordinal };
        let mut granted = Vec::new();
        std::mem::swap(&mut granted, &mut self.granted);
        granted.insert(index, added);
        proof {
            let after = granted@;
            assert(after == before.insert(index as int, added));
            assert forall|i: int, j: int| 0 <= i < j < after.len() implies purpose_rank(after[i].purpose)
                < purpose_rank(after[j].purpose) by {
                if j < index {
                } else if j == index {
                } else if i == index {
                    assert(after[j] == before[j - 1]);
                } else if i < index {
                    assert(after[j] == before[j - 1]);
                } else {
                    assert(after[i] == before[i - 1]);
                    assert(after[j] == before[j - 1]);
                }
            }
            assert forall|other: Purpose| grants_include(after, other) == (grants_include(before, other) || other
                == purpose) by {
                if grants_include(before, other) {
                    let i = choose|i: int| 0 <= i < before.len() && (#[trigger] before[i]).purpose == other;
                    if i < index {
                        assert(after[i] == before[i]);
                    } else {
                        assert(after[i + 1] == before[i]);
                    }
                }
                if grants_include(after, other) {
                    let i = choose|i: int| 0 <= i < after.len() && (#[trigger] after[i]).purpose == other;
                    if i < index {
                        assert(after[i] == before[i]);
                    } else if i > index {
                        assert(after[i] == before[i - 1]);
                    }
                }
                assert(after[index as int] == added);
            }
        }
        self.granted = granted;
        true
    }

    /// Whether a purpose has been agreed to.
    pub fn allows(&self, purpose: Purpose) -> (allowed: bool)
        ensures
            allowed == self.spec_allows(purpose),
    {
        let mut index: usize = 0;
        while index < self.granted.len()
            invariant
                index <= self.granted@.len(),
                forall|i: int| 0 <= i < index ==> (#[trigger] self.granted@[i]).purpose != purpose,
            decreases self.granted@.len() - index,
        {
            if self.granted[index].purpose == purpose {
                return true;
            }
            index += 1;
        }
        false
    }

    /// Withdraws agreement to a purpose, immediately. Returns whether there
    /// was anything to withdraw; every other purpose is left as it was.
    pub fn withdraw(&mut self, purpose: Purpose) -> (withdrawn: bool)
        ensures
            withdrawn == old(self).spec_allows(purpose),
            final(self).spec_grants() == old(self).spec_grants().filter(|grant: Grant| grant.purpose != purpose),
            forall|other: Purpose| #[trigger] final(self).spec_allows(other) == (old(self).spec_allows(other)
                && other != purpose),
            grants_in_order(final(self).spec_grants()),
    {
        proof {
            use_type_invariant(&*self);
        }
        let ghost before = self.granted@;
        let ghost keep = |grant: Grant| grant.purpose != purpose;
        let mut kept: Vec<Grant> = Vec::new();
        let mut index: usize = 0;
        let mut found = false;
        while index < self.granted.len()
            invariant
                before == self.granted@,
                grants_in_order(before),
                index <= before.len(),
                keep == (|grant: Grant| grant.purpose != purpose),
                kept@ == before.take(index as int).filter(keep),
                grants_in_order(kept@),
                forall|k: int| 0 <= k < kept@.len() ==> exists|i: int| 0 <= i < index && before[i] == #[trigger] kept@[k],
                found == exists|i: int| 0 <= i < index && (#[trigger] before[i]).purpose == purpose,
                forall|other: Purpose| #[trigger] grants_include(kept@, other) == (other != purpose && exists|i: int|
                    0 <= i < index && (#[trigger] before[i]).purpose == other),
            decreases before.len() - index,
        {
            let grant = self.granted[index];
            proof {
                reveal(Seq::filter);
                assert(before.take(index as int + 1).drop_last() =~= before.take(index as int));
                assert(before.take(index as int + 1).last() == grant);
            }
            if grant.purpose != purpose {
                proof {
                    assert forall|k: int| 0 <= k < kept@.len() implies purpose_rank(kept@[k].purpose) < purpose_rank(
                        grant.purpose) by {
                        let i = choose|i: int| 0 <= i < index && before[i] == kept@[k];
                    }
                }
                let ghost prior = kept@;
                kept.push(grant);
                proof {
                    assert forall|other: Purpose| #[trigger] grants_include(kept@, other) == (other != purpose
                        && exists|i: int| 0 <= i < index + 1 && (#[trigger] before[i]).purpose == other) by {
                        lemma_include_push(prior, grant, other);
                        if exists|i: int| 0 <= i < index + 1 && (#[trigger] before[i]).purpose == other {
                            let i = choose|i: int| 0 <= i < index + 1 && (#[trigger] before[i]).purpose == other;
                            if i < index {
                                assert(exists|i: int| 0 <= i < index && (#[trigger] before[i]).purpose == other);
                            }
                        }
                    }
                    assert forall|k: int| 0 <= k < kept@.len() implies exists|i: int| 0 <= i < index + 1 && before[i]
                        == #[trigger] kept@[k] by {
                        if k < prior.len() {
                            assert(kept@[k] == prior[k]);
                        } else {
                            assert(before[index as int] == kept@[k]);
                        }
                    }
                }
            } else {
                found = true;
            }
            index += 1;
        }
        proof {
            assert(before.take(before.len() as int) =~= before);
        }
        self.granted = kept;
        found
    }

    /// Withdraws every agreement.
    pub fn withdraw_all(&mut self)
        ensures
            final(self).spec_grants() == Seq::<Grant>::empty(),
            forall|purpose: Purpose| !final(self).spec_allows(purpose),
    {
        self.granted = Vec::new();
    }

    /// Succeeds exactly when a purpose has been agreed to; otherwise names it.
    pub fn check(&self, purpose: Purpose) -> (result: Result<(), ConsentRequired>)
        ensures
            self.spec_allows(purpose) ==> result == Ok::<(), ConsentRequired>(()),
            !self.spec_allows(purpose) ==> result == Err::<(), ConsentRequired>(ConsentRequired { purpose }),
    {
        if self.allows(purpose) {
            Ok(())
        } else {
            Err(ConsentRequired { purpose })
        }
    }

    /// When a purpose was first agreed to, if it has been.
    pub fn granted_at(&self, purpose: Purpose) -> (ordinal: Option<u64>)
        ensures
            ordinal is None <==> !self.spec_allows(purpose),
            ordinal matches Some(o) ==> exists|i: int| 0 <= i < self.spec_grants().len()
                && (#[trigger] self.spec_grants()[i]).purpose == purpose && self.spec_grants()[i].ordinal == o,
    {
        let mut index: usize = 0;
        while index < self.granted.len()
            invariant
                index <= self.granted@.len(),
                forall|i: int| 0 <= i < index ==> (#[trigger] self.granted@[i]).purpose != purpose,
            decreases self.granted@.len() - index,
        {
            if self.granted[index].purpose == purpose {
                return Some(self.granted[index].ordinal);
            }
            index += 1;
        }
        None
    }

    /// Every grant, in declaration order of their purposes, each purpose at
    /// most once.
    pub fn grants(&self) -> (grants: &[Grant])
        ensures
            grants@ == self.spec_grants(),
            grants_in_order(grants@),
    {
        proof {
            use_type_invariant(self);
        }
        self.granted.as_slice()
    }

    /// Whether anything agreed to is processed off the device: what a network
    /// indicator shows.
    pub fn anything_leaves_the_device(&self) -> (leaves: bool)
        ensures
            leaves == exists|i: int| 0 <= i < self.spec_grants().len()
                && purpose_location((#[trigger] self.spec_grants()[i]).purpose) is Cloud,
    {
        let mut index: usize = 0;
        while index < self.granted.len()
            invariant
                index <= self.granted@.len(),
                forall|i: int| 0 <= i < index ==> purpose_location((#[trigger] self.granted@[i]).purpose) is OnDevice,
            decreases self.granted@.len() - index,
        {
            if self.granted[index].purpose.location().leaves_the_device() {
                return true;
            }
            index += 1;
        }
        false
    }
}

/// Appending a grant adds exactly its purpose.
pub proof fn lemma_include_push(grants: Seq<Grant>, grant: Grant, purpose: Purpose)
    ensures
        grants_include(grants.push(grant), purpose) == (grants_include(grants, purpose) || grant.purpose == purpose),
{
    let pushed = grants.push(grant);
    if grants_include(grants, purpose) {
        let i = choose|i: int| 0 <= i < grants.len() && (#[trigger] grants[i]).purpose == purpose;
        assert(pushed[i] == grants[i]);
    }
    if grants_include(pushed, purpose) {
        let i = choose|i: int| 0 <= i < pushed.len() && (#[trigger] pushed[i]).purpose == purpose;
        if i < grants.len() {
            assert(pushed[i] == grants[i]);
        }
    }
    assert(pushed[grants.len() as int] == grant);
}

impl Default for Consents {
    /// Agreement to nothing.
    fn default() -> (consents: Consents)
        ensures
            consents.spec_grants() == Seq::<Grant>::empty(),
    {
        Consents::none()
    }
}

impl Clone for Consents {
    /// The same grants, in the same order.
    fn clone(&self) -> (copy: Consents)
        ensures
            copy.spec_grants() == self.spec_grants(),
    {
        proof {
            use_type_invariant(self);
        }
        let mut granted: Vec<Grant> = Vec::new();
        let mut index: usize = 0;
        while index < self.granted.len()
            invariant
                index <= self.granted@.len(),
                granted@ == self.granted@.take(index as int),
            decreases self.granted@.len() - index,
        {
            granted.push(self.granted[index]);
            index += 1;
            proof {
                assert(granted@ =~= self.granted@.take(index as int));
            }
        }
        proof {
            assert(granted@ =~= self.granted@);
        }
        Consents { granted }
    }
}

/// Distinct purposes have distinct ranks.
pub proof fn lemma_rank_distinct(a: Purpose, b: Purpose)
    ensures
        purpose_rank(a) == purpose_rank(b) <==> a == b,
{
}

} // verus!
