//! Whether a diagnostic may leave the device: never with a secret, only with
//! agreement, and never with anything personal.

use vstd::prelude::*;

use crate::security::consent::{Consents, Purpose};
use crate::security::redaction::{fields_sensitivity, Record, Sensitivity};
use crate::telemetry::counts::event_purpose;
use crate::telemetry::event::Event;

verus! {

/// Why a diagnostic was kept on the device.
#[derive(Debug, Clone, Copy, PartialEq, Eq, Hash, Structural)]
#[non_exhaustive]
pub enum Withheld {
    /// The purpose it would be sent under has not been agreed to.
    NotAgreedTo {
        /// That purpose.
        purpose: Purpose,
    },
    /// It holds something personal.
    PersonalWithoutAgreement,
    /// It holds a secret, which no agreement can release.
    ContainsASecret,
}

/// The stable key of each reason.
pub open spec fn withheld_key(withheld: Withheld) -> Seq<char> {
    match withheld {
        Withheld::NotAgreedTo { .. } => "withheld.not_agreed_to"@,
        Withheld::PersonalWithoutAgreement => "withheld.personal_without_agreement"@,
        Withheld::ContainsASecret => "withheld.contains_a_secret"@,
    }
}

impl Withheld {
    /// Whether the user could change the answer: never for a secret.
    pub fn is_addressable_by_the_user(self) -> (addressable: bool)
        ensures
            addressable == !(self is ContainsASecret),
    {
        !matches!(self, Withheld::ContainsASecret)
    }

    /// A stable identifier of the reason.
    pub fn key(self) -> (key: &'static str)
        ensures
            key@ == withheld_key(self),
    {
        match self {
            Withheld::NotAgreedTo { .. } => "withheld.not_agreed_to",
            Withheld::PersonalWithoutAgreement => "withheld.personal_without_agreement",
            Withheld::ContainsASecret => "withheld.contains_a_secret",
        }
    }
}

/// A diagnostic about an event: the record that would be sent.
#[derive(Debug, Clone, PartialEq, Eq)]
pub struct Diagnostic {
    event: Event,
    record: Record,
}

/// Whether a diagnostic may be sent: refused with a secret whatever was
/// agreed, then without agreement to its purpose, then with anything
/// personal.
pub open spec fn spec_may_be_sent(event: Event, sensitivity: Sensitivity, consents: Consents) -> Result<(), Withheld> {
    if sensitivity == Sensitivity::Secret {
        Err(Withheld::ContainsASecret)
    } else if !consents.spec_allows(event_purpose(event)) {
        Err(Withheld::NotAgreedTo { purpose: event_purpose(event) })
    } else if sensitivity == Sensitivity::Personal {
        Err(Withheld::PersonalWithoutAgreement)
    } else {
        Ok(())
    }
}

impl Diagnostic {
    /// The event.
    pub closed spec fn spec_event(&self) -> Event {
        self.event
    }

    /// The record.
    pub closed spec fn spec_record(&self) -> Record {
        self.record
    }

    /// A diagnostic about an event.
    pub fn about(event: Event, record: Record) -> (diagnostic: Diagnostic)
        ensures
            diagnostic.spec_event() == event,
            diagnostic.spec_record() == record,
    {
        Diagnostic { event, record }
    }

    /// The event.
    pub fn event(&self) -> (event: Event)
        ensures
            event == self.spec_event(),
    {
        self.event
    }

    /// The record.
    pub fn record(&self) -> (record: &Record)
        ensures
            *record == self.spec_record(),
    {
        &self.record
    }

    /// The record's sensitivity.
    pub fn sensitivity(&self) -> (sensitivity: Sensitivity)
        ensures
            sensitivity == fields_sensitivity(self.spec_record().spec_fields()),
    {
        self.record.sensitivity()
    }

    /// Whether the diagnostic may be sent under the user's agreements.
    pub fn may_be_sent(&self, consents: &Consents) -> (result: Result<(), Withheld>)
        ensures
            result == spec_may_be_sent(
                self.spec_event(),
                fields_sensitivity(self.spec_record().spec_fields()),
                *consents,
            ),
    {
        let sensitivity = self.sensitivity();
        if sensitivity == Sensitivity::Secret {
            return Err(Withheld::ContainsASecret);
        }
        let purpose = if self.event.is_a_fault() {
            Purpose::CrashDiagnostics
        } else {
            Purpose::UsageAnalytics
        };
        if !consents.allows(purpose) {
            return Err(Withheld::NotAgreedTo { purpose });
        }
        if sensitivity == Sensitivity::Personal {
            return Err(Withheld::PersonalWithoutAgreement);
        }
        Ok(())
    }
}

/// No agreement lets a secret out, and nothing leaves without agreement to
/// its purpose.
pub proof fn lemma_nothing_leaves_without_agreement(event: Event, sensitivity: Sensitivity, consents: Consents)
    ensures
        sensitivity == Sensitivity::Secret ==> spec_may_be_sent(event, sensitivity, consents)
            == Err::<(), Withheld>(Withheld::ContainsASecret),
        spec_may_be_sent(event, sensitivity, consents) is Ok ==> sensitivity == Sensitivity::Public
            && consents.spec_allows(event_purpose(event)),
{
}

} // verus!
