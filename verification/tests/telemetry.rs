use prv_core::security::consent::{Consents, Purpose};
use prv_core::security::redaction::{Field, Record, Sensitivity};
use prv_core::telemetry::counts::Counts;
use prv_core::telemetry::diagnostic::{Diagnostic, Withheld};
use prv_core::telemetry::event::Event;

// ---- events

#[test]
fn faults_and_usage_are_separable() {
    assert!(Event::PluginCrashed.is_a_fault());
    assert!(Event::AnalysisFailed.is_a_fault());
    assert!(!Event::PlanKept.is_a_fault());
    assert!(!Event::ExportCompleted.is_a_fault());

    let faults = Event::all().iter().filter(|e| e.is_a_fault()).count();
    assert!(faults > 0 && faults < Event::all().len(), "the split is empty");
}

#[test]
fn every_event_is_a_kind_and_nothing_else() {
    for event in Event::all() {
        let copied: Event = event;
        assert_eq!(copied, event);
        assert!(event.key().starts_with("event."));
    }
}

#[test]
fn event_keys_are_distinct() {
    let keys: Vec<&str> = Event::all().iter().map(|e| e.key()).collect();
    for (index, key) in keys.iter().enumerate() {
        for (other, value) in keys.iter().enumerate() {
            assert!(index == other || key != value, "two events share {key}");
        }
    }
}

#[test]
fn events_are_indexed_in_declaration_order() {
    for (index, event) in Event::all().into_iter().enumerate() {
        assert_eq!(event.index(), index);
    }
}

// ---- counts

fn agreeing_to(purposes: &[Purpose]) -> Consents {
    let mut consents = Consents::none();
    let mut ordinal = 0;
    for purpose in purposes {
        ordinal += 1;
        consents.grant(*purpose, ordinal);
    }
    consents
}

#[test]
fn nothing_is_recorded_without_agreement() {
    let mut counts = Counts::new();
    let nothing = Consents::none();

    for event in Event::all() {
        assert!(!counts.record(event, &nothing), "{} was recorded", event.key());
    }
    assert!(counts.is_empty());
    assert!(counts.report().fields().is_empty());
}

#[test]
fn agreeing_to_crash_reports_is_not_agreeing_to_being_counted() {
    let mut counts = Counts::new();
    let faults_only = agreeing_to(&[Purpose::CrashDiagnostics]);

    assert!(counts.record(Event::PluginCrashed, &faults_only));
    assert!(!counts.record(Event::PlanKept, &faults_only));

    assert_eq!(counts.total(Event::PluginCrashed), 1);
    assert_eq!(counts.total(Event::PlanKept), 0);
}

#[test]
fn withdrawing_an_agreement_discards_what_was_already_held() {
    let mut counts = Counts::new();
    let everything = agreeing_to(&[Purpose::CrashDiagnostics, Purpose::UsageAnalytics]);
    counts.record(Event::PluginCrashed, &everything);
    counts.record(Event::PlanKept, &everything);
    assert_eq!(counts.totals().len(), 2);

    let mut narrowed = everything.clone();
    narrowed.withdraw(Purpose::UsageAnalytics);
    counts.apply(&narrowed);

    assert_eq!(counts.total(Event::PluginCrashed), 1);
    assert_eq!(counts.total(Event::PlanKept), 0, "usage counts survived");

    counts.forget(Purpose::CrashDiagnostics);
    assert!(counts.is_empty());
}

#[test]
fn a_cleared_record_is_indistinguishable_from_one_that_never_counted() {
    let mut counts = Counts::new();
    let everything = agreeing_to(&[Purpose::CrashDiagnostics, Purpose::UsageAnalytics]);
    for event in Event::all() {
        counts.record(event, &everything);
    }
    counts.forget_all();
    assert_eq!(counts, Counts::new());
}

#[test]
fn what_is_kept_is_a_total_and_never_an_order() {
    let everything = agreeing_to(&[Purpose::UsageAnalytics]);

    let mut first = Counts::new();
    for event in [Event::PlanKept, Event::PlanRequested, Event::PlanKept] {
        first.record(event, &everything);
    }

    let mut reordered = Counts::new();
    for event in [Event::PlanKept, Event::PlanKept, Event::PlanRequested] {
        reordered.record(event, &everything);
    }

    assert_eq!(first, reordered);
    assert_eq!(first.total(Event::PlanKept), 2);
}

#[test]
fn what_a_user_is_shown_is_what_would_be_sent() {
    let everything = agreeing_to(&[Purpose::UsageAnalytics]);
    let mut counts = Counts::new();
    counts.record(Event::ExportCompleted, &everything);
    counts.record(Event::ExportCompleted, &everything);

    let report = counts.report();
    assert_eq!(report.sensitivity(), Sensitivity::Public);
    let rendered = report.to_text();
    assert!(rendered.contains("event.export_completed=2"), "{rendered}");
}

#[test]
fn a_report_can_hold_nothing_a_person_could_be_recognised_by() {
    let everything = agreeing_to(&[Purpose::CrashDiagnostics, Purpose::UsageAnalytics]);
    let mut counts = Counts::new();
    for event in Event::all() {
        counts.record(event, &everything);
    }
    for field in counts.report().fields() {
        assert!(field.sensitivity().is_public(), "{} is not public", field.name());
    }
}

#[test]
fn counting_is_bounded_by_the_number_of_kinds_not_by_use() {
    let everything = agreeing_to(&[Purpose::CrashDiagnostics, Purpose::UsageAnalytics]);
    let mut counts = Counts::new();
    for _ in 0..10_000 {
        counts.record(Event::TrackAnalysed, &everything);
    }
    assert_eq!(counts.totals().len(), 1);
    assert_eq!(counts.total(Event::TrackAnalysed), 10_000);
}

#[test]
fn every_event_belongs_to_exactly_one_agreement() {
    for event in Event::all() {
        let purpose = Counts::purpose_for(event);
        assert_eq!(
            purpose == Purpose::CrashDiagnostics,
            event.is_a_fault(),
            "{} is filed under the wrong agreement",
            event.key()
        );
    }
}

#[test]
fn totals_are_listed_in_event_order() {
    let everything = agreeing_to(&[Purpose::CrashDiagnostics, Purpose::UsageAnalytics]);
    let mut counts = Counts::new();
    counts.record(Event::PlanKept, &everything);
    counts.record(Event::PluginCrashed, &everything);
    counts.record(Event::PlanKept, &everything);
    let totals = counts.totals();
    assert_eq!(totals.len(), 2);
    assert!(totals[0].0.index() < totals[1].0.index());
    assert!(totals.contains(&(Event::PlanKept, 2)));
    assert!(totals.contains(&(Event::PluginCrashed, 1)));
}

// ---- diagnostics

fn agreeing_only_to(purpose: Purpose) -> Consents {
    let mut consents = Consents::none();
    consents.grant(purpose, 1);
    consents
}

fn a_crash_report() -> Diagnostic {
    Diagnostic::about(
        Event::PluginCrashed,
        Record::new("plugin.crashed")
            .with(Field::identifier("plugin", 4))
            .with(Field::number("bypasses", 2))
            .with(Field::key("tier", "tier.wasm")),
    )
}

fn agreeing_to_everything() -> Consents {
    let mut everything = Consents::none();
    let mut ordinal = 0;
    for purpose in Purpose::all() {
        ordinal += 1;
        everything.grant(purpose, ordinal);
    }
    everything
}

#[test]
fn a_public_report_goes_when_the_user_agreed_to_reports() {
    let report = a_crash_report();
    assert_eq!(report.sensitivity(), Sensitivity::Public);
    assert!(report
        .may_be_sent(&agreeing_only_to(Purpose::CrashDiagnostics))
        .is_ok());
    assert_eq!(report.event(), Event::PluginCrashed);
    assert!(!report.record().fields().is_empty());
}

#[test]
fn nothing_goes_without_the_agreement_that_covers_it() {
    let report = a_crash_report();
    assert_eq!(
        report.may_be_sent(&Consents::none()).err(),
        Some(Withheld::NotAgreedTo {
            purpose: Purpose::CrashDiagnostics
        })
    );
    assert_eq!(
        report
            .may_be_sent(&agreeing_only_to(Purpose::UsageAnalytics))
            .err(),
        Some(Withheld::NotAgreedTo {
            purpose: Purpose::CrashDiagnostics
        })
    );
}

#[test]
fn a_report_naming_the_users_own_files_needs_its_own_answer() {
    let report = Diagnostic::about(
        Event::AnalysisFailed,
        Record::new("analysis.failed").with(Field::personal("path")),
    );
    assert_eq!(report.sensitivity(), Sensitivity::Personal);
    assert_eq!(
        report
            .may_be_sent(&agreeing_only_to(Purpose::CrashDiagnostics))
            .err(),
        Some(Withheld::PersonalWithoutAgreement)
    );
}

#[test]
fn a_report_containing_a_credential_never_goes_at_any_setting() {
    let report = Diagnostic::about(
        Event::CloudUnreachable,
        Record::new("sync.failed")
            .with(Field::key("service", "prv.sync"))
            .with(Field::secret("token")),
    );

    assert_eq!(
        report.may_be_sent(&agreeing_to_everything()).err(),
        Some(Withheld::ContainsASecret)
    );
    assert!(!Withheld::ContainsASecret.is_addressable_by_the_user());
    assert!(Withheld::PersonalWithoutAgreement.is_addressable_by_the_user());
    assert!(Withheld::NotAgreedTo {
        purpose: Purpose::CrashDiagnostics
    }
    .is_addressable_by_the_user());
}

#[test]
fn a_secret_is_refused_before_anything_else_is_considered() {
    let report = Diagnostic::about(
        Event::CloudUnreachable,
        Record::new("sync.failed")
            .with(Field::personal("account"))
            .with(Field::secret("token")),
    );
    assert_eq!(
        report.may_be_sent(&Consents::none()).err(),
        Some(Withheld::ContainsASecret)
    );
}

#[test]
fn withheld_keys_are_distinct() {
    let keys = [
        Withheld::NotAgreedTo {
            purpose: Purpose::CrashDiagnostics,
        }
        .key(),
        Withheld::PersonalWithoutAgreement.key(),
        Withheld::ContainsASecret.key(),
    ];
    for (index, key) in keys.iter().enumerate() {
        for (other, value) in keys.iter().enumerate() {
            assert!(index == other || key != value, "two reasons share {key}");
        }
    }
}

#[test]
fn a_usage_report_is_covered_by_the_usage_agreement() {
    let report = Diagnostic::about(
        Event::PlanKept,
        Record::new("plan.kept").with(Field::number("steps", 3)),
    );
    assert!(report.may_be_sent(&agreeing_only_to(Purpose::UsageAnalytics)).is_ok());
    assert_eq!(
        report.may_be_sent(&agreeing_only_to(Purpose::CrashDiagnostics)).err(),
        Some(Withheld::NotAgreedTo {
            purpose: Purpose::UsageAnalytics
        })
    );
}

// ---- the crate as a whole

#[test]
fn a_user_who_agreed_to_nothing_leaves_no_trace_anywhere() {
    let nothing = Consents::none();
    let mut counts = Counts::new();

    for event in Event::all() {
        assert!(!counts.record(event, &nothing));
    }
    assert!(counts.is_empty());

    let report = Diagnostic::about(
        Event::PluginCrashed,
        Record::new("plugin.crashed").with(Field::identifier("plugin", 1)),
    );
    assert!(report.may_be_sent(&nothing).is_err());
}

#[test]
fn agreeing_to_one_thing_is_never_agreeing_to_the_other() {
    let mut counts = Counts::new();
    let mut usage_only = Consents::none();
    usage_only.grant(Purpose::UsageAnalytics, 1);

    assert!(counts.record(Event::PlanKept, &usage_only));
    assert!(!counts.record(Event::PluginCrashed, &usage_only));

    let crash = Diagnostic::about(Event::PluginCrashed, Record::new("plugin.crashed"));
    assert!(crash.may_be_sent(&usage_only).is_err());
}

#[test]
fn everything_this_crate_would_send_is_public_by_construction() {
    let everything = agreeing_to_everything();

    let mut counts = Counts::new();
    for event in Event::all() {
        counts.record(event, &everything);
    }
    assert_eq!(counts.report().sensitivity(), Sensitivity::Public);

    let personal = Diagnostic::about(
        Event::AnalysisFailed,
        Record::new("analysis.failed").with(Field::personal("path")),
    );
    assert!(personal.may_be_sent(&everything).is_err());
}
