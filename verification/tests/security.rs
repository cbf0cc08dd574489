use prv_core::security::audit::{Actor, AuditLog, Decision, Entry};
use prv_core::security::authorisation::{
    allows, authorise, Capability, PermissionSet, PluginId, Refusal, Role, Subject,
    DELEGABLE_BITS,
};
use prv_core::security::consent::{ConsentRequired, Consents, ProcessingLocation, Purpose};
use prv_core::security::redaction::{Field, Record, Sensitivity, REDACTED, WITHHELD};
use prv_core::security::secret::{Secret, SecretRef, SecretRefError};

// ---- authorisation

fn plugin_id() -> PluginId {
    PluginId::new(3)
}

#[test]
fn roles_are_cumulative() {
    for capability in Capability::all() {
        let mut previously_granted = false;
        for role in Role::all() {
            let granted = role.grants(capability);
            assert!(
                granted || !previously_granted,
                "{} withdrew {}, which a lower role granted",
                role.key(),
                capability.key()
            );
            previously_granted = granted;
        }
    }
}

#[test]
fn a_viewer_can_look_and_do_nothing_else() {
    let viewer = Subject::user(Role::Viewer);
    for capability in Capability::all() {
        let expected = matches!(
            capability,
            Capability::ViewProject | Capability::ViewLibrary
        );
        assert_eq!(allows(viewer, capability), expected, "{}", capability.key());
    }
    assert_eq!(
        authorise(viewer, Capability::EditProject).err(),
        Some(Refusal::RoleLacksCapability {
            role: Role::Viewer,
            capability: Capability::EditProject
        })
    );
}

#[test]
fn an_editor_can_take_a_copy_of_what_they_worked_on() {
    let editor = Subject::user(Role::Editor);
    assert!(allows(editor, Capability::ExportProject));
    assert!(allows(editor, Capability::EditProject));
    assert!(!allows(editor, Capability::DeleteProject));
    assert!(!allows(editor, Capability::ManageCollaborators));
}

#[test]
fn the_owner_can_do_everything() {
    let owner = Subject::user(Role::Owner);
    for capability in Capability::all() {
        assert!(allows(owner, capability), "the owner could not {}", capability.key());
    }
}

#[test]
fn no_manifest_can_hold_authority_over_secrets_consent_or_licensing() {
    let forbidden = [
        Capability::ReadSecrets,
        Capability::ManageConsent,
        Capability::ManageLicence,
        Capability::ManageCollaborators,
        Capability::DeleteProject,
        Capability::InstallPlugin,
    ];
    for capability in forbidden {
        assert!(!capability.may_be_delegated_to_a_plugin(), "{}", capability.key());

        let mut permissions = PermissionSet::none();
        assert!(!permissions.request(capability));
        assert!(!permissions.contains(capability));

        assert_eq!(
            authorise(Subject::plugin(plugin_id(), permissions), capability).err(),
            Some(Refusal::NeverDelegated {
                id: plugin_id(),
                capability
            })
        );
    }
}

#[test]
fn a_manifest_from_outside_cannot_smuggle_forbidden_bits_in() {
    let smuggled = PermissionSet::from_bits(u32::MAX);
    for capability in Capability::all() {
        assert_eq!(
            smuggled.contains(capability),
            capability.may_be_delegated_to_a_plugin(),
            "{} survived the wrong way",
            capability.key()
        );
    }
    assert!(!smuggled.is_empty());
    assert_eq!(smuggled.bits(), DELEGABLE_BITS);
}

#[test]
fn a_plugin_gets_exactly_what_was_approved() {
    let mut permissions = PermissionSet::none();
    assert!(permissions.request(Capability::ReadAudioStream));
    let plugin = Subject::plugin(plugin_id(), permissions);

    assert!(allows(plugin, Capability::ReadAudioStream));
    assert_eq!(
        authorise(plugin, Capability::UseNetwork).err(),
        Some(Refusal::PluginNotPermitted {
            id: plugin_id(),
            capability: Capability::UseNetwork
        })
    );
    assert_eq!(permissions.held(), vec![Capability::ReadAudioStream]);
}

#[test]
fn revoking_a_permission_takes_effect() {
    let mut permissions = PermissionSet::none();
    permissions.request(Capability::UseNetwork);
    permissions.request(Capability::WriteFiles);
    permissions.revoke(Capability::UseNetwork);

    assert!(!allows(
        Subject::plugin(plugin_id(), permissions),
        Capability::UseNetwork
    ));
    assert!(allows(
        Subject::plugin(plugin_id(), permissions),
        Capability::WriteFiles
    ));
}

#[test]
fn a_plugin_starts_with_nothing() {
    let plugin = Subject::plugin(plugin_id(), PermissionSet::none());
    assert!(PermissionSet::none().is_empty());
    assert!(PermissionSet::default().is_empty());
    for capability in Capability::all() {
        assert!(!allows(plugin, capability), "a bare plugin could {}", capability.key());
    }
}

#[test]
fn a_refusal_says_whether_asking_the_user_would_help() {
    let permitted_but_unapproved = authorise(
        Subject::plugin(plugin_id(), PermissionSet::none()),
        Capability::UseNetwork,
    );
    assert!(permitted_but_unapproved
        .err()
        .is_some_and(Refusal::is_addressable_by_the_user));

    let never = authorise(
        Subject::plugin(plugin_id(), PermissionSet::none()),
        Capability::ReadSecrets,
    );
    assert!(never
        .err()
        .is_some_and(|refusal| !refusal.is_addressable_by_the_user()));
}

#[test]
fn stored_permission_bits_do_not_move() {
    assert_eq!(Capability::ViewProject.bit(), 0);
    assert_eq!(Capability::ReadAudioStream.bit(), 8);
    assert_eq!(Capability::InstallPlugin.bit(), 14);

    let mut seen = 0_u32;
    for capability in Capability::all() {
        let bit = capability.bit();
        assert!(bit < 32);
        let mask = 1_u32 << bit;
        assert!(seen & mask == 0, "two capabilities share bit {bit}");
        seen |= mask;
    }
    assert_eq!(Capability::all().len(), 15);
    assert_eq!(seen.count_ones(), 15);
}

#[test]
fn a_permission_set_round_trips_through_its_stored_form() {
    let mut permissions = PermissionSet::none();
    permissions.request(Capability::ReadAudioStream);
    permissions.request(Capability::UseNetwork);
    assert_eq!(PermissionSet::from_bits(permissions.bits()), permissions);
}

#[test]
fn capability_and_role_keys_are_distinct() {
    let keys: Vec<&str> = Capability::all().iter().map(|c| c.key()).collect();
    for (index, key) in keys.iter().enumerate() {
        for (other, value) in keys.iter().enumerate() {
            assert!(index == other || key != value, "two capabilities share {key}");
        }
    }

    let roles: Vec<&str> = Role::all().iter().map(|r| r.key()).collect();
    for (index, key) in roles.iter().enumerate() {
        for (other, value) in roles.iter().enumerate() {
            assert!(index == other || key != value, "two roles share {key}");
        }
    }
}

#[test]
fn a_refusal_names_what_was_refused() {
    let refusal = Refusal::PluginNotPermitted {
        id: plugin_id(),
        capability: Capability::UseNetwork,
    };
    assert_eq!(refusal.capability(), Capability::UseNetwork);
    assert_eq!(plugin_id().get(), 3);
}

// ---- consent

#[test]
fn nothing_is_agreed_to_by_default() {
    for consents in [Consents::none(), Consents::default()] {
        for purpose in Purpose::all() {
            assert!(!consents.allows(purpose), "{} was granted", purpose.key());
        }
        assert!(!consents.anything_leaves_the_device());
    }
}

#[test]
fn training_on_a_users_work_is_reachable_from_nothing_else() {
    let mut consents = Consents::none();
    for (ordinal, purpose) in Purpose::all().into_iter().enumerate() {
        if purpose == Purpose::ModelTraining {
            continue;
        }
        consents.grant(purpose, ordinal as u64);
    }
    assert!(!consents.allows(Purpose::ModelTraining));
    assert_eq!(
        consents.check(Purpose::ModelTraining).err(),
        Some(ConsentRequired {
            purpose: Purpose::ModelTraining
        })
    );
}

#[test]
fn every_purpose_can_be_withdrawn_and_withdrawal_is_immediate() {
    for purpose in Purpose::all() {
        let mut consents = Consents::none();
        assert!(consents.grant(purpose, 1));
        assert!(consents.allows(purpose));
        assert!(consents.withdraw(purpose), "{} could not be withdrawn", purpose.key());
        assert!(!consents.allows(purpose));
    }
}

#[test]
fn withdrawing_everything_returns_to_the_starting_state() {
    let mut consents = Consents::none();
    for (ordinal, purpose) in Purpose::all().into_iter().enumerate() {
        consents.grant(purpose, ordinal as u64);
    }
    consents.withdraw_all();
    assert_eq!(consents, Consents::none());
}

#[test]
fn agreeing_twice_keeps_the_first_answer() {
    let mut consents = Consents::none();
    assert!(consents.grant(Purpose::ProjectSync, 7));
    assert!(!consents.grant(Purpose::ProjectSync, 99));
    assert_eq!(consents.granted_at(Purpose::ProjectSync), Some(7));
    assert_eq!(consents.grants().len(), 1);
    assert_eq!(consents.granted_at(Purpose::CloudAnalysis), None);
}

#[test]
fn a_purpose_that_sends_the_users_own_material_says_so() {
    assert!(Purpose::CloudAnalysis.sends_content());
    assert!(Purpose::ModelTraining.sends_content());
    assert!(!Purpose::UsageAnalytics.sends_content());
    assert!(!Purpose::CrashDiagnostics.sends_content());

    for purpose in Purpose::all() {
        if purpose.sends_content() {
            assert!(purpose.location().leaves_the_device(), "{}", purpose.key());
        }
    }
}

#[test]
fn on_device_work_is_still_a_purpose() {
    assert_eq!(
        Purpose::PersonalisedSuggestions.location(),
        ProcessingLocation::OnDevice
    );
    assert!(!ProcessingLocation::OnDevice.leaves_the_device());
    assert!(!Consents::none().allows(Purpose::PersonalisedSuggestions));
}

#[test]
fn the_indicator_reflects_only_what_actually_leaves() {
    let mut consents = Consents::none();
    consents.grant(Purpose::PersonalisedSuggestions, 1);
    assert!(!consents.anything_leaves_the_device());

    consents.grant(Purpose::CloudAnalysis, 2);
    assert!(consents.anything_leaves_the_device());

    consents.withdraw(Purpose::CloudAnalysis);
    assert!(!consents.anything_leaves_the_device());
}

#[test]
fn purpose_keys_are_distinct() {
    let keys: Vec<&str> = Purpose::all().iter().map(|p| p.key()).collect();
    for (index, key) in keys.iter().enumerate() {
        for (other, value) in keys.iter().enumerate() {
            assert!(index == other || key != value, "two purposes share {key}");
        }
    }
    assert_ne!(
        ProcessingLocation::OnDevice.key(),
        ProcessingLocation::Cloud.key()
    );
}

#[test]
fn grants_are_kept_in_purpose_order_with_their_ordinals() {
    let mut consents = Consents::none();
    consents.grant(Purpose::ModelTraining, 5);
    consents.grant(Purpose::CloudAnalysis, 9);
    let grants = consents.grants();
    assert_eq!(grants.len(), 2);
    assert!(grants[0].purpose < grants[1].purpose);
    assert_eq!(consents.granted_at(Purpose::ModelTraining), Some(5));
    assert_eq!(consents.granted_at(Purpose::CloudAnalysis), Some(9));
    assert!(consents.check(Purpose::CloudAnalysis).is_ok());
    assert!(!consents.withdraw(Purpose::ProjectSync));
}

// ---- redaction

#[test]
fn a_record_renders_public_values_and_withholds_the_rest() {
    let record = Record::new("library.open_failed")
        .with(Field::key("reason", "reason.not_found"))
        .with(Field::identifier("track", 91))
        .with(Field::number("bytes", 0))
        .with(Field::flag("retried", true))
        .with(Field::personal("path"))
        .with(Field::secret("token"));

    let rendered = record.to_text();
    assert!(rendered.starts_with("library.open_failed"));
    assert!(rendered.contains("reason=reason.not_found"));
    assert!(rendered.contains("track=91"));
    assert!(rendered.contains("bytes=0"));
    assert!(rendered.contains("retried=true"));
    assert!(rendered.contains(&format!("path={WITHHELD}")));
    assert!(rendered.contains(&format!("token={REDACTED}")));
}

#[test]
fn a_record_renders_negative_numbers_and_false_flags() {
    let record = Record::new("e")
        .with(Field::number("offset", -42))
        .with(Field::flag("cached", false));
    assert_eq!(record.to_text(), "e offset=-42 cached=false");
}

#[test]
fn the_shape_of_a_line_is_stable_whether_or_not_a_value_was_withheld() {
    let record = Record::new("sync.failed").with(Field::personal("account"));
    assert_eq!(record.fields().len(), 1);
    assert!(record.to_text().contains("account="));
}

#[test]
fn sensitivity_is_taken_from_the_worst_field() {
    let public = Record::new("e").with(Field::number("n", 1));
    assert_eq!(public.sensitivity(), Sensitivity::Public);

    let personal = public.clone().with(Field::personal("path"));
    assert_eq!(personal.sensitivity(), Sensitivity::Personal);

    let secret = personal.clone().with(Field::secret("token"));
    assert_eq!(secret.sensitivity(), Sensitivity::Secret);

    assert_eq!(Record::new("empty").sensitivity(), Sensitivity::Public);
}

#[test]
fn no_agreement_can_put_a_secret_in_a_diagnostic() {
    assert!(!Sensitivity::Secret.may_be_included_with_consent());
    assert!(Sensitivity::Personal.may_be_included_with_consent());
    assert!(Sensitivity::Public.may_be_included_with_consent());
    assert!(Sensitivity::Public.is_public());
    assert!(!Sensitivity::Personal.is_public());
}

#[test]
fn sensitivity_orders_from_least_to_most_careful() {
    assert!(Sensitivity::Public < Sensitivity::Personal);
    assert!(Sensitivity::Personal < Sensitivity::Secret);
    assert_eq!(Sensitivity::all().len(), 3);
}

#[test]
fn a_record_stops_growing_rather_than_growing_without_limit() {
    let mut record = Record::new("noisy");
    for _ in 0..(Record::MAX_FIELDS * 2) {
        record = record.with(Field::number("n", 1));
    }
    assert_eq!(record.fields().len(), Record::MAX_FIELDS);
    assert!(record.is_full());
}

#[test]
fn every_field_reports_the_sensitivity_its_constructor_implies() {
    assert_eq!(Field::key("a", "b").sensitivity(), Sensitivity::Public);
    assert_eq!(Field::number("a", 1).sensitivity(), Sensitivity::Public);
    assert_eq!(Field::identifier("a", 1).sensitivity(), Sensitivity::Public);
    assert_eq!(Field::flag("a", true).sensitivity(), Sensitivity::Public);
    assert_eq!(Field::personal("a").sensitivity(), Sensitivity::Personal);
    assert_eq!(Field::secret("a").sensitivity(), Sensitivity::Secret);
    assert_eq!(Field::personal("path").name(), "path");
}

#[test]
fn sensitivity_keys_are_distinct() {
    let keys: Vec<&str> = Sensitivity::all().iter().map(|s| s.key()).collect();
    for (index, key) in keys.iter().enumerate() {
        for (other, value) in keys.iter().enumerate() {
            assert!(index == other || key != value, "two levels share {key}");
        }
    }
}

// ---- secrets

#[test]
fn a_secret_reveals_nothing_when_printed() {
    let secret = Secret::from_text("a-real-looking-token");
    assert_eq!(secret.to_text(), REDACTED);
    assert!(!secret.to_text().contains("real-looking"));
}

#[test]
fn comparison_does_not_stop_at_the_first_difference() {
    let secret = Secret::from_text("correct-horse");
    assert!(secret.matches(b"correct-horse"));
    assert!(!secret.matches(b"correct-horsf"), "last byte differs");
    assert!(!secret.matches(b"xorrect-horse"), "first byte differs");
    assert!(!secret.matches(b"correct-hors"), "shorter");
    assert!(!secret.matches(b"correct-horses"), "longer");
}

#[test]
fn two_secrets_compare_by_value() {
    assert!(Secret::from_text("same") == Secret::from_text("same"));
    assert!(Secret::from_text("same") != Secret::from_text("other"));
}

#[test]
fn the_length_is_available_because_it_is_not_the_secret() {
    let secret = Secret::from_text("sixteen-bytes!!!");
    assert_eq!(secret.len(), 16);
    assert!(!secret.is_empty());
    assert!(Secret::new(Vec::new()).is_empty());
}

#[test]
fn a_secret_can_be_exposed_deliberately() {
    let secret = Secret::new(vec![1, 2, 3]);
    assert_eq!(secret.expose(), &[1, 2, 3]);
}

#[test]
fn a_secret_reference_names_the_service_and_hides_the_account() {
    let reference = SecretRef::new("prv.sync", "someone@example.com").expect("a valid reference");
    assert_eq!(reference.service(), "prv.sync");
    assert_eq!(reference.expose_account(), "someone@example.com");

    let rendered = reference.to_text();
    assert!(rendered.contains("prv.sync"), "the service is actionable");
    assert!(!rendered.contains("example.com"), "the account leaked: {rendered}");
    assert!(!format!("{reference:?}").is_empty());
}

#[test]
fn a_reference_without_both_parts_is_refused() {
    assert_eq!(
        SecretRef::new("", "account").err(),
        Some(SecretRefError::Empty)
    );
    assert_eq!(
        SecretRef::new("service", "").err(),
        Some(SecretRefError::Empty)
    );
}

#[test]
fn an_unbounded_account_is_refused_rather_than_passed_on() {
    let long = "a".repeat(SecretRef::MAX_ACCOUNT_BYTES + 1);
    assert_eq!(
        SecretRef::new("prv.sync", &long).err(),
        Some(SecretRefError::AccountTooLong {
            bytes: SecretRef::MAX_ACCOUNT_BYTES + 1
        })
    );
    let longest = "a".repeat(SecretRef::MAX_ACCOUNT_BYTES);
    assert!(SecretRef::new("prv.sync", &longest).is_ok());
}

// ---- audit

fn owner() -> Subject {
    Subject::user(Role::Owner)
}

fn viewer() -> Subject {
    Subject::user(Role::Viewer)
}

fn audited_plugin() -> Subject {
    Subject::plugin(PluginId::new(11), PermissionSet::none())
}

#[test]
fn deciding_and_recording_cannot_come_apart() {
    let mut log = AuditLog::new();
    assert!(log.is_empty());

    assert!(log.authorise(1, owner(), Capability::EditProject).is_ok());
    assert!(log.authorise(2, viewer(), Capability::EditProject).is_err());

    assert_eq!(log.len(), 2);
    let decisions: Vec<bool> = log
        .entries()
        .iter()
        .map(|e| e.decision().is_allowed())
        .collect();
    assert_eq!(decisions, vec![true, false]);
    assert_eq!(log.refusals().len(), 1);
}

#[test]
fn an_entry_cannot_be_rendered_into_anything_but_stable_keys() {
    let entry = Entry::new(
        7,
        audited_plugin(),
        Capability::ReadSecrets,
        Decision::of(authorise(audited_plugin(), Capability::ReadSecrets)),
    );
    let record = entry.render();

    assert_eq!(record.sensitivity(), Sensitivity::Public);
    for field in record.fields() {
        assert!(field.sensitivity().is_public(), "the field {} is not public", field.name());
    }

    let rendered = entry.to_text();
    assert!(rendered.contains("audit.decision"));
    assert!(rendered.contains("capability.read_secrets"));
    assert!(rendered.contains("decision.refused"));
    assert!(rendered.contains("refusal.never_delegated"));
    assert!(rendered.contains("plugin=11"));
}

#[test]
fn an_allowed_entry_records_no_reason() {
    let entry = Entry::new(1, owner(), Capability::ExportProject, Decision::Allowed);
    let rendered = entry.to_text();
    assert!(rendered.contains("decision.allowed"));
    assert!(!rendered.contains("reason="));
    assert!(rendered.contains("role.owner"));
    assert_eq!(entry.ordinal(), 1);
    assert_eq!(entry.capability(), Capability::ExportProject);
    assert_eq!(entry.actor(), Actor::User(Role::Owner));
}

#[test]
fn an_overflowing_log_says_how_many_it_dropped() {
    let mut log = AuditLog::with_capacity(4);
    for ordinal in 0..10 {
        log.record(Entry::new(
            ordinal,
            owner(),
            Capability::ViewProject,
            Decision::Allowed,
        ));
    }

    assert_eq!(log.len(), 4);
    assert_eq!(log.discarded(), 6);
    assert!(!log.is_complete());

    let ordinals: Vec<u64> = log.entries().iter().map(|entry| entry.ordinal()).collect();
    assert_eq!(ordinals, vec![6, 7, 8, 9], "the oldest should go first");
}

#[test]
fn a_log_that_lost_nothing_says_so() {
    let mut log = AuditLog::new();
    log.record(Entry::new(
        1,
        owner(),
        Capability::ViewProject,
        Decision::Allowed,
    ));
    assert!(log.is_complete());
    assert_eq!(log.discarded(), 0);
}

#[test]
fn a_log_always_holds_at_least_one_entry() {
    let mut log = AuditLog::with_capacity(0);
    log.record(Entry::new(
        1,
        owner(),
        Capability::ViewProject,
        Decision::Allowed,
    ));
    assert_eq!(log.len(), 1);
}

#[test]
fn the_actor_is_the_kind_and_never_the_person() {
    assert_eq!(Actor::of(owner()), Actor::User(Role::Owner));
    assert_eq!(Actor::of(audited_plugin()), Actor::Plugin(PluginId::new(11)));
    assert_eq!(Actor::User(Role::Owner).key(), "actor.user");
    assert_ne!(
        Actor::User(Role::Owner).key(),
        Actor::Plugin(PluginId::new(1)).key()
    );
    assert_ne!(
        Decision::Allowed.key(),
        Decision::Refused(Refusal::NeverDelegated {
            id: PluginId::new(1),
            capability: Capability::ReadSecrets
        })
        .key()
    );
}

// ---- the crate as a whole

#[test]
fn permission_and_agreement_are_two_different_questions() {
    let owner = Subject::user(Role::Owner);
    assert!(allows(owner, Capability::EditProject));

    let consents = Consents::none();
    assert!(consents.check(Purpose::CloudAnalysis).is_err());
    assert!(consents.check(Purpose::ModelTraining).is_err());
}

#[test]
fn a_full_decision_is_recorded_without_recording_anybody() {
    let mut log = AuditLog::new();
    let plugin = Subject::plugin(PluginId::new(4), PermissionSet::none());

    let refused = log.authorise(1, plugin, Capability::UseNetwork);
    assert!(refused.is_err());

    let rendered: Vec<String> = log.entries().iter().map(|entry| entry.to_text()).collect();
    assert_eq!(rendered.len(), 1);
    for line in &rendered {
        assert!(line.starts_with("audit.decision"), "{line}");
    }
    for entry in log.entries() {
        assert_eq!(entry.render().sensitivity(), Sensitivity::Public);
    }
}

#[test]
fn a_diagnostic_about_a_credential_failure_carries_no_credential() {
    let reference = SecretRef::new("prv.sync", "someone@example.com").expect("a reference");
    let token = Secret::from_text("st-live-9f3c11aa");

    let record = Record::new("sync.authentication_failed")
        .with(Field::key("service", reference.service()))
        .with(Field::personal("account"))
        .with(Field::secret("token"))
        .with(Field::number("attempts", 3));

    let line = record.to_text();
    assert!(line.contains("prv.sync"));
    assert!(line.contains("attempts=3"));
    assert!(!line.contains("example.com"), "{line}");
    assert!(!line.contains("9f3c11aa"), "{line}");
    assert!(!token.to_text().contains("9f3c11aa"));
    assert_eq!(record.sensitivity(), Sensitivity::Secret);
    assert!(!record.sensitivity().may_be_included_with_consent());
}

#[test]
fn reference_errors_read_as_sentences() {
    assert_eq!(
        SecretRefError::Empty.to_text(),
        "a secret reference needs a service and an account"
    );
    assert_eq!(
        SecretRefError::AccountTooLong { bytes: 300 }.to_text(),
        "an account of 300 bytes is too long"
    );
}

#[test]
fn refusals_and_missing_agreements_read_as_their_keys() {
    let refusal = Refusal::PluginNotPermitted {
        id: plugin_id(),
        capability: Capability::EditProject,
    };
    assert_eq!(
        refusal.to_text(),
        "refusal.plugin_not_permitted (capability.edit_project)"
    );
    assert_eq!(
        ConsentRequired {
            purpose: Purpose::ProjectSync
        }
        .to_text(),
        "purpose.project_sync has not been agreed to"
    );
    assert_eq!(PluginId::new(42).to_text(), "42");
}
