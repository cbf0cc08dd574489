use prv_core::settings::accessibility::{Accessibility, PlatformAccessibility};
use prv_core::settings::mode::ExperienceMode;
use prv_core::settings::order::bytes_come_before;
use prv_core::settings::setting::{Category, SettingKey, SettingValue, ValueKind};
use prv_core::settings::store::{Settings, SettingsError, UnkeepableReason, UnknownSetting};

// ---- modes

#[test]
fn assistance_decreases_and_never_reverses() {
    let volunteering: Vec<(bool, bool, bool)> = ExperienceMode::all()
        .into_iter()
        .map(|mode| {
            (
                mode.volunteers_explanations(),
                mode.volunteers_suggestions(),
                mode.confirms_reversible_actions(),
            )
        })
        .collect();

    for window in volunteering.windows(2) {
        let [earlier, later] = window else { continue };
        assert!(earlier.0 >= later.0, "explanations increased");
        assert!(earlier.1 >= later.1, "suggestions increased");
        assert!(earlier.2 >= later.2, "confirmations increased");
    }
}

#[test]
fn the_professional_mode_is_quiet_rather_than_reduced() {
    let professional = ExperienceMode::Professional;
    assert!(!professional.volunteers_suggestions());
    assert!(!professional.volunteers_explanations());
    assert!(!professional.confirms_reversible_actions());
}

#[test]
fn the_default_is_the_middle_setting() {
    assert_eq!(ExperienceMode::default(), ExperienceMode::Standard);
}

#[test]
fn an_unrecognised_stored_mode_falls_back_rather_than_failing() {
    for mode in ExperienceMode::all() {
        assert_eq!(ExperienceMode::from_key(mode.key()), Some(mode));
    }
    assert_eq!(ExperienceMode::from_key("mode.from_the_future"), None);
    assert_eq!(ExperienceMode::from_key(""), None);
}

#[test]
fn mode_keys_are_distinct() {
    let keys: Vec<&str> = ExperienceMode::all().iter().map(|m| m.key()).collect();
    for (index, key) in keys.iter().enumerate() {
        for (other, value) in keys.iter().enumerate() {
            assert!(index == other || key != value, "two modes share {key}");
        }
    }
}

#[test]
fn the_guided_mode_volunteers_everything() {
    let guided = ExperienceMode::Guided;
    assert!(guided.volunteers_suggestions());
    assert!(guided.volunteers_explanations());
    assert!(guided.confirms_reversible_actions());
}

// ---- settings

#[test]
fn only_assistance_settings_follow_the_mode() {
    for setting in SettingKey::all() {
        if setting.follows_the_mode() {
            assert!(setting.category().follows_the_mode(), "{}", setting.key());
        }
    }
}

#[test]
fn every_assistance_setting_actually_uses_the_mode() {
    for setting in SettingKey::all() {
        if setting.category() == Category::Assistance {
            assert!(setting.follows_the_mode(), "{}", setting.key());
        }
    }
}

#[test]
fn every_default_matches_its_declared_kind() {
    for setting in SettingKey::all() {
        for mode in ExperienceMode::all() {
            assert_eq!(setting.default_for(mode).kind(), setting.kind(), "{}", setting.key());
        }
    }
}

#[test]
fn every_choice_default_is_one_of_the_permitted_choices() {
    for setting in SettingKey::all() {
        if setting.kind() != ValueKind::Choice {
            assert!(setting.choices().is_empty(), "{} lists choices", setting.key());
            continue;
        }
        let choices = setting.choices();
        assert!(!choices.is_empty(), "{} permits nothing", setting.key());
        let default = setting
            .default_for(ExperienceMode::Standard)
            .as_choice()
            .expect("a choice setting has a choice default");
        assert!(choices.contains(&default), "{}", setting.key());
    }
}

#[test]
fn every_count_default_is_inside_its_own_range() {
    for setting in SettingKey::all() {
        let Some((low, high)) = setting.range() else {
            assert_ne!(setting.kind(), ValueKind::Count, "{} has no range", setting.key());
            continue;
        };
        assert!(low <= high, "{} has an empty range", setting.key());
        let default = setting
            .default_for(ExperienceMode::Standard)
            .as_count()
            .expect("a count setting has a count default");
        assert!((low..=high).contains(&default), "{}", setting.key());
    }
}

#[test]
fn an_accessibility_setting_defaults_to_adding_nothing() {
    for setting in SettingKey::all() {
        if setting.category() == Category::Accessibility {
            assert_eq!(
                setting.default_for(ExperienceMode::Standard),
                SettingValue::Flag(false),
                "{}",
                setting.key()
            );
        }
    }
}

#[test]
fn an_unrecognised_stored_setting_is_not_an_error() {
    for setting in SettingKey::all() {
        assert_eq!(SettingKey::from_key(setting.key()), Some(setting));
    }
    assert_eq!(SettingKey::from_key("setting.from_the_future"), None);
}

#[test]
fn setting_keys_are_distinct() {
    let keys: Vec<&str> = SettingKey::all().iter().map(|s| s.key()).collect();
    for (index, key) in keys.iter().enumerate() {
        for (other, value) in keys.iter().enumerate() {
            assert!(index == other || key != value, "two settings share {key}");
        }
    }
}

#[test]
fn a_value_reports_only_the_kind_it_is() {
    assert_eq!(SettingValue::Flag(true).as_flag(), Some(true));
    assert_eq!(SettingValue::Flag(true).as_count(), None);
    assert_eq!(SettingValue::Count(3).as_count(), Some(3));
    assert_eq!(SettingValue::Count(3).as_choice(), None);
    assert_eq!(SettingValue::Choice("a").as_choice(), Some("a"));
    assert_eq!(SettingValue::Choice("a").as_flag(), None);
    assert_eq!(SettingValue::Flag(false).to_text(), "false");
    assert_eq!(SettingValue::Count(-2).to_text(), "-2");
}

#[test]
fn settings_are_indexed_in_declaration_order() {
    for (index, setting) in SettingKey::all().into_iter().enumerate() {
        assert_eq!(setting.index(), index);
    }
    assert!(SettingValue::Choice("a").same_as(SettingValue::Choice("a")));
    assert!(!SettingValue::Choice("a").same_as(SettingValue::Choice("b")));
}

// ---- the store

#[test]
fn an_untouched_setting_follows_the_mode() {
    let mut settings = Settings::new();
    assert!(settings.flag(SettingKey::ShowAiSuggestions));

    settings.set_mode(ExperienceMode::Professional);
    assert!(!settings.flag(SettingKey::ShowAiSuggestions));
    assert!(!settings.is_chosen(SettingKey::ShowAiSuggestions));
    assert_eq!(settings.mode(), ExperienceMode::Professional);
}

#[test]
fn changing_mode_never_discards_a_choice_the_user_made() {
    let mut settings = Settings::new();
    settings
        .set(SettingKey::ShowAiSuggestions, SettingValue::Flag(true))
        .expect("a flag on a flag setting");

    settings.set_mode(ExperienceMode::Professional);
    assert!(settings.flag(SettingKey::ShowAiSuggestions));
    assert!(settings.is_chosen(SettingKey::ShowAiSuggestions));
}

#[test]
fn withdrawing_a_choice_returns_to_following_the_mode() {
    let mut settings = Settings::new();
    settings.set_mode(ExperienceMode::Professional);
    settings
        .set(SettingKey::ShowAiSuggestions, SettingValue::Flag(true))
        .expect("a flag");
    assert!(settings.flag(SettingKey::ShowAiSuggestions));

    assert!(settings.clear(SettingKey::ShowAiSuggestions));
    assert!(!settings.flag(SettingKey::ShowAiSuggestions));
    assert!(!settings.clear(SettingKey::ShowAiSuggestions));
}

#[test]
fn only_choices_are_stored() {
    let settings = Settings::new();
    assert!(settings.chosen().is_empty());
    for setting in SettingKey::all() {
        assert!(!settings.is_chosen(setting), "{} was stored unasked", setting.key());
    }
}

#[test]
fn a_value_of_the_wrong_kind_is_refused_and_says_what_was_expected() {
    let mut settings = Settings::new();
    assert_eq!(
        settings.set(SettingKey::SnapToGrid, SettingValue::Count(1)),
        Err(SettingsError::WrongKind {
            setting: SettingKey::SnapToGrid,
            expected: ValueKind::Flag,
            found: ValueKind::Count,
        })
    );
    assert!(!settings.is_chosen(SettingKey::SnapToGrid));
}

#[test]
fn a_choice_the_setting_does_not_permit_is_refused() {
    let mut settings = Settings::new();
    assert_eq!(
        settings.set_choice(SettingKey::KeyNotation, "notation.invented"),
        Err(SettingsError::NotPermitted {
            setting: SettingKey::KeyNotation
        })
    );
    assert_eq!(
        settings.set_choice(SettingKey::SnapToGrid, "snap.bar"),
        Err(SettingsError::WrongKind {
            setting: SettingKey::SnapToGrid,
            expected: ValueKind::Flag,
            found: ValueKind::Choice,
        })
    );

    settings
        .set_choice(SettingKey::KeyNotation, "notation.standard")
        .expect("a permitted choice");
    assert_eq!(
        settings.choice(SettingKey::KeyNotation),
        Some("notation.standard")
    );
}

#[test]
fn a_count_outside_its_range_is_refused_at_both_ends() {
    let mut settings = Settings::new();
    let (low, high) = SettingKey::RecentProjectsShown
        .range()
        .expect("a count setting has a range");

    for offered in [low - 1, high + 1] {
        assert_eq!(
            settings.set(SettingKey::RecentProjectsShown, SettingValue::Count(offered)),
            Err(SettingsError::OutOfRange {
                setting: SettingKey::RecentProjectsShown,
                low,
                high,
            })
        );
    }

    settings
        .set(SettingKey::RecentProjectsShown, SettingValue::Count(high))
        .expect("the top of the range is permitted");
    assert_eq!(settings.count(SettingKey::RecentProjectsShown), Some(high));
}

#[test]
fn a_newer_builds_settings_survive_this_one() {
    let mut settings = Settings::new();
    settings
        .keep_unknown("setting.from_the_future", "whatever it said")
        .expect("an unrecognised setting is kept");
    settings.keep_unknown("setting.also_new", "42").expect("kept");

    assert_eq!(settings.unknown().len(), 2);
    assert_eq!(
        settings.unknown().first().map(UnknownSetting::name),
        Some("setting.also_new")
    );
    assert_eq!(
        settings.unknown().last().map(UnknownSetting::value),
        Some("whatever it said")
    );

    settings.clear_all();
    assert_eq!(settings.unknown().len(), 2);
}

#[test]
fn an_unrecognised_setting_seen_twice_keeps_the_later_value() {
    let mut settings = Settings::new();
    settings.keep_unknown("setting.new", "first").expect("kept");
    settings.keep_unknown("setting.new", "second").expect("kept");
    assert_eq!(settings.unknown().len(), 1);
    assert_eq!(
        settings.unknown().first().map(UnknownSetting::value),
        Some("second")
    );
}

#[test]
fn an_unkeepable_entry_is_reported_rather_than_dropped_quietly() {
    let mut settings = Settings::new();
    assert_eq!(
        settings.keep_unknown("", "value"),
        Err(SettingsError::Unkeepable {
            reason: UnkeepableReason::NameNotUsable
        })
    );
    assert_eq!(
        settings.keep_unknown(&"n".repeat(Settings::MAX_UNKNOWN_NAME + 1), "value"),
        Err(SettingsError::Unkeepable {
            reason: UnkeepableReason::NameNotUsable
        })
    );
    assert_eq!(
        settings.keep_unknown("setting.big", &"v".repeat(Settings::MAX_UNKNOWN_VALUE + 1)),
        Err(SettingsError::Unkeepable {
            reason: UnkeepableReason::ValueTooLong
        })
    );

    for index in 0..Settings::MAX_UNKNOWN {
        settings
            .keep_unknown(&format!("setting.n{index}"), "v")
            .expect("within the limit");
    }
    assert_eq!(
        settings.keep_unknown("setting.one_too_many", "v"),
        Err(SettingsError::Unkeepable {
            reason: UnkeepableReason::TooMany
        })
    );
}

#[test]
fn no_mode_changes_anything_but_assistance() {
    let mut settings = Settings::new();
    let baseline: Vec<SettingValue> = SettingKey::all().iter().map(|s| settings.get(*s)).collect();

    for mode in ExperienceMode::all() {
        settings.set_mode(mode);
        for (index, setting) in SettingKey::all().into_iter().enumerate() {
            if setting.category() == Category::Assistance {
                continue;
            }
            assert_eq!(
                Some(settings.get(setting)),
                baseline.get(index).copied(),
                "{} changed {}",
                mode.key(),
                setting.key()
            );
        }
    }
}

#[test]
fn a_professional_gets_quiet_and_loses_nothing() {
    let mut guided = Settings::new();
    guided.set_mode(ExperienceMode::Guided);
    let mut professional = Settings::new();
    professional.set_mode(ExperienceMode::Professional);

    assert!(guided.flag(SettingKey::ShowAiSuggestions));
    assert!(!professional.flag(SettingKey::ShowAiSuggestions));
    assert!(guided.flag(SettingKey::ConfirmReversibleActions));
    assert!(!professional.flag(SettingKey::ConfirmReversibleActions));

    for setting in SettingKey::all() {
        if setting.category() == Category::Assistance {
            continue;
        }
        assert_eq!(guided.get(setting), professional.get(setting), "{}", setting.key());
    }
}

#[test]
fn a_document_written_by_a_newer_build_opens_and_is_written_back_whole() {
    let mut settings = Settings::new();
    settings
        .set_choice(SettingKey::KeyNotation, "notation.open_key")
        .expect("a permitted choice");
    settings
        .keep_unknown("setting.something_new", "true")
        .expect("kept");

    assert_eq!(settings.chosen().len(), 1);
    assert_eq!(settings.unknown().len(), 1);
    assert_eq!(
        settings.choice(SettingKey::KeyNotation),
        Some("notation.open_key")
    );
}

#[test]
fn unknown_names_are_kept_in_byte_order() {
    assert!(bytes_come_before(b"abc", b"abd"));
    assert!(bytes_come_before(b"ab", b"abc"));
    assert!(!bytes_come_before(b"abc", b"abc"));
    assert!(!bytes_come_before(b"b", b"a"));

    let mut settings = Settings::new();
    settings.keep_unknown("setting.c", "3").expect("kept");
    settings.keep_unknown("setting.a", "1").expect("kept");
    settings.keep_unknown("setting.b", "2").expect("kept");
    let names: Vec<&str> = settings.unknown().iter().map(UnknownSetting::name).collect();
    assert_eq!(names, vec!["setting.a", "setting.b", "setting.c"]);
}

#[test]
fn chosen_values_are_listed_in_setting_order() {
    let mut settings = Settings::new();
    settings
        .set(SettingKey::RecentProjectsShown, SettingValue::Count(5))
        .expect("in range");
    settings
        .set(SettingKey::ShowAiSuggestions, SettingValue::Flag(false))
        .expect("a flag");
    let chosen = settings.chosen();
    assert_eq!(chosen.len(), 2);
    assert!(chosen[0].0.index() < chosen[1].0.index());
}

#[test]
fn settings_errors_read_as_sentences() {
    assert_eq!(
        SettingsError::WrongKind {
            setting: SettingKey::SnapToGrid,
            expected: ValueKind::Flag,
            found: ValueKind::Count,
        }
        .to_text(),
        "setting.snap_to_grid holds kind.flag, not kind.count"
    );
    assert_eq!(
        SettingsError::OutOfRange {
            setting: SettingKey::RecentProjectsShown,
            low: 0,
            high: 50,
        }
        .to_text(),
        "setting.recent_projects_shown must be between 0 and 50"
    );
    assert_eq!(
        SettingsError::Unkeepable {
            reason: UnkeepableReason::TooMany
        }
        .to_text(),
        "an unrecognised setting was not kept (TooMany)"
    );
}

// ---- accessibility

fn quiet_platform() -> PlatformAccessibility<f32> {
    PlatformAccessibility {
        reduce_motion: false,
        increase_contrast: false,
        reduce_transparency: false,
        text_scale: 1.0,
    }
}

#[test]
fn the_platform_can_turn_reduced_motion_on_and_the_application_cannot_turn_it_off() {
    let mut accessibility = Accessibility::from_platform(PlatformAccessibility {
        reduce_motion: true,
        ..quiet_platform()
    });
    assert!(accessibility.reduce_motion());

    accessibility.request_reduced_motion(false);
    assert!(
        accessibility.reduce_motion(),
        "an application preference overrode a platform accommodation"
    );
}

#[test]
fn the_application_can_add_a_restraint_the_platform_did_not_ask_for() {
    let mut accessibility = Accessibility::from_platform(quiet_platform());
    assert!(!accessibility.reduce_motion());

    accessibility.request_reduced_motion(true);
    assert!(accessibility.reduce_motion());

    accessibility.request_reduced_motion(false);
    assert!(
        !accessibility.reduce_motion(),
        "withdrawing an application request should withdraw only that"
    );
}

#[test]
fn every_accommodation_is_a_union_in_the_same_direction() {
    for (set_platform, request, read) in [
        (
            (|p: &mut PlatformAccessibility<f32>| p.increase_contrast = true)
                as fn(&mut PlatformAccessibility<f32>),
            Accessibility::request_increased_contrast as fn(&mut Accessibility<f32>, bool),
            Accessibility::increase_contrast as fn(&Accessibility<f32>) -> bool,
        ),
        (
            |p: &mut PlatformAccessibility<f32>| p.reduce_transparency = true,
            Accessibility::request_reduced_transparency,
            Accessibility::reduce_transparency,
        ),
    ] {
        let mut platform = quiet_platform();
        set_platform(&mut platform);

        let mut from_platform = Accessibility::from_platform(platform);
        request(&mut from_platform, false);
        assert!(read(&from_platform), "the platform's answer was discarded");

        let mut from_application = Accessibility::from_platform(quiet_platform());
        assert!(!read(&from_application));
        request(&mut from_application, true);
        assert!(read(&from_application));
    }
}

#[test]
fn a_system_setting_that_changes_while_running_is_picked_up() {
    let mut accessibility = Accessibility::from_platform(quiet_platform());
    assert!(!accessibility.reduce_motion());

    accessibility.update_platform(PlatformAccessibility {
        reduce_motion: true,
        ..quiet_platform()
    });
    assert!(accessibility.reduce_motion());
}

#[test]
fn updating_the_platform_keeps_what_the_user_asked_for_here() {
    let mut accessibility = Accessibility::from_platform(quiet_platform());
    accessibility.request_increased_contrast(true);
    accessibility.update_platform(quiet_platform());
    assert!(accessibility.increase_contrast());
}

#[test]
fn the_platform_answer_is_carried_through_unread() {
    let accessibility = Accessibility::from_platform(PlatformAccessibility {
        text_scale: 1.5f32,
        ..quiet_platform()
    });
    assert_eq!(accessibility.platform().text_scale, 1.5);
    assert!(!accessibility.reduce_motion());
    assert!(!accessibility.increase_contrast());
    assert!(!accessibility.reduce_transparency());
}

#[test]
fn accessibility_preferences_join_with_what_the_platform_reports() {
    let mut settings = Settings::new();
    settings
        .set(SettingKey::ReduceMotion, SettingValue::Flag(true))
        .expect("a flag");

    let quiet = settings.accessibility(quiet_platform());
    assert!(quiet.reduce_motion());
    assert!(!quiet.increase_contrast());

    settings.clear(SettingKey::ReduceMotion);
    let insistent_platform = settings.accessibility(PlatformAccessibility {
        reduce_motion: true,
        ..quiet_platform()
    });
    assert!(
        insistent_platform.reduce_motion(),
        "the platform's answer must survive the absence of a preference"
    );
}

#[test]
fn an_accommodation_survives_every_other_preference() {
    let mut settings = Settings::new();
    settings.set_mode(ExperienceMode::Professional);
    settings
        .set(SettingKey::ReduceMotion, SettingValue::Flag(false))
        .expect("a flag");

    let accessibility = settings.accessibility(PlatformAccessibility {
        reduce_motion: true,
        ..quiet_platform()
    });
    assert!(
        accessibility.reduce_motion(),
        "a preference withdrew a platform accommodation"
    );
}
