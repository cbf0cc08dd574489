//! The settings the product knows: each with a kind, a category, what it
//! permits, and a default that depends on the mode only where it assists.

use vstd::prelude::*;

use crate::settings::mode::{all_modes, mode_confirms, mode_explains, mode_suggests, ExperienceMode};
use crate::text::{decimal, push_decimal, push_str, str_equals};

verus! {

/// What sort of value a setting holds.
#[derive(Debug, Clone, Copy, PartialEq, Eq, Hash, Structural)]
#[non_exhaustive]
pub enum ValueKind {
    /// Yes or no.
    Flag,
    /// A whole number within a range.
    Count,
    /// One of a fixed list of stable keys.
    Choice,
}

impl ValueKind {
    /// A stable identifier of the kind.
    pub fn key(self) -> (key: &'static str)
        ensures
            key@ == (match self {
                ValueKind::Flag => "kind.flag"@,
                ValueKind::Count => "kind.count"@,
                ValueKind::Choice => "kind.choice"@,
            }),
    {
        match self {
            ValueKind::Flag => "kind.flag",
            ValueKind::Count => "kind.count",
            ValueKind::Choice => "kind.choice",
        }
    }
}

/// A setting's value.
#[derive(Debug, Clone, Copy, PartialEq, Eq, Hash)]
#[non_exhaustive]
pub enum SettingValue {
    /// Yes or no.
    Flag(bool),
    /// A whole number.
    Count(i64),
    /// A stable key from the setting's list of choices.
    Choice(&'static str),
}

/// The kind of a value.
pub open spec fn value_kind(value: SettingValue) -> ValueKind {
    match value {
        SettingValue::Flag(_) => ValueKind::Flag,
        SettingValue::Count(_) => ValueKind::Count,
        SettingValue::Choice(_) => ValueKind::Choice,
    }
}

/// Whether two values are the same: the same kind and payload, choices
/// compared by their text.
pub open spec fn same_value(a: SettingValue, b: SettingValue) -> bool {
    match (a, b) {
        (SettingValue::Flag(x), SettingValue::Flag(y)) => x == y,
        (SettingValue::Count(x), SettingValue::Count(y)) => x == y,
        (SettingValue::Choice(x), SettingValue::Choice(y)) => x@ == y@,
        _ => false,
    }
}

/// How a value renders: `true` or `false`, a number in decimal, or the
/// choice's key.
pub open spec fn value_text(value: SettingValue) -> Seq<char> {
    match value {
        SettingValue::Flag(flag) => if flag {
            "true"@
        } else {
            "false"@
        },
        SettingValue::Count(count) => decimal(count as int),
        SettingValue::Choice(choice) => choice@,
    }
}

impl SettingValue {
    /// The kind of the value.
    pub fn kind(self) -> (kind: ValueKind)
        ensures
            kind == value_kind(self),
    {
        match self {
            SettingValue::Flag(_) => ValueKind::Flag,
            SettingValue::Count(_) => ValueKind::Count,
            SettingValue::Choice(_) => ValueKind::Choice,
        }
    }

    /// The flag, if the value is one.
    pub fn as_flag(self) -> (flag: Option<bool>)
        ensures
            flag == (match self {
                SettingValue::Flag(value) => Some(value),
                _ => None,
            }),
    {
        match self {
            SettingValue::Flag(value) => Some(value),
            _ => None,
        }
    }

    /// The count, if the value is one.
    pub fn as_count(self) -> (count: Option<i64>)
        ensures
            count == (match self {
                SettingValue::Count(value) => Some(value),
                _ => None,
            }),
    {
        match self {
            SettingValue::Count(value) => Some(value),
            _ => None,
        }
    }

    /// The choice, if the value is one.
    pub fn as_choice(self) -> (choice: Option<&'static str>)
        ensures
            choice == (match self {
                SettingValue::Choice(value) => Some(value),
                _ => None,
            }),
    {
        match self {
            SettingValue::Choice(value) => Some(value),
            _ => None,
        }
    }

    /// Whether two values are the same.
    pub fn same_as(self, other: SettingValue) -> (same: bool)
        ensures
            same == same_value(self, other),
    {
        match (self, other) {
            (SettingValue::Flag(x), SettingValue::Flag(y)) => x == y,
            (SettingValue::Count(x), SettingValue::Count(y)) => x == y,
            (SettingValue::Choice(x), SettingValue::Choice(y)) => str_equals(x, y),
            _ => false,
        }
    }

    /// The value as text: `true` or `false`, a number, or the choice's key.
    pub fn to_text(self) -> (text: String)
        ensures
            text@ == value_text(self),
    {
        let mut text = String::new();
        match self {
            SettingValue::Flag(flag) => push_str(&mut text, if flag { "true" } else { "false" }),
            SettingValue::Count(count) => push_decimal(&mut text, count as i128),
            SettingValue::Choice(choice) => push_str(&mut text, choice),
        }
        assert(text@ =~= value_text(self));
        text
    }
}

/// What a setting is about.
#[derive(Debug, Clone, Copy, PartialEq, Eq, Hash, Structural)]
#[non_exhaustive]
pub enum Category {
    /// Accommodations; they never presume one.
    Accessibility,
    /// What the product volunteers; these follow the mode.
    Assistance,
    /// How the product acts.
    Behaviour,
    /// How things are shown.
    Presentation,
}

/// The stable key of each category.
pub open spec fn category_key(category: Category) -> Seq<char> {
    match category {
        Category::Accessibility => "category.accessibility"@,
        Category::Assistance => "category.assistance"@,
        Category::Behaviour => "category.behaviour"@,
        Category::Presentation => "category.presentation"@,
    }
}

impl Category {
    /// Every category.
    pub fn all() -> (all: Vec<Category>)
        ensures
            all@ == seq![Category::Accessibility, Category::Assistance, Category::Behaviour, Category::Presentation],
    {
        let all = vec![Category::Accessibility, Category::Assistance, Category::Behaviour, Category::Presentation];
        assert(all@ =~= seq![Category::Accessibility, Category::Assistance, Category::Behaviour, Category::Presentation]);
        all
    }

    /// Whether the category's defaults follow the mode: only assistance.
    pub fn follows_the_mode(self) -> (follows: bool)
        ensures
            follows == (self is Assistance),
    {
        matches!(self, Category::Assistance)
    }

    /// A stable identifier of the category.
    pub fn key(self) -> (key: &'static str)
        ensures
            key@ == category_key(self),
    {
        match self {
            Category::Accessibility => "category.accessibility",
            Category::Assistance => "category.assistance",
            Category::Behaviour => "category.behaviour",
            Category::Presentation => "category.presentation",
        }
    }
}

/// A setting the product knows.
#[derive(Debug, Clone, Copy, PartialEq, Eq, PartialOrd, Ord, Hash, Structural)]
#[non_exhaustive]
pub enum SettingKey {
    /// Reduce motion.
    ReduceMotion,
    /// Increase contrast.
    IncreaseContrast,
    /// Reduce transparency.
    ReduceTransparency,
    /// Show suggestions from analysis.
    ShowAiSuggestions,
    /// Explain why things were decided.
    ExplainDecisions,
    /// Ask before actions that can be undone.
    ConfirmReversibleActions,
    /// Snap edits to the grid.
    SnapToGrid,
    /// What edits snap to.
    SnapResolution,
    /// Analyse tracks as they are imported.
    AnalyseOnImport,
    /// Cue a track when it is loaded.
    CueOnLoad,
    /// How keys are written.
    KeyNotation,
    /// Where exports are aimed by default.
    DefaultDeliveryTarget,
    /// How many recent projects are listed.
    RecentProjectsShown,
}

/// Every setting, in declaration order.
pub open spec fn all_settings() -> Seq<SettingKey> {
    seq![
        SettingKey::ReduceMotion,
        SettingKey::IncreaseContrast,
        SettingKey::ReduceTransparency,
        SettingKey::ShowAiSuggestions,
        SettingKey::ExplainDecisions,
        SettingKey::ConfirmReversibleActions,
        SettingKey::SnapToGrid,
        SettingKey::SnapResolution,
        SettingKey::AnalyseOnImport,
        SettingKey::CueOnLoad,
        SettingKey::KeyNotation,
        SettingKey::DefaultDeliveryTarget,
        SettingKey::RecentProjectsShown,
    ]
}

/// The position of each setting in declaration order.
pub open spec fn setting_index(setting: SettingKey) -> int {
    match setting {
        SettingKey::ReduceMotion => 0,
        SettingKey::IncreaseContrast => 1,
        SettingKey::ReduceTransparency => 2,
        SettingKey::ShowAiSuggestions => 3,
        SettingKey::ExplainDecisions => 4,
        SettingKey::ConfirmReversibleActions => 5,
        SettingKey::SnapToGrid => 6,
        SettingKey::SnapResolution => 7,
        SettingKey::AnalyseOnImport => 8,
        SettingKey::CueOnLoad => 9,
        SettingKey::KeyNotation => 10,
        SettingKey::DefaultDeliveryTarget => 11,
        SettingKey::RecentProjectsShown => 12,
    }
}

/// The category of each setting.
pub open spec fn setting_category(setting: SettingKey) -> Category {
    match setting {
        SettingKey::ReduceMotion | SettingKey::IncreaseContrast | SettingKey::ReduceTransparency => Category::Accessibility,
        SettingKey::ShowAiSuggestions | SettingKey::ExplainDecisions | SettingKey::ConfirmReversibleActions => Category::Assistance,
        SettingKey::SnapToGrid | SettingKey::SnapResolution | SettingKey::AnalyseOnImport | SettingKey::CueOnLoad => Category::Behaviour,
        _ => Category::Presentation,
    }
}

/// The kind of value each setting holds.
pub open spec fn setting_kind(setting: SettingKey) -> ValueKind {
    match setting {
        SettingKey::RecentProjectsShown => ValueKind::Count,
        SettingKey::SnapResolution | SettingKey::KeyNotation | SettingKey::DefaultDeliveryTarget => ValueKind::Choice,
        _ => ValueKind::Flag,
    }
}

/// The choices a choice setting permits; none for any other.
pub open spec fn setting_choices(setting: SettingKey) -> Seq<Seq<char>> {
    match setting {
        SettingKey::SnapResolution => seq!["snap.division"@, "snap.beat"@, "snap.bar"@, "snap.phrase"@],
        SettingKey::KeyNotation => seq!["notation.camelot"@, "notation.standard"@, "notation.open_key"@],
        SettingKey::DefaultDeliveryTarget => seq![
            "target.streaming"@,
            "target.club"@,
            "target.broadcast"@,
            "target.archive"@,
        ],
        _ => Seq::empty(),
    }
}

/// The range a count setting permits.
pub open spec fn setting_range(setting: SettingKey) -> Option<(i64, i64)> {
    match setting {
        SettingKey::RecentProjectsShown => Some((0, SettingKey::MAX_RECENT_PROJECTS)),
        _ => None,
    }
}

/// The default of each setting under a mode: accessibility adds nothing,
/// assistance follows the mode, and everything else is fixed.
pub open spec fn setting_default(setting: SettingKey, mode: ExperienceMode) -> SettingValue {
    match setting {
        SettingKey::ReduceMotion | SettingKey::IncreaseContrast | SettingKey::ReduceTransparency => SettingValue::Flag(false),
        SettingKey::ShowAiSuggestions => SettingValue::Flag(mode_suggests(mode)),
        SettingKey::ExplainDecisions => SettingValue::Flag(mode_explains(mode)),
        SettingKey::ConfirmReversibleActions => SettingValue::Flag(mode_confirms(mode)),
        SettingKey::SnapToGrid | SettingKey::AnalyseOnImport | SettingKey::CueOnLoad => SettingValue::Flag(true),
        SettingKey::SnapResolution => SettingValue::Choice("snap.bar"),
        SettingKey::KeyNotation => SettingValue::Choice("notation.camelot"),
        SettingKey::DefaultDeliveryTarget => SettingValue::Choice("target.streaming"),
        SettingKey::RecentProjectsShown => SettingValue::Count(10),
    }
}

/// Whether a setting's default differs under some mode from its default
/// under the standard mode.
pub open spec fn setting_follows_the_mode(setting: SettingKey) -> bool {
    exists|i: int|
        0 <= i < 3 && !same_value(
            setting_default(setting, #[trigger] all_modes()[i]),
            setting_default(setting, ExperienceMode::Standard),
        )
}

/// The stable key of each setting.
pub open spec fn setting_key(setting: SettingKey) -> Seq<char> {
    match setting {
        SettingKey::ReduceMotion => "setting.reduce_motion"@,
        SettingKey::IncreaseContrast => "setting.increase_contrast"@,
        SettingKey::ReduceTransparency => "setting.reduce_transparency"@,
        SettingKey::ShowAiSuggestions => "setting.show_ai_suggestions"@,
        SettingKey::ExplainDecisions => "setting.explain_decisions"@,
        SettingKey::ConfirmReversibleActions => "setting.confirm_reversible_actions"@,
        SettingKey::SnapToGrid => "setting.snap_to_grid"@,
        SettingKey::SnapResolution => "setting.snap_resolution"@,
        SettingKey::AnalyseOnImport => "setting.analyse_on_import"@,
        SettingKey::CueOnLoad => "setting.cue_on_load"@,
        SettingKey::KeyNotation => "setting.key_notation"@,
        SettingKey::DefaultDeliveryTarget => "setting.default_delivery_target"@,
        SettingKey::RecentProjectsShown => "setting.recent_projects_shown"@,
    }
}

impl SettingKey {
    /// The most recent projects that can be listed.
    pub const MAX_RECENT_PROJECTS: i64 = 50;

    /// Every setting, in declaration order.
    pub fn all() -> (all: Vec<SettingKey>)
        ensures
            all@ == all_settings(),
    {
        let all = vec![
            SettingKey::ReduceMotion,
            SettingKey::IncreaseContrast,
            SettingKey::ReduceTransparency,
            SettingKey::ShowAiSuggestions,
            SettingKey::ExplainDecisions,
            SettingKey::ConfirmReversibleActions,
            SettingKey::SnapToGrid,
            SettingKey::SnapResolution,
            SettingKey::AnalyseOnImport,
            SettingKey::CueOnLoad,
            SettingKey::KeyNotation,
            SettingKey::DefaultDeliveryTarget,
            SettingKey::RecentProjectsShown,
        ];
        assert(all@ =~= all_settings());
        all
    }

    /// The setting's position in declaration order.
    pub fn index(self) -> (index: usize)
        ensures
            index == setting_index(self),
            index < 13,
            all_settings()[index as int] == self,
    {
        match self {
            SettingKey::ReduceMotion => 0,
            SettingKey::IncreaseContrast => 1,
            SettingKey::ReduceTransparency => 2,
            SettingKey::ShowAiSuggestions => 3,
            SettingKey::ExplainDecisions => 4,
            SettingKey::ConfirmReversibleActions => 5,
            SettingKey::SnapToGrid => 6,
            SettingKey::SnapResolution => 7,
            SettingKey::AnalyseOnImport => 8,
            SettingKey::CueOnLoad => 9,
            SettingKey::KeyNotation => 10,
            SettingKey::DefaultDeliveryTarget => 11,
            SettingKey::RecentProjectsShown => 12,
        }
    }

    /// What the setting is about.
    pub fn category(self) -> (category: Category)
        ensures
            category == setting_category(self),
    {
        match self {
            SettingKey::ReduceMotion | SettingKey::IncreaseContrast | SettingKey::ReduceTransparency => Category::Accessibility,
            SettingKey::ShowAiSuggestions | SettingKey::ExplainDecisions | SettingKey::ConfirmReversibleActions => Category::Assistance,
            SettingKey::SnapToGrid | SettingKey::SnapResolution | SettingKey::AnalyseOnImport | SettingKey::CueOnLoad => Category::Behaviour,
            SettingKey::KeyNotation | SettingKey::DefaultDeliveryTarget | SettingKey::RecentProjectsShown => Category::Presentation,
        }
    }

    /// The kind of value the setting holds.
    pub fn kind(self) -> (kind: ValueKind)
        ensures
            kind == setting_kind(self),
    {
        match self {
            SettingKey::RecentProjectsShown => ValueKind::Count,
            SettingKey::SnapResolution | SettingKey::KeyNotation | SettingKey::DefaultDeliveryTarget => ValueKind::Choice,
            _ => ValueKind::Flag,
        }
    }

    /// The stable keys a choice setting permits; empty for any other.
    pub fn choices(self) -> (choices: Vec<&'static str>)
        ensures
            choices@.map_values(|choice: &'static str| choice@) == setting_choices(self),
    {
        let choices: Vec<&'static str> = match self {
            SettingKey::SnapResolution => vec!["snap.division", "snap.beat", "snap.bar", "snap.phrase"],
            SettingKey::KeyNotation => vec!["notation.camelot", "notation.standard", "notation.open_key"],
            SettingKey::DefaultDeliveryTarget => vec![
                "target.streaming",
                "target.club",
                "target.broadcast",
                "target.archive",
            ],
            _ => Vec::new(),
        };
        assert(choices@.map_values(|choice: &'static str| choice@) =~= setting_choices(self));
        choices
    }

    /// The inclusive range a count setting permits.
    pub fn range(self) -> (range: Option<(i64, i64)>)
        ensures
            range == setting_range(self),
    {
        match self {
            SettingKey::RecentProjectsShown => Some((0, SettingKey::MAX_RECENT_PROJECTS)),
            _ => None,
        }
    }

    /// The setting's default under a mode.
    pub fn default_for(self, mode: ExperienceMode) -> (value: SettingValue)
        ensures
            value == setting_default(self, mode),
    {
        match self {
            SettingKey::ReduceMotion | SettingKey::IncreaseContrast | SettingKey::ReduceTransparency => SettingValue::Flag(false),
            SettingKey::ShowAiSuggestions => SettingValue::Flag(mode.volunteers_suggestions()),
            SettingKey::ExplainDecisions => SettingValue::Flag(mode.volunteers_explanations()),
            SettingKey::ConfirmReversibleActions => SettingValue::Flag(mode.confirms_reversible_actions()),
            SettingKey::SnapToGrid | SettingKey::AnalyseOnImport | SettingKey::CueOnLoad => SettingValue::Flag(true),
            SettingKey::SnapResolution => SettingValue::Choice("snap.bar"),
            SettingKey::KeyNotation => SettingValue::Choice("notation.camelot"),
            SettingKey::DefaultDeliveryTarget => SettingValue::Choice("target.streaming"),
            SettingKey::RecentProjectsShown => SettingValue::Count(10),
        }
    }

    /// Whether the setting's default depends on the mode.
    pub fn follows_the_mode(self) -> (follows: bool)
        ensures
            follows == setting_follows_the_mode(self),
    {
        let standard = self.default_for(ExperienceMode::Standard);
        let modes = ExperienceMode::all();
        let mut index: usize = 0;
        while index < modes.len()
            invariant
                modes@ == all_modes(),
                index <= 3,
                standard == setting_default(self, ExperienceMode::Standard),
                forall|i: int| 0 <= i < index ==> same_value(
                    setting_default(self, #[trigger] all_modes()[i]),
                    standard,
                ),
            decreases 3 - index,
        {
            if !self.default_for(modes[index]).same_as(standard) {
                return true;
            }
            index += 1;
        }
        false
    }

    /// A stable identifier, for storage.
    pub fn key(self) -> (key: &'static str)
        ensures
            key@ == setting_key(self),
    {
        match self {
            SettingKey::ReduceMotion => "setting.reduce_motion",
            SettingKey::IncreaseContrast => "setting.increase_contrast",
            SettingKey::ReduceTransparency => "setting.reduce_transparency",
            SettingKey::ShowAiSuggestions => "setting.show_ai_suggestions",
            SettingKey::ExplainDecisions => "setting.explain_decisions",
            SettingKey::ConfirmReversibleActions => "setting.confirm_reversible_actions",
            SettingKey::SnapToGrid => "setting.snap_to_grid",
            SettingKey::SnapResolution => "setting.snap_resolution",
            SettingKey::AnalyseOnImport => "setting.analyse_on_import",
            SettingKey::CueOnLoad => "setting.cue_on_load",
            SettingKey::KeyNotation => "setting.key_notation",
            SettingKey::DefaultDeliveryTarget => "setting.default_delivery_target",
            SettingKey::RecentProjectsShown => "setting.recent_projects_shown",
        }
    }

    /// The setting a stored key names: the first whose key matches, or `None`
    /// for a setting this version does not know, which is not an error.
    pub fn from_key(key: &str) -> (setting: Option<SettingKey>)
        ensures
            setting matches Some(found) ==> setting_key(found) == key@ && forall|j: int|
                0 <= j < setting_index(found) ==> setting_key(#[trigger] all_settings()[j]) != key@,
            setting is None ==> forall|i: int| 0 <= i < 13 ==> setting_key(#[trigger] all_settings()[i]) != key@,
    {
        let all = SettingKey::all();
        let mut index: usize = 0;
        while index < all.len()
            invariant
                all@ == all_settings(),
                index <= 13,
                forall|j: int| 0 <= j < index ==> setting_key(#[trigger] all_settings()[j]) != key@,
            decreases 13 - index,
        {
            let setting = all[index];
            if str_equals(setting.key(), key) {
                assert(setting_index(setting) == index);
                return Some(setting);
            }
            index += 1;
        }
        None
    }
}

/// Only assistance settings follow the mode, and every assistance setting
/// does.
pub proof fn lemma_only_assistance_follows_the_mode(setting: SettingKey)
    ensures
        setting_follows_the_mode(setting) <==> setting_category(setting) is Assistance,
{
    if setting_category(setting) is Assistance {
        assert(!same_value(
            setting_default(setting, all_modes()[2]),
            setting_default(setting, ExperienceMode::Standard),
        ) || !same_value(
            setting_default(setting, all_modes()[0]),
            setting_default(setting, ExperienceMode::Standard),
        ));
    } else {
        assert forall|i: int| 0 <= i < 3 implies same_value(
            setting_default(setting, #[trigger] all_modes()[i]),
            setting_default(setting, ExperienceMode::Standard),
        ) by {}
    }
}

/// Every default is of the setting's kind, a choice default is one of the
/// permitted choices, a count default lies inside the setting's range, and an
/// accessibility setting presumes no accommodation.
pub proof fn lemma_defaults_are_permitted(setting: SettingKey, mode: ExperienceMode)
    ensures
        value_kind(setting_default(setting, mode)) == setting_kind(setting),
        setting_default(setting, mode) matches SettingValue::Choice(choice) ==> setting_choices(setting).contains(choice@),
        setting_default(setting, mode) matches SettingValue::Count(count) ==> setting_range(setting) matches Some(
            range,
        ) && range.0 <= count <= range.1,
        setting_category(setting) is Accessibility ==> setting_default(setting, mode) == SettingValue::Flag(false),
        (setting_kind(setting) is Choice) == (setting_choices(setting).len() > 0),
        (setting_kind(setting) is Count) == (setting_range(setting) is Some),
{
    match setting {
        SettingKey::SnapResolution => {
            assert(setting_choices(setting)[2] == "snap.bar"@);
        },
        SettingKey::KeyNotation => {
            assert(setting_choices(setting)[0] == "notation.camelot"@);
        },
        SettingKey::DefaultDeliveryTarget => {
            assert(setting_choices(setting)[0] == "target.streaming"@);
        },
        _ => {},
    }
}

} // verus!
