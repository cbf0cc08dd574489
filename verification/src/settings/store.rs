//! The settings store: a mode, the choices the user made, and what a newer
//! build wrote that this one does not understand.

use vstd::prelude::*;

use crate::settings::accessibility::{Accessibility, PlatformAccessibility};
use crate::settings::mode::ExperienceMode;
use crate::settings::order::{
    bytes_before, bytes_come_before, lemma_bytes_before_irreflexive, lemma_bytes_before_total,
    lemma_bytes_before_transitive,
};
use crate::settings::setting::{
    all_settings, same_value, setting_choices, setting_default, setting_index, setting_key, setting_kind,
    setting_range, value_kind, SettingKey, SettingValue, ValueKind,
};
use crate::text::{decimal, push_decimal, push_str, str_equals};
use vstd::string::StringSliceAdditionalSpecFns;

verus! {

/// Why a setting could not be changed or kept.
#[derive(Debug, Clone, PartialEq, Eq, Structural)]
#[non_exhaustive]
pub enum SettingsError {
    /// The value is of another kind than the setting holds.
    WrongKind {
        /// The setting.
        setting: SettingKey,
        /// The kind it holds.
        expected: ValueKind,
        /// The kind offered.
        found: ValueKind,
    },
    /// The setting does not permit that choice.
    NotPermitted {
        /// The setting.
        setting: SettingKey,
    },
    /// The count lies outside the setting's range.
    OutOfRange {
        /// The setting.
        setting: SettingKey,
        /// The smallest count permitted.
        low: i64,
        /// The largest count permitted.
        high: i64,
    },
    /// An unrecognised setting could not be kept.
    Unkeepable {
        /// Why.
        reason: UnkeepableReason,
    },
}

/// Why an unrecognised setting could not be kept.
#[derive(Debug, Clone, Copy, PartialEq, Eq, Hash, Structural)]
#[non_exhaustive]
pub enum UnkeepableReason {
    /// Its name is empty or too long.
    NameNotUsable,
    /// Its value is too long.
    ValueTooLong,
    /// Too many are kept already.
    TooMany,
}

/// The stable identifier of a kind of value.
pub open spec fn kind_key(kind: ValueKind) -> Seq<char> {
    match kind {
        ValueKind::Flag => "kind.flag"@,
        ValueKind::Count => "kind.count"@,
        ValueKind::Choice => "kind.choice"@,
    }
}

/// How a settings error reads.
pub open spec fn settings_error_text(error: SettingsError) -> Seq<char> {
    match error {
        SettingsError::WrongKind { setting, expected, found } => setting_key(setting) + " holds "@ + kind_key(
            expected,
        ) + ", not "@ + kind_key(found),
        SettingsError::NotPermitted { setting } => setting_key(setting) + " does not permit that value"@,
        SettingsError::OutOfRange { setting, low, high } => setting_key(setting) + " must be between "@ + decimal(
            low as int,
        ) + " and "@ + decimal(high as int),
        SettingsError::Unkeepable { reason } => "an unrecognised setting was not kept ("@ + (match reason {
            UnkeepableReason::NameNotUsable => "NameNotUsable"@,
            UnkeepableReason::ValueTooLong => "ValueTooLong"@,
            UnkeepableReason::TooMany => "TooMany"@,
        }) + ")"@,
    }
}

impl SettingsError {
    /// The error as a person reads it.
    pub fn to_text(self) -> (text: String)
        ensures
            text@ == settings_error_text(self),
    {
        let mut text = String::new();
        match self {
            SettingsError::WrongKind { setting, expected, found } => {
                push_str(&mut text, setting.key());
                push_str(&mut text, " holds ");
                push_str(&mut text, expected.key());
                push_str(&mut text, ", not ");
                push_str(&mut text, found.key());
            },
            SettingsError::NotPermitted { setting } => {
                push_str(&mut text, setting.key());
                push_str(&mut text, " does not permit that value");
            },
            SettingsError::OutOfRange { setting, low, high } => {
                push_str(&mut text, setting.key());
                push_str(&mut text, " must be between ");
                push_decimal(&mut text, low as i128);
                push_str(&mut text, " and ");
                push_decimal(&mut text, high as i128);
            },
            SettingsError::Unkeepable { reason } => {
                push_str(&mut text, "an unrecognised setting was not kept (");
                match reason {
                    UnkeepableReason::NameNotUsable => push_str(&mut text, "NameNotUsable"),
                    UnkeepableReason::ValueTooLong => push_str(&mut text, "ValueTooLong"),
                    UnkeepableReason::TooMany => push_str(&mut text, "TooMany"),
                }
                push_str(&mut text, ")");
            },
        }
        assert(text@ =~= settings_error_text(self));
        text
    }
}

/// A setting written by a newer build, kept as text and written back whole.
#[derive(Debug, PartialEq, Eq)]
pub struct UnknownSetting {
    name: String,
    value: String,
}

impl UnknownSetting {
    /// Its name.
    pub closed spec fn spec_name(&self) -> Seq<char> {
        self.name@
    }

    /// Its value.
    pub closed spec fn spec_value(&self) -> Seq<char> {
        self.value@
    }

    /// Its name.
    pub fn name(&self) -> (name: &str)
        ensures
            name@ == self.spec_name(),
    {
        self.name.as_str()
    }

    /// Its value.
    pub fn value(&self) -> (value: &str)
        ensures
            value@ == self.spec_value(),
    {
        self.value.as_str()
    }
}

impl Clone for UnknownSetting {
    /// The same name and value.
    fn clone(&self) -> (copy: UnknownSetting)
        ensures
            copy.spec_name() == self.spec_name(),
            copy.spec_value() == self.spec_value(),
    {
        UnknownSetting { name: self.name.clone(), value: self.value.clone() }
    }
}

/// The order unknown settings are kept in: by the UTF-8 bytes of their names.
pub open spec fn name_before(a: Seq<char>, b: Seq<char>) -> bool {
    bytes_before(vstd::utf8::encode_utf8(a), vstd::utf8::encode_utf8(b))
}

/// Unknown settings as name and value pairs.
pub open spec fn unknown_pairs(unknown: Seq<UnknownSetting>) -> Seq<(Seq<char>, Seq<char>)> {
    unknown.map_values(|entry: UnknownSetting| (entry.spec_name(), entry.spec_value()))
}

/// Names strictly ascending, so each is kept once.
pub open spec fn names_in_order(pairs: Seq<(Seq<char>, Seq<char>)>) -> bool {
    forall|i: int, j: int| 0 <= i < j < pairs.len() ==> name_before(pairs[i].0, pairs[j].0)
}

/// In names kept in order, the entry at an index is the only one with its
/// name.
proof fn lemma_named_entry_is_the_kept_one(pairs: Seq<(Seq<char>, Seq<char>)>, index: int)
    requires
        names_in_order(pairs),
        0 <= index < pairs.len(),
    ensures
        forall|j: int| 0 <= j < pairs.len() && (#[trigger] pairs[j]).0 == pairs[index].0 ==> j == index,
{
    assert forall|j: int| 0 <= j < pairs.len() && (#[trigger] pairs[j]).0 == pairs[index].0 implies j == index by {
        if j != index {
            lemma_each_name_kept_once(pairs, j, index);
        }
    }
}

/// Names in order are each kept once: two different entries never share a
/// name, so a name kept again replaces its value rather than adding a second.
pub proof fn lemma_each_name_kept_once(pairs: Seq<(Seq<char>, Seq<char>)>, i: int, j: int)
    requires
        names_in_order(pairs),
        0 <= i < pairs.len(),
        0 <= j < pairs.len(),
        i != j,
    ensures
        pairs[i].0 != pairs[j].0,
{
    if i < j {
        assert(name_before(pairs[i].0, pairs[j].0));
    } else {
        assert(name_before(pairs[j].0, pairs[i].0));
    }
    if pairs[i].0 == pairs[j].0 {
        lemma_bytes_before_irreflexive(vstd::utf8::encode_utf8(pairs[i].0));
    }
}

/// Whether a name is kept.
pub open spec fn names_include(pairs: Seq<(Seq<char>, Seq<char>)>, name: Seq<char>) -> bool {
    exists|i: int| 0 <= i < pairs.len() && (#[trigger] pairs[i]).0 == name
}

/// How many kept names come before a name.
pub open spec fn names_below(pairs: Seq<(Seq<char>, Seq<char>)>, name: Seq<char>) -> int
    decreases pairs.len(),
{
    if pairs.len() == 0 {
        0
    } else {
        names_below(pairs.drop_last(), name) + (if name_before(pairs.last().0, name) {
            1int
        } else {
            0int
        })
    }
}

/// The chosen values in declaration order of their settings, as pairs, over
/// the first `count` settings.
pub open spec fn chosen_pairs(chosen: Seq<Option<SettingValue>>, count: int) -> Seq<(SettingKey, SettingValue)>
    decreases count,
{
    if count <= 0 {
        Seq::empty()
    } else {
        let earlier = chosen_pairs(chosen, count - 1);
        match chosen[count - 1] {
            Some(value) => earlier.push((all_settings()[count - 1], value)),
            None => earlier,
        }
    }
}

/// Whether a count lies outside a setting's range.
pub open spec fn out_of_range(setting: SettingKey, value: SettingValue) -> bool {
    value matches SettingValue::Count(count) && setting_range(setting) matches Some(range) && !(range.0 <= count
        <= range.1)
}

/// Whether a choice is not one the setting permits.
pub open spec fn not_permitted(setting: SettingKey, value: SettingValue) -> bool {
    value matches SettingValue::Choice(choice) && !setting_choices(setting).contains(choice@)
}

/// The user's settings.
///
/// Only choices are stored: a setting the user never touched follows the
/// mode, and changing the mode never discards a choice. Settings written by a
/// newer build are kept and written back whole.
#[derive(Debug, PartialEq, Eq)]
pub struct Settings {
    mode: ExperienceMode,
    chosen: Vec<Option<SettingValue>>,
    unknown: Vec<UnknownSetting>,
}

impl Settings {
    /// The longest unknown name kept, in bytes.
    pub const MAX_UNKNOWN_NAME: usize = 128;

    /// The longest unknown value kept, in bytes.
    pub const MAX_UNKNOWN_VALUE: usize = 1024;

    /// The most unknown settings kept.
    pub const MAX_UNKNOWN: usize = 256;

    #[verifier::type_invariant]
    spec fn consistent(self) -> bool {
        &&& self.chosen@.len() == 13
        &&& names_in_order(unknown_pairs(self.unknown@))
        &&& self.unknown@.len() <= Settings::MAX_UNKNOWN
    }

    /// The mode.
    pub closed spec fn spec_mode(&self) -> ExperienceMode {
        self.mode
    }

    /// What the user chose for a setting, if anything.
    pub closed spec fn spec_chosen(&self, setting: SettingKey) -> Option<SettingValue> {
        self.chosen@[setting_index(setting)]
    }

    /// Every slot of chosen values, in declaration order of the settings.
    pub closed spec fn spec_slots(&self) -> Seq<Option<SettingValue>> {
        self.chosen@
    }

    /// The unknown settings kept, as name and value pairs, ordered by name.
    pub closed spec fn spec_unknown(&self) -> Seq<(Seq<char>, Seq<char>)> {
        unknown_pairs(self.unknown@)
    }

    /// A setting's value: what the user chose, or else its default under the
    /// mode.
    pub open spec fn spec_get(&self, setting: SettingKey) -> SettingValue {
        match self.spec_chosen(setting) {
            Some(value) => value,
            None => setting_default(setting, self.spec_mode()),
        }
    }

    /// Every slot is a setting's choice.
    pub proof fn lemma_slots(&self, setting: SettingKey)
        ensures
            self.spec_slots()[setting_index(setting)] == self.spec_chosen(setting),
    {
    }

    /// The standard mode, nothing chosen, nothing unknown.
    pub fn new() -> (settings: Settings)
        ensures
            settings.spec_mode() == ExperienceMode::Standard,
            forall|setting: SettingKey| #[trigger] settings.spec_chosen(setting) is None,
            settings.spec_unknown() == Seq::<(Seq<char>, Seq<char>)>::empty(),
    {
        let settings = Settings { mode: ExperienceMode::Standard, chosen: nothing_chosen(), unknown: Vec::new() };
        assert(unknown_pairs(settings.unknown@) =~= Seq::<(Seq<char>, Seq<char>)>::empty());
        settings
    }

    /// The mode.
    pub fn mode(&self) -> (mode: ExperienceMode)
        ensures
            mode == self.spec_mode(),
    {
        self.mode
    }

    /// Changes the mode. No choice the user made is discarded, and nothing
    /// else changes.
    pub fn set_mode(&mut self, mode: ExperienceMode)
        ensures
            final(self).spec_mode() == mode,
            forall|setting: SettingKey| #[trigger] final(self).spec_chosen(setting) == old(self).spec_chosen(setting),
            final(self).spec_unknown() == old(self).spec_unknown(),
    {
        proof {
            use_type_invariant(&*self);
        }
        self.mode = mode;
    }

    /// A setting's value: the user's choice, or else its default under the
    /// mode.
    pub fn get(&self, setting: SettingKey) -> (value: SettingValue)
        ensures
            value == self.spec_get(setting),
    {
        proof {
            use_type_invariant(self);
        }
        match self.chosen[setting.index()] {
            Some(value) => value,
            None => setting.default_for(self.mode),
        }
    }

    /// A flag setting's value; `false` for a setting of another kind.
    pub open spec fn spec_flag(&self, setting: SettingKey) -> bool {
        match self.spec_get(setting) {
            SettingValue::Flag(value) => value,
            _ => false,
        }
    }

    /// A flag setting's value; `false` for a setting of another kind.
    pub fn flag(&self, setting: SettingKey) -> (flag: bool)
        ensures
            flag == self.spec_flag(setting),
    {
        match self.get(setting).as_flag() {
            Some(value) => value,
            None => false,
        }
    }

    /// A choice setting's value, if it is one.
    pub fn choice(&self, setting: SettingKey) -> (choice: Option<&'static str>)
        ensures
            choice == (match self.spec_get(setting) {
                SettingValue::Choice(value) => Some(value),
                _ => None,
            }),
    {
        self.get(setting).as_choice()
    }

    /// A count setting's value, if it is one.
    pub fn count(&self, setting: SettingKey) -> (count: Option<i64>)
        ensures
            count == (match self.spec_get(setting) {
                SettingValue::Count(value) => Some(value),
                _ => None,
            }),
    {
        self.get(setting).as_count()
    }

    /// Whether the user chose a value for a setting.
    pub fn is_chosen(&self, setting: SettingKey) -> (chosen: bool)
        ensures
            chosen == self.spec_chosen(setting) is Some,
    {
        proof {
            use_type_invariant(self);
        }
        self.chosen[setting.index()].is_some()
    }

    /// Records a choice. Refused, changing nothing, when the value is of the
    /// wrong kind, a count outside the setting's range, or a choice the
    /// setting does not permit — checked in that order.
    pub fn set(&mut self, setting: SettingKey, value: SettingValue) -> (result: Result<(), SettingsError>)
        ensures
            value_kind(value) != setting_kind(setting) ==> result == Err::<(), SettingsError>(
                SettingsError::WrongKind { setting, expected: setting_kind(setting), found: value_kind(value) },
            ),
            value_kind(value) == setting_kind(setting) && out_of_range(setting, value) ==> result == Err::<
                (),
                SettingsError,
            >(
                SettingsError::OutOfRange {
                    setting,
                    low: setting_range(setting).unwrap().0,
                    high: setting_range(setting).unwrap().1,
                },
            ),
            value_kind(value) == setting_kind(setting) && !out_of_range(setting, value) && not_permitted(
                setting,
                value,
            ) ==> result == Err::<(), SettingsError>(SettingsError::NotPermitted { setting }),
            result is Err ==> *final(self) == *old(self),
            result is Ok <==> value_kind(value) == setting_kind(setting) && !out_of_range(setting, value)
                && !not_permitted(setting, value),
            result is Ok ==> final(self).spec_mode() == old(self).spec_mode() && final(self).spec_unknown()
                == old(self).spec_unknown() && forall|other: SettingKey| #[trigger] final(self).spec_chosen(other)
                == if other == setting {
                Some(value)
            } else {
                old(self).spec_chosen(other)
            },
    {
        proof {
            use_type_invariant(&*self);
        }
        let kind = setting.kind();
        let found = value.kind();
        if found != kind {
            return Err(SettingsError::WrongKind { setting, expected: kind, found });
        }
        if let SettingValue::Count(count) = value {
            if let Some((low, high)) = setting.range() {
                if !(low <= count && count <= high) {
                    return Err(SettingsError::OutOfRange { setting, low, high });
                }
            }
        }
        if let SettingValue::Choice(choice) = value {
            if !Settings::is_permitted(setting, choice) {
                return Err(SettingsError::NotPermitted { setting });
            }
        }
        self.store(setting, value);
        Ok(())
    }

    /// Whether a choice is one of the setting's permitted choices.
    fn is_permitted(setting: SettingKey, choice: &str) -> (permitted: bool)
        ensures
            permitted == setting_choices(setting).contains(choice@),
    {
        let choices = setting.choices();
        let ghost names = setting_choices(setting);
        let mut index: usize = 0;
        while index < choices.len()
            invariant
                choices@.map_values(|candidate: &'static str| candidate@) == names,
                names == setting_choices(setting),
                index <= choices@.len(),
                forall|i: int| 0 <= i < index ==> names[i] != choice@,
            decreases choices@.len() - index,
        {
            assert(names[index as int] == choices@[index as int]@);
            if str_equals(choices[index], choice) {
                assert(names.contains(choice@)) by {
                    assert(names[index as int] == choice@);
                }
                return true;
            }
            index += 1;
        }
        proof {
            if names.contains(choice@) {
                let i = choose|i: int| 0 <= i < names.len() && names[i] == choice@;
            }
        }
        false
    }

    /// Stores a choice for a setting.
    fn store(&mut self, setting: SettingKey, value: SettingValue)
        ensures
            final(self).spec_mode() == old(self).spec_mode(),
            final(self).spec_unknown() == old(self).spec_unknown(),
            forall|other: SettingKey| #[trigger] final(self).spec_chosen(other) == if other == setting {
                Some(value)
            } else {
                old(self).spec_chosen(other)
            },
    {
        proof {
            use_type_invariant(&*self);
        }
        self.chosen = replaced(&self.chosen, setting.index(), Some(value));
        proof {
            assert forall|other: SettingKey| #[trigger] self.chosen@[setting_index(other)] == if other == setting {
                Some(value)
            } else {
                old(self).chosen@[setting_index(other)]
            } by {
                lemma_setting_index_distinct(other, setting);
            }
        }
    }

    /// Records one of a choice setting's permitted choices, by name; the
    /// stored value is the setting's own key for it.
    pub fn set_choice(&mut self, setting: SettingKey, name: &str) -> (result: Result<(), SettingsError>)
        ensures
            !(setting_kind(setting) is Choice) ==> result == Err::<(), SettingsError>(
                SettingsError::WrongKind { setting, expected: setting_kind(setting), found: ValueKind::Choice },
            ),
            setting_kind(setting) is Choice && !setting_choices(setting).contains(name@) ==> result == Err::<
                (),
                SettingsError,
            >(SettingsError::NotPermitted { setting }),
            result is Err ==> *final(self) == *old(self),
            result is Ok <==> setting_kind(setting) is Choice && setting_choices(setting).contains(name@),
            result is Ok ==> final(self).spec_mode() == old(self).spec_mode() && final(self).spec_unknown()
                == old(self).spec_unknown() && (final(self).spec_chosen(setting) matches Some(
                SettingValue::Choice(stored),
            ) && stored@ == name@) && forall|other: SettingKey|
                other != setting ==> #[trigger] final(self).spec_chosen(other) == old(self).spec_chosen(other),
    {
        let kind = setting.kind();
        if kind != ValueKind::Choice {
            return Err(SettingsError::WrongKind { setting, expected: kind, found: ValueKind::Choice });
        }
        let choices = setting.choices();
        let ghost names = setting_choices(setting);
        let mut index: usize = 0;
        while index < choices.len()
            invariant
                choices@.map_values(|candidate: &'static str| candidate@) == names,
                names == setting_choices(setting),
                setting_kind(setting) is Choice,
                index <= choices@.len(),
                *self == *old(self),
                forall|i: int| 0 <= i < index ==> names[i] != name@,
            decreases choices@.len() - index,
        {
            let candidate = choices[index];
            assert(names[index as int] == candidate@);
            if str_equals(candidate, name) {
                assert(names.contains(name@)) by {
                    assert(names[index as int] == name@);
                }
                self.store(setting, SettingValue::Choice(candidate));
                return Ok(());
            }
            index += 1;
        }
        proof {
            if names.contains(name@) {
                let i = choose|i: int| 0 <= i < names.len() && names[i] == name@;
            }
        }
        Err(SettingsError::NotPermitted { setting })
    }

    /// Withdraws a choice, so the setting follows the mode again. Returns
    /// whether there was one.
    pub fn clear(&mut self, setting: SettingKey) -> (cleared: bool)
        ensures
            cleared == old(self).spec_chosen(setting) is Some,
            final(self).spec_mode() == old(self).spec_mode(),
            final(self).spec_unknown() == old(self).spec_unknown(),
            forall|other: SettingKey| #[trigger] final(self).spec_chosen(other) == if other == setting {
                None
            } else {
                old(self).spec_chosen(other)
            },
    {
        proof {
            use_type_invariant(&*self);
        }
        let was = self.chosen[setting.index()].is_some();
        self.chosen = replaced(&self.chosen, setting.index(), None);
        proof {
            assert forall|other: SettingKey| #[trigger] self.chosen@[setting_index(other)] == if other == setting {
                None
            } else {
                old(self).chosen@[setting_index(other)]
            } by {
                lemma_setting_index_distinct(other, setting);
            }
        }
        was
    }

    /// Withdraws every choice. Unknown settings are kept: they are not this
    /// build's to discard.
    pub fn clear_all(&mut self)
        ensures
            final(self).spec_mode() == old(self).spec_mode(),
            final(self).spec_unknown() == old(self).spec_unknown(),
            forall|setting: SettingKey| #[trigger] final(self).spec_chosen(setting) is None,
    {
        proof {
            use_type_invariant(&*self);
        }
        self.chosen = nothing_chosen();
    }

    /// The choices made, in declaration order of their settings.
    pub fn chosen(&self) -> (chosen: Vec<(SettingKey, SettingValue)>)
        ensures
            chosen@ == chosen_pairs(self.spec_slots(), 13),
    {
        proof {
            use_type_invariant(self);
        }
        let all = SettingKey::all();
        let mut pairs: Vec<(SettingKey, SettingValue)> = Vec::new();
        let mut index: usize = 0;
        while index < 13
            invariant
                all@ == all_settings(),
                self.chosen@.len() == 13,
                index <= 13,
                pairs@ == chosen_pairs(self.chosen@, index as int),
            decreases 13 - index,
        {
            if let Some(value) = self.chosen[index] {
                pairs.push((all[index], value));
            }
            index += 1;
        }
        pairs
    }

    /// Keeps a setting this build does not recognise, so that it is written
    /// back whole. A name seen again keeps the later value; otherwise the
    /// setting takes its place in name order. Refused, changing nothing, when
    /// the name is empty or longer than `MAX_UNKNOWN_NAME` bytes, when the
    /// value is longer than `MAX_UNKNOWN_VALUE` bytes, or when `MAX_UNKNOWN`
    /// are kept already — checked in that order.
    pub fn keep_unknown(&mut self, name: &str, value: &str) -> (result: Result<(), SettingsError>)
        ensures
            (name@.len() == 0 || name.spec_bytes().len() as usize > Settings::MAX_UNKNOWN_NAME) ==> result == Err::<
                (),
                SettingsError,
            >(SettingsError::Unkeepable { reason: UnkeepableReason::NameNotUsable }),
            !(name@.len() == 0 || name.spec_bytes().len() as usize > Settings::MAX_UNKNOWN_NAME)
                && value.spec_bytes().len() as usize > Settings::MAX_UNKNOWN_VALUE ==> result == Err::<
                (),
                SettingsError,
            >(SettingsError::Unkeepable { reason: UnkeepableReason::ValueTooLong }),
            !(name@.len() == 0 || name.spec_bytes().len() as usize > Settings::MAX_UNKNOWN_NAME)
                && value.spec_bytes().len() as usize <= Settings::MAX_UNKNOWN_VALUE && !names_include(
                old(self).spec_unknown(),
                name@,
            ) && old(self).spec_unknown().len() >= Settings::MAX_UNKNOWN ==> result == Err::<(), SettingsError>(
                SettingsError::Unkeepable { reason: UnkeepableReason::TooMany },
            ),
            result is Err ==> *final(self) == *old(self),
            result is Ok ==> final(self).spec_mode() == old(self).spec_mode() && forall|setting: SettingKey|
                #[trigger] final(self).spec_chosen(setting) == old(self).spec_chosen(setting),
            result is Ok && names_include(old(self).spec_unknown(), name@) ==> final(self).spec_unknown().len()
                == old(self).spec_unknown().len() && forall|k: int|
                0 <= k < old(self).spec_unknown().len() ==> #[trigger] final(self).spec_unknown()[k] == if old(
                    self,
                ).spec_unknown()[k].0 == name@ {
                    (name@, value@)
                } else {
                    old(self).spec_unknown()[k]
                },
            result is Ok && !names_include(old(self).spec_unknown(), name@) ==> final(self).spec_unknown() == old(
                self,
            ).spec_unknown().insert(names_below(old(self).spec_unknown(), name@), (name@, value@)),
            result is Ok <==> !(name@.len() == 0 || name.spec_bytes().len() as usize > Settings::MAX_UNKNOWN_NAME)
                && value.spec_bytes().len() as usize <= Settings::MAX_UNKNOWN_VALUE && (names_include(
                old(self).spec_unknown(),
                name@,
            ) || old(self).spec_unknown().len() < Settings::MAX_UNKNOWN),
            names_in_order(old(self).spec_unknown()),
            names_in_order(final(self).spec_unknown()),
            result is Ok ==> exists|k: int|
                0 <= k < final(self).spec_unknown().len() && #[trigger] final(self).spec_unknown()[k] == (name@, value@),
            result is Ok ==> forall|j: int|
                0 <= j < final(self).spec_unknown().len() && (#[trigger] final(self).spec_unknown()[j]).0 == name@
                    ==> final(self).spec_unknown()[j] == (name@, value@),
            result is Ok ==> forall|i: int, j: int|
                0 <= i < final(self).spec_unknown().len() && 0 <= j < final(self).spec_unknown().len()
                    && (#[trigger] final(self).spec_unknown()[i]).0 == name@
                    && (#[trigger] final(self).spec_unknown()[j]).0 == name@ ==> i == j,
            result is Ok ==> final(self).spec_unknown().len() == old(self).spec_unknown().len() + (if names_include(
                old(self).spec_unknown(),
                name@,
            ) {
                0int
            } else {
                1int
            }),
    {
        proof {
            use_type_invariant(&*self);
        }
        if name.is_empty() || name.len() > Settings::MAX_UNKNOWN_NAME {
            return Err(SettingsError::Unkeepable { reason: UnkeepableReason::NameNotUsable });
        }
        if value.len() > Settings::MAX_UNKNOWN_VALUE {
            return Err(SettingsError::Unkeepable { reason: UnkeepableReason::ValueTooLong });
        }
        let ghost pairs = unknown_pairs(self.unknown@);
        let mut index: usize = 0;
        while index < self.unknown.len()
            invariant
                pairs == unknown_pairs(self.unknown@),
                names_in_order(pairs),
                self.unknown@.len() <= Settings::MAX_UNKNOWN,
                !(name@.len() == 0 || name.spec_bytes().len() as usize > Settings::MAX_UNKNOWN_NAME),
                value.spec_bytes().len() as usize <= Settings::MAX_UNKNOWN_VALUE,
                *self == *old(self),
                index <= self.unknown@.len(),
                forall|k: int| 0 <= k < index ==> (#[trigger] pairs[k]).0 != name@,
            decreases self.unknown@.len() - index,
        {
            if str_equals(self.unknown[index].name.as_str(), name) {
                assert(pairs[index as int].0 == name@);
                let entry = UnknownSetting { name: name.to_owned(), value: value.to_owned() };
                let updated = with_entry(&self.unknown, index, entry, true);
                proof {
                    lemma_replace_keeps_order(pairs, index as int, (name@, value@));
                    assert forall|k: int| 0 <= k < pairs.len() implies (pairs[k].0 == name@) == (k == index) by {
                        if pairs[k].0 == name@ && k != index {
                            if k < index {
                                assert(name_before(pairs[k].0, pairs[index as int].0));
                            } else {
                                assert(name_before(pairs[index as int].0, pairs[k].0));
                            }
                            lemma_bytes_before_irreflexive(vstd::utf8::encode_utf8(name@));
                        }
                    }
                    use_type_invariant(&*self);
                    assert(unknown_pairs(updated@) == pairs.update(index as int, (name@, value@)));
                    assert(names_in_order(unknown_pairs(updated@)));
                    assert(updated@.len() == unknown_pairs(updated@).len());
                    assert(updated@.len() <= Settings::MAX_UNKNOWN);
                    assert(unknown_pairs(updated@)[index as int] == (name@, value@));
                }
                self.unknown = updated;
                proof {
                    lemma_named_entry_is_the_kept_one(unknown_pairs(self.unknown@), index as int);
                    assert(self.spec_unknown()[index as int] == (name@, value@));
                }
                return Ok(());
            }
            index += 1;
        }
        proof {
            if names_include(pairs, name@) {
                let k = choose|k: int| 0 <= k < pairs.len() && (#[trigger] pairs[k]).0 == name@;
            }
        }
        if self.unknown.len() >= Settings::MAX_UNKNOWN {
            return Err(SettingsError::Unkeepable { reason: UnkeepableReason::TooMany });
        }
        let mut at: usize = 0;
        while at < self.unknown.len() && bytes_come_before(self.unknown[at].name.as_str().as_bytes(), name.as_bytes())
            invariant
                pairs == unknown_pairs(self.unknown@),
                names_in_order(pairs),
                self.unknown@.len() < Settings::MAX_UNKNOWN,
                !names_include(pairs, name@),
                *self == *old(self),
                at <= self.unknown@.len(),
                forall|k: int| 0 <= k < at ==> name_before((#[trigger] pairs[k]).0, name@),
            decreases self.unknown@.len() - at,
        {
            at += 1;
        }
        let entry = UnknownSetting { name: name.to_owned(), value: value.to_owned() };
        let inserted = with_entry(&self.unknown, at, entry, false);
        proof {
            lemma_insert_keeps_order(pairs, at as int, (name@, value@));
            pairs.insert_ensures(at as int, (name@, value@));
            use_type_invariant(&*self);
            assert(unknown_pairs(inserted@) == pairs.insert(at as int, (name@, value@)));
            assert(names_in_order(unknown_pairs(inserted@)));
            assert(inserted@.len() == unknown_pairs(inserted@).len());
            assert(inserted@.len() <= Settings::MAX_UNKNOWN);
            assert(unknown_pairs(inserted@)[at as int] == (name@, value@));
        }
        self.unknown = inserted;
        proof {
            lemma_named_entry_is_the_kept_one(unknown_pairs(self.unknown@), at as int);
            assert(self.spec_unknown()[at as int] == (name@, value@));
        }
        Ok(())
    }

    /// The unknown settings kept, ordered by name.
    pub fn unknown(&self) -> (unknown: &[UnknownSetting])
        ensures
            unknown_pairs(unknown@) == self.spec_unknown(),
            names_in_order(self.spec_unknown()),
    {
        proof {
            use_type_invariant(self);
        }
        self.unknown.as_slice()
    }

    /// The accommodations in force: what the platform reports, joined with
    /// the user's accessibility preferences. A preference can only add to the
    /// platform's answer.
    pub fn accessibility<S>(&self, platform: PlatformAccessibility<S>) -> (accessibility: Accessibility<S>)
        ensures
            accessibility.spec_platform() == platform,
            accessibility.spec_requested() == (
                self.spec_flag(SettingKey::ReduceMotion),
                self.spec_flag(SettingKey::IncreaseContrast),
                self.spec_flag(SettingKey::ReduceTransparency),
            ),
    {
        let mut accessibility = Accessibility::from_platform(platform);
        accessibility.request_reduced_motion(self.flag(SettingKey::ReduceMotion));
        accessibility.request_increased_contrast(self.flag(SettingKey::IncreaseContrast));
        accessibility.request_reduced_transparency(self.flag(SettingKey::ReduceTransparency));
        accessibility
    }
}

/// No settings document can withdraw an accommodation the platform asked
/// for: whatever the user chose and whatever the mode, the joined answer
/// keeps every restraint the platform reported.
pub proof fn lemma_an_accommodation_survives_every_preference<S>(
    settings: Settings,
    platform: PlatformAccessibility<S>,
    accessibility: Accessibility<S>,
)
    requires
        accessibility.spec_platform() == platform,
        accessibility.spec_requested() == (
            settings.spec_flag(SettingKey::ReduceMotion),
            settings.spec_flag(SettingKey::IncreaseContrast),
            settings.spec_flag(SettingKey::ReduceTransparency),
        ),
    ensures
        platform.reduce_motion ==> accessibility.spec_reduce_motion(),
        platform.increase_contrast ==> accessibility.spec_increase_contrast(),
        platform.reduce_transparency ==> accessibility.spec_reduce_transparency(),
{
}

impl Clone for Settings {
    /// The same mode, choices and unknown settings.
    fn clone(&self) -> (copy: Settings)
        ensures
            copy.spec_mode() == self.spec_mode(),
            copy.spec_slots() == self.spec_slots(),
            copy.spec_unknown() == self.spec_unknown(),
    {
        proof {
            use_type_invariant(self);
        }
        let mut chosen: Vec<Option<SettingValue>> = Vec::new();
        let mut index: usize = 0;
        while index < self.chosen.len()
            invariant
                index <= self.chosen@.len(),
                chosen@ == self.chosen@.take(index as int),
            decreases self.chosen@.len() - index,
        {
            chosen.push(self.chosen[index]);
            index += 1;
            assert(chosen@ =~= self.chosen@.take(index as int));
        }
        assert(self.chosen@.take(self.chosen@.len() as int) =~= self.chosen@);
        let mut unknown: Vec<UnknownSetting> = Vec::new();
        let mut index: usize = 0;
        while index < self.unknown.len()
            invariant
                index <= self.unknown@.len(),
                unknown_pairs(unknown@) == unknown_pairs(self.unknown@).take(index as int),
            decreases self.unknown@.len() - index,
        {
            let cloned = self.unknown[index].clone();
            proof {
                lemma_pairs_push(unknown@, cloned);
                assert(unknown_pairs(self.unknown@).take(index as int + 1) =~= unknown_pairs(self.unknown@).take(
                    index as int,
                ).push(unknown_pairs(self.unknown@)[index as int]));
            }
            unknown.push(cloned);
            index += 1;
        }
        assert(unknown_pairs(self.unknown@).take(self.unknown@.len() as int) =~= unknown_pairs(self.unknown@));
        Settings { mode: self.mode, chosen, unknown }
    }
}

impl Default for Settings {
    /// The standard mode, nothing chosen, nothing unknown.
    fn default() -> (settings: Settings)
        ensures
            settings.spec_mode() == ExperienceMode::Standard,
            forall|setting: SettingKey| #[trigger] settings.spec_chosen(setting) is None,
            settings.spec_unknown() == Seq::<(Seq<char>, Seq<char>)>::empty(),
    {
        Settings::new()
    }
}

/// A mode changes only assistance: a setting of any other category has the
/// same value under every mode unless the user chose one, and a choice the
/// user made holds under every mode.
pub proof fn lemma_mode_changes_only_assistance(settings: Settings, other: Settings, setting: SettingKey)
    requires
        forall|key: SettingKey| #[trigger] other.spec_chosen(key) == settings.spec_chosen(key),
        !(crate::settings::setting::setting_category(setting) is Assistance) || settings.spec_chosen(setting) is Some,
    ensures
        other.spec_get(setting) == settings.spec_get(setting),
{
}

/// A slot for every setting, none chosen.
fn nothing_chosen() -> (slots: Vec<Option<SettingValue>>)
    ensures
        slots@.len() == 13,
        forall|i: int| 0 <= i < 13 ==> slots@[i] is None,
{
    let mut slots: Vec<Option<SettingValue>> = Vec::new();
    let mut index: usize = 0;
    while index < 13
        invariant
            index <= 13,
            slots@.len() == index,
            forall|i: int| 0 <= i < index ==> slots@[i] is None,
        decreases 13 - index,
    {
        slots.push(None);
        index += 1;
    }
    slots
}

/// A copy of some slots with one replaced.
fn replaced(slots: &Vec<Option<SettingValue>>, at: usize, value: Option<SettingValue>) -> (copy: Vec<
    Option<SettingValue>,
>)
    requires
        at < slots@.len(),
    ensures
        copy@ == slots@.update(at as int, value),
{
    let mut copy: Vec<Option<SettingValue>> = Vec::new();
    let mut index: usize = 0;
    while index < slots.len()
        invariant
            index <= slots@.len(),
            at < slots@.len(),
            copy@ == slots@.update(at as int, value).take(index as int),
        decreases slots@.len() - index,
    {
        if index == at {
            copy.push(value);
        } else {
            copy.push(slots[index]);
        }
        index += 1;
        assert(copy@ =~= slots@.update(at as int, value).take(index as int));
    }
    assert(slots@.update(at as int, value).take(slots@.len() as int) =~= slots@.update(at as int, value));
    copy
}

/// A copy of some unknown settings with one replaced, or inserted before the
/// one at `at`.
fn with_entry(entries: &Vec<UnknownSetting>, at: usize, entry: UnknownSetting, replace: bool) -> (copy: Vec<
    UnknownSetting,
>)
    requires
        replace ==> at < entries@.len(),
        !replace ==> at <= entries@.len(),
    ensures
        replace ==> unknown_pairs(copy@) == unknown_pairs(entries@).update(
            at as int,
            (entry.spec_name(), entry.spec_value()),
        ),
        !replace ==> unknown_pairs(copy@) == unknown_pairs(entries@).insert(
            at as int,
            (entry.spec_name(), entry.spec_value()),
        ),
{
    let ghost pair = (entry.spec_name(), entry.spec_value());
    let ghost target = if replace {
        unknown_pairs(entries@).update(at as int, pair)
    } else {
        unknown_pairs(entries@).insert(at as int, pair)
    };
    proof {
        if !replace {
            unknown_pairs(entries@).insert_ensures(at as int, pair);
        }
    }
    let length = entries.len();
    let mut copy: Vec<UnknownSetting> = Vec::new();
    let mut index: usize = 0;
    while index < at
        invariant
            index <= at <= entries@.len(),
            replace ==> at < entries@.len(),
            target.len() == entries@.len() + (if replace { 0int } else { 1int }),
            pair == (entry.spec_name(), entry.spec_value()),
            target == (if replace {
                unknown_pairs(entries@).update(at as int, pair)
            } else {
                unknown_pairs(entries@).insert(at as int, pair)
            }),
            unknown_pairs(copy@) == target.take(index as int),
        decreases at - index,
    {
        let cloned = entries[index].clone();
        proof {
            lemma_pairs_push(copy@, cloned);
            if !replace {
                unknown_pairs(entries@).insert_ensures(at as int, pair);
            }
            assert(target[index as int] == unknown_pairs(entries@)[index as int]);
            assert(target.take(index as int + 1) =~= target.take(index as int).push(target[index as int]));
        }
        copy.push(cloned);
        index += 1;
    }
    let next = if replace { at + 1 } else { at };
    proof {
        lemma_pairs_push(copy@, entry);
        assert(target.take(at as int + 1) =~= target.take(at as int).push(target[at as int]));
    }
    copy.push(entry);
    let mut index: usize = next;
    while index < entries.len()
        invariant
            next <= index <= entries@.len(),
            next == (if replace { at + 1 } else { at as int }),
            target.len() == entries@.len() + (if replace { 0int } else { 1int }),
            replace ==> at < entries@.len(),
            target == (if replace {
                unknown_pairs(entries@).update(at as int, pair)
            } else {
                unknown_pairs(entries@).insert(at as int, pair)
            }),
            unknown_pairs(copy@) == target.take(index + (if replace { 0int } else { 1int })),
        decreases entries@.len() - index,
    {
        let cloned = entries[index].clone();
        proof {
            let taken = index + (if replace { 0int } else { 1int });
            if !replace {
                unknown_pairs(entries@).insert_ensures(at as int, pair);
            }
            lemma_pairs_push(copy@, cloned);
            assert(target.take(taken + 1) =~= target.take(taken).push(target[taken]));
            assert(target[taken] == unknown_pairs(entries@)[index as int]);
        }
        copy.push(cloned);
        index += 1;
    }
    assert(target.take(entries@.len() + (if replace { 0int } else { 1int })) =~= target);
    copy
}

/// Appending an unknown setting appends its pair.
proof fn lemma_pairs_push(entries: Seq<UnknownSetting>, entry: UnknownSetting)
    ensures
        unknown_pairs(entries.push(entry)) == unknown_pairs(entries).push((entry.spec_name(), entry.spec_value())),
{
    assert(unknown_pairs(entries.push(entry)) =~= unknown_pairs(entries).push((entry.spec_name(), entry.spec_value())));
}

/// Different names have different bytes.
pub proof fn lemma_names_differ(a: Seq<char>, b: Seq<char>)
    requires
        a != b,
    ensures
        vstd::utf8::encode_utf8(a) != vstd::utf8::encode_utf8(b),
{
    vstd::utf8::encode_utf8_decode_utf8(a);
    vstd::utf8::encode_utf8_decode_utf8(b);
}

/// Replacing the value of a kept name keeps the names in order.
proof fn lemma_replace_keeps_order(pairs: Seq<(Seq<char>, Seq<char>)>, at: int, pair: (Seq<char>, Seq<char>))
    requires
        names_in_order(pairs),
        0 <= at < pairs.len(),
        pairs[at].0 == pair.0,
    ensures
        names_in_order(pairs.update(at, pair)),
{
    let after = pairs.update(at, pair);
    assert forall|i: int, j: int| 0 <= i < j < after.len() implies name_before(after[i].0, after[j].0) by {
        assert(after[i].0 == pairs[i].0);
        assert(after[j].0 == pairs[j].0);
    }
}

/// Inserting a name before the first kept name it precedes keeps the names in
/// order, at the position counted by `names_below`.
proof fn lemma_insert_keeps_order(pairs: Seq<(Seq<char>, Seq<char>)>, at: int, pair: (Seq<char>, Seq<char>))
    requires
        names_in_order(pairs),
        0 <= at <= pairs.len(),
        forall|k: int| 0 <= k < at ==> name_before((#[trigger] pairs[k]).0, pair.0),
        at < pairs.len() ==> !name_before(pairs[at].0, pair.0),
        !names_include(pairs, pair.0),
    ensures
        names_in_order(pairs.insert(at, pair)),
        names_below(pairs, pair.0) == at,
{
    let after = pairs.insert(at, pair);
    let name = pair.0;
    let bytes = vstd::utf8::encode_utf8(name);
    if at < pairs.len() {
        assert(pairs[at].0 != name);
        lemma_names_differ(pairs[at].0, name);
        lemma_bytes_before_total(vstd::utf8::encode_utf8(pairs[at].0), bytes);
    }
    assert forall|k: int| at <= k < pairs.len() implies name_before(name, #[trigger] pairs[k].0) by {
        if k > at {
            assert(name_before(pairs[at].0, pairs[k].0));
            lemma_bytes_before_transitive(bytes, vstd::utf8::encode_utf8(pairs[at].0), vstd::utf8::encode_utf8(pairs[k].0));
        }
    }
    assert forall|i: int, j: int| 0 <= i < j < after.len() implies name_before(after[i].0, after[j].0) by {
        if j < at {
        } else if j == at {
        } else if i == at {
            assert(after[j] == pairs[j - 1]);
        } else if i < at {
            assert(after[j] == pairs[j - 1]);
        } else {
            assert(after[i] == pairs[i - 1]);
            assert(after[j] == pairs[j - 1]);
        }
    }
    lemma_names_below_prefix(pairs, name, at);
}

/// In ordered names, the names below a name are exactly a prefix.
proof fn lemma_names_below_prefix(pairs: Seq<(Seq<char>, Seq<char>)>, name: Seq<char>, at: int)
    requires
        names_in_order(pairs),
        0 <= at <= pairs.len(),
        forall|k: int| 0 <= k < at ==> name_before((#[trigger] pairs[k]).0, name),
        forall|k: int| at <= k < pairs.len() ==> name_before(name, (#[trigger] pairs[k]).0),
    ensures
        names_below(pairs, name) == at,
    decreases pairs.len(),
{
    if pairs.len() > 0 {
        let shorter = pairs.drop_last();
        let last = pairs.last().0;
        if at == pairs.len() {
            lemma_names_below_prefix(shorter, name, at - 1);
        } else {
            lemma_bytes_before_total(vstd::utf8::encode_utf8(name), vstd::utf8::encode_utf8(last));
            lemma_names_below_prefix(shorter, name, at);
        }
    }
}

/// Distinct settings have distinct slots.
pub proof fn lemma_setting_index_distinct(a: SettingKey, b: SettingKey)
    ensures
        (setting_index(a) == setting_index(b)) == (a == b),
        0 <= setting_index(a) < 13,
{
}

} // verus!
