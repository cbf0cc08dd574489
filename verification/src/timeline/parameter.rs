//! Which parameters can be automated: the built-in ones by a stable key, and
//! those a plugin declares by an identifier checked once at the boundary.

use vstd::prelude::*;

use crate::text::{char_debug, decimal, push_char_debug, push_decimal, push_str};
use crate::timeline::timeline::PlacementId;
use vstd::string::{StrSliceExecFns, StringSliceAdditionalSpecFns};

verus! {

/// The longest a plugin parameter identifier may be, in bytes.
pub const MAX_PLUGIN_PARAMETER_LENGTH: usize = 64;

/// Why a parameter could not be described.
#[derive(Debug, Clone, Copy, PartialEq, Eq, Structural)]
#[non_exhaustive]
pub enum ParameterError {
    /// An owner nested more deeply than the engine supports.
    TooDeep {
        /// The depth supplied.
        depth: u8,
        /// The deepest permitted.
        maximum: u8,
    },
    /// A plugin declared a parameter with an empty identifier.
    EmptyPluginParameter,
    /// A plugin declared a parameter identifier that is too long.
    PluginParameterTooLong {
        /// The length supplied, in bytes.
        length: usize,
        /// The longest permitted.
        maximum: usize,
    },
    /// A plugin declared a parameter identifier containing a forbidden
    /// character.
    InvalidPluginParameter {
        /// The first offending character.
        character: char,
    },
}

/// How a parameter error reads.
pub open spec fn parameter_error_text(error: ParameterError) -> Seq<char> {
    match error {
        ParameterError::TooDeep { depth, maximum } => "parameter owner nests "@ + decimal(depth as int)
            + " deep, the maximum is "@ + decimal(maximum as int),
        ParameterError::EmptyPluginParameter => "plugin parameter identifier is empty"@,
        ParameterError::PluginParameterTooLong { length, maximum } => "plugin parameter identifier is "@
            + decimal(length as int) + " bytes, the maximum is "@ + decimal(maximum as int),
        ParameterError::InvalidPluginParameter { character } =>
            "plugin parameter identifier contains the forbidden character "@ + char_debug(character),
    }
}

impl ParameterError {
    /// The error as a person reads it.
    pub fn to_text(self) -> (text: String)
        ensures
            text@ == parameter_error_text(self),
    {
        let mut text = String::new();
        match self {
            ParameterError::TooDeep { depth, maximum } => {
                push_str(&mut text, "parameter owner nests ");
                push_decimal(&mut text, depth as i128);
                push_str(&mut text, " deep, the maximum is ");
                push_decimal(&mut text, maximum as i128);
            },
            ParameterError::EmptyPluginParameter => {
                push_str(&mut text, "plugin parameter identifier is empty");
            },
            ParameterError::PluginParameterTooLong { length, maximum } => {
                push_str(&mut text, "plugin parameter identifier is ");
                push_decimal(&mut text, length as i128);
                push_str(&mut text, " bytes, the maximum is ");
                push_decimal(&mut text, maximum as i128);
            },
            ParameterError::InvalidPluginParameter { character } => {
                push_str(&mut text, "plugin parameter identifier contains the forbidden character ");
                push_char_debug(&mut text, character);
            },
        }
        assert(text@ =~= parameter_error_text(self));
        text
    }
}

/// What owns a parameter: a tree rather than a flat namespace, so that a
/// whole subtree moves, copies or goes with its automation in one place.
#[derive(Debug, PartialEq, Eq, PartialOrd, Ord, Hash)]
pub enum ParameterOwner {
    /// The master bus.
    Master,
    /// A lane of the timeline, by its position.
    Lane(u32),
    /// One placement of a track on the timeline.
    Placement(PlacementId),
    /// An effect in a slot on some owner.
    Effect {
        /// What the effect sits on.
        host: Box<ParameterOwner>,
        /// Which slot in that owner's chain.
        slot: u8,
    },
}

/// How deeply an owner is nested: effects on effects, saturating.
pub open spec fn owner_depth(owner: ParameterOwner) -> u8
    decreases owner,
{
    match owner {
        ParameterOwner::Effect { host, .. } => {
            let below = owner_depth(*host);
            if below == 255 {
                255
            } else {
                (below + 1) as u8
            }
        },
        _ => 0,
    }
}

/// Whether an owner is another, or sits somewhere beneath it.
pub open spec fn owner_within(owner: ParameterOwner, other: ParameterOwner) -> bool
    decreases owner,
{
    owner == other || match owner {
        ParameterOwner::Effect { host, .. } => owner_within(*host, other),
        _ => false,
    }
}

/// How an owner reads: its path from the top.
pub open spec fn owner_text(owner: ParameterOwner) -> Seq<char>
    decreases owner,
{
    match owner {
        ParameterOwner::Master => "master"@,
        ParameterOwner::Lane(index) => "lane["@ + decimal(index as int) + "]"@,
        ParameterOwner::Placement(id) => "placement["@ + decimal(id.0 as int) + "]"@,
        ParameterOwner::Effect { host, slot } => owner_text(*host) + "/effect["@ + decimal(slot as int) + "]"@,
    }
}

impl Clone for ParameterOwner {
    fn clone(&self) -> (copy: Self)
        ensures
            copy == *self,
        decreases self,
    {
        match self {
            ParameterOwner::Master => ParameterOwner::Master,
            ParameterOwner::Lane(index) => ParameterOwner::Lane(*index),
            ParameterOwner::Placement(id) => ParameterOwner::Placement(*id),
            ParameterOwner::Effect { host, slot } => ParameterOwner::Effect {
                host: Box::new((**host).clone()),
                slot: *slot,
            },
        }
    }
}

impl ParameterOwner {
    /// The deepest nesting an address may have.
    pub const MAX_DEPTH: u8 = 4;

    /// An effect slot on this owner.
    pub fn effect(self, slot: u8) -> (owner: ParameterOwner)
        ensures
            owner == (ParameterOwner::Effect { host: Box::new(self), slot }),
    {
        ParameterOwner::Effect { host: Box::new(self), slot }
    }

    /// How deeply nested this owner is.
    pub fn depth(&self) -> (depth: u8)
        ensures
            depth == owner_depth(*self),
        decreases self,
    {
        match self {
            ParameterOwner::Effect { host, .. } => {
                let below = host.depth();
                if below == 255 {
                    255
                } else {
                    below + 1
                }
            },
            _ => 0,
        }
    }

    /// The owner this one sits on, if any.
    pub fn host(&self) -> (host: Option<&ParameterOwner>)
        ensures
            host == (match *self {
                ParameterOwner::Effect { host, .. } => Some(&*host),
                _ => None,
            }),
    {
        match self {
            ParameterOwner::Effect { host, .. } => Some(&**host),
            _ => None,
        }
    }

    /// Whether two owners are the same.
    pub(crate) fn same(&self, other: &ParameterOwner) -> (same: bool)
        ensures
            same == (*self == *other),
        decreases self,
    {
        match (self, other) {
            (ParameterOwner::Master, ParameterOwner::Master) => true,
            (ParameterOwner::Lane(a), ParameterOwner::Lane(b)) => *a == *b,
            (ParameterOwner::Placement(a), ParameterOwner::Placement(b)) => a.0 == b.0,
            (
                ParameterOwner::Effect { host: a, slot: x },
                ParameterOwner::Effect { host: b, slot: y },
            ) => *x == *y && a.same(b),
            _ => false,
        }
    }

    /// Whether this owner is `other`, or sits somewhere beneath it: by
    /// structure, never by text, so lane ten is not within lane one.
    pub fn is_within(&self, other: &ParameterOwner) -> (within: bool)
        ensures
            within == owner_within(*self, *other),
        decreases self,
    {
        if self.same(other) {
            return true;
        }
        match self {
            ParameterOwner::Effect { host, .. } => host.is_within(other),
            _ => false,
        }
    }

    /// The owner as a path: `master`, `lane[1]`, `placement[7]`, each effect
    /// on it after a slash.
    pub fn to_text(&self) -> (text: String)
        ensures
            text@ == owner_text(*self),
        decreases self,
    {
        match self {
            ParameterOwner::Master => {
                let mut text = String::new();
                push_str(&mut text, "master");
                text
            },
            ParameterOwner::Lane(index) => {
                let mut text = String::new();
                push_str(&mut text, "lane[");
                push_decimal(&mut text, *index as i128);
                push_str(&mut text, "]");
                text
            },
            ParameterOwner::Placement(id) => {
                let mut text = String::new();
                push_str(&mut text, "placement[");
                push_decimal(&mut text, id.0 as i128);
                push_str(&mut text, "]");
                text
            },
            ParameterOwner::Effect { host, slot } => {
                let mut text = host.to_text();
                push_str(&mut text, "/effect[");
                push_decimal(&mut text, *slot as i128);
                push_str(&mut text, "]");
                text
            },
        }
    }
}

/// A complete parameter address: what owns it, and which of its parameters.
#[derive(Debug, PartialEq, Eq, PartialOrd, Ord, Hash)]
pub struct ParameterAddress {
    owner: ParameterOwner,
    key: ParameterKey,
}

impl Clone for ParameterAddress {
    fn clone(&self) -> (copy: Self)
        ensures
            copy == *self,
    {
        ParameterAddress { owner: self.owner.clone(), key: self.key.clone() }
    }
}

impl ParameterAddress {
    /// What owns the parameter.
    pub closed spec fn spec_owner(&self) -> ParameterOwner {
        self.owner
    }

    /// Which parameter.
    pub closed spec fn spec_key(&self) -> ParameterKey {
        self.key
    }

    /// An address, refused when the owner nests deeper than the limit.
    pub fn new(owner: ParameterOwner, key: ParameterKey) -> (result: Result<ParameterAddress, ParameterError>)
        ensures
            owner_depth(owner) > ParameterOwner::MAX_DEPTH ==> result == Err::<ParameterAddress, ParameterError>(
                ParameterError::TooDeep { depth: owner_depth(owner), maximum: ParameterOwner::MAX_DEPTH },
            ),
            owner_depth(owner) <= ParameterOwner::MAX_DEPTH ==> (result matches Ok(address) && address.spec_owner()
                == owner && address.spec_key() == key),
    {
        let depth = owner.depth();
        if depth > ParameterOwner::MAX_DEPTH {
            return Err(ParameterError::TooDeep { depth, maximum: ParameterOwner::MAX_DEPTH });
        }
        Ok(ParameterAddress { owner, key })
    }

    /// What owns the parameter.
    pub fn owner(&self) -> (owner: &ParameterOwner)
        ensures
            *owner == self.spec_owner(),
    {
        &self.owner
    }

    /// Which parameter.
    pub fn key(&self) -> (key: &ParameterKey)
        ensures
            *key == self.spec_key(),
    {
        &self.key
    }

    /// Whether the address refers to something within an owner.
    pub fn is_within(&self, owner: &ParameterOwner) -> (within: bool)
        ensures
            within == owner_within(self.spec_owner(), *owner),
    {
        self.owner.is_within(owner)
    }

    /// The address as a path: the owner's, then the parameter's key.
    pub fn to_text(&self) -> (text: String)
        ensures
            text@ == owner_text(self.spec_owner()) + "/"@ + parameter_key(self.spec_key()),
    {
        let mut text = self.owner.to_text();
        push_str(&mut text, "/");
        push_str(&mut text, self.key.key());
        text
    }
}

/// Containment is structural: an owner is within itself, an effect is
/// within whatever hosts it, and containment passes down a chain.
pub proof fn lemma_containment_is_structural(owner: ParameterOwner, middle: ParameterOwner, top: ParameterOwner)
    ensures
        owner_within(owner, owner),
        forall|slot: u8| #[trigger] owner_within(ParameterOwner::Effect { host: Box::new(owner), slot }, owner),
        owner_within(owner, middle) && owner_within(middle, top) ==> owner_within(owner, top),
    decreases owner,
{
    assert forall|slot: u8| #[trigger] owner_within(ParameterOwner::Effect { host: Box::new(owner), slot }, owner) by {
        let effect = ParameterOwner::Effect { host: Box::new(owner), slot };
        assert(owner_within(owner, owner));
    }
    if owner_within(owner, middle) && owner_within(middle, top) && owner != middle {
        match owner {
            ParameterOwner::Effect { host, .. } => {
                lemma_containment_is_structural(*host, middle, top);
            },
            _ => {},
        }
    }
}

/// The characters a plugin parameter identifier may hold: lower-case ASCII
/// letters, digits, the underscore and the full stop — nothing that could
/// forge a path or a log line.
pub open spec fn permitted_in_identifier(character: char) -> bool {
    ('a' <= character && character <= 'z') || ('0' <= character && character <= '9') || character == '_'
        || character == '.'
}

/// A parameter identifier declared by a plugin, validated once.
#[derive(Debug, PartialEq, Eq, PartialOrd, Ord, Hash)]
pub struct PluginParameterId(String);

impl Clone for PluginParameterId {
    fn clone(&self) -> (copy: Self)
        ensures
            copy == *self,
    {
        PluginParameterId(self.0.clone())
    }
}

impl PluginParameterId {
    /// The identifier's text.
    pub closed spec fn spec_text(&self) -> Seq<char> {
        self.0@
    }

    /// Validates a plugin's parameter identifier. Fails with
    /// `EmptyPluginParameter` when it is empty, then with
    /// `PluginParameterTooLong` when longer than the limit in bytes, then with
    /// `InvalidPluginParameter` naming the first character not permitted.
    pub fn new(value: &str) -> (result: Result<PluginParameterId, ParameterError>)
        ensures
            value@.len() == 0 ==> result == Err::<PluginParameterId, ParameterError>(
                ParameterError::EmptyPluginParameter,
            ),
            value@.len() != 0 && value.spec_bytes().len() as usize > MAX_PLUGIN_PARAMETER_LENGTH ==> result == Err::<
                PluginParameterId,
                ParameterError,
            >(
                ParameterError::PluginParameterTooLong {
                    length: value.spec_bytes().len() as usize,
                    maximum: MAX_PLUGIN_PARAMETER_LENGTH,
                },
            ),
            value@.len() != 0 && value.spec_bytes().len() as usize <= MAX_PLUGIN_PARAMETER_LENGTH ==> match result {
                Ok(id) => id.spec_text() == value@ && forall|i: int|
                    0 <= i < value@.len() ==> permitted_in_identifier(#[trigger] value@[i]),
                Err(error) => exists|i: int|
                    0 <= i < value@.len() && !permitted_in_identifier(#[trigger] value@[i]) && error
                        == ParameterError::InvalidPluginParameter { character: value@[i] } && forall|j: int|
                        0 <= j < i ==> permitted_in_identifier(#[trigger] value@[j]),
            },
    {
        if value.is_empty() {
            return Err(ParameterError::EmptyPluginParameter);
        }
        if value.len() > MAX_PLUGIN_PARAMETER_LENGTH {
            return Err(
                ParameterError::PluginParameterTooLong {
                    length: value.len(),
                    maximum: MAX_PLUGIN_PARAMETER_LENGTH,
                },
            );
        }
        let count = value.unicode_len();
        let mut index: usize = 0;
        while index < count
            invariant
                count == value@.len(),
                value@.len() != 0,
                value.spec_bytes().len() as usize <= MAX_PLUGIN_PARAMETER_LENGTH,
                index <= count,
                forall|j: int| 0 <= j < index ==> permitted_in_identifier(#[trigger] value@[j]),
            decreases count - index,
        {
            let character = value.get_char(index);
            let permitted = ('a' <= character && character <= 'z') || ('0' <= character && character <= '9')
                || character == '_' || character == '.';
            if !permitted {
                return Err(ParameterError::InvalidPluginParameter { character });
            }
            index += 1;
        }
        Ok(PluginParameterId(value.to_owned()))
    }

    /// The identifier's text.
    pub fn as_str(&self) -> (text: &str)
        ensures
            text@ == self.spec_text(),
    {
        self.0.as_str()
    }
}

/// Which parameter of a processor is meant.
#[derive(Debug, PartialEq, Eq, PartialOrd, Ord, Hash)]
pub enum ParameterKey {
    /// Channel gain.
    Gain,
    /// The low band of the equaliser.
    EqLow,
    /// The middle band of the equaliser.
    EqMid,
    /// The high band of the equaliser.
    EqHigh,
    /// The filter.
    Filter,
    /// The wet and dry mix.
    Mix,
    /// The crossfader.
    Crossfader,
    /// A parameter a plugin declared.
    Plugin(PluginParameterId),
}

impl Clone for ParameterKey {
    fn clone(&self) -> (copy: Self)
        ensures
            copy == *self,
    {
        match self {
            ParameterKey::Gain => ParameterKey::Gain,
            ParameterKey::EqLow => ParameterKey::EqLow,
            ParameterKey::EqMid => ParameterKey::EqMid,
            ParameterKey::EqHigh => ParameterKey::EqHigh,
            ParameterKey::Filter => ParameterKey::Filter,
            ParameterKey::Mix => ParameterKey::Mix,
            ParameterKey::Crossfader => ParameterKey::Crossfader,
            ParameterKey::Plugin(id) => ParameterKey::Plugin(id.clone()),
        }
    }
}

/// The stable key of each parameter: a built-in key, or the plugin's own
/// identifier.
pub open spec fn parameter_key(key: ParameterKey) -> Seq<char> {
    match key {
        ParameterKey::Gain => "parameter.gain"@,
        ParameterKey::EqLow => "parameter.eq_low"@,
        ParameterKey::EqMid => "parameter.eq_mid"@,
        ParameterKey::EqHigh => "parameter.eq_high"@,
        ParameterKey::Filter => "parameter.filter"@,
        ParameterKey::Mix => "parameter.mix"@,
        ParameterKey::Crossfader => "parameter.crossfader"@,
        ParameterKey::Plugin(id) => id.spec_text(),
    }
}

impl ParameterKey {
    /// The stable key, for storage and addressing.
    pub fn key(&self) -> (key: &str)
        ensures
            key@ == parameter_key(*self),
    {
        match self {
            ParameterKey::Gain => "parameter.gain",
            ParameterKey::EqLow => "parameter.eq_low",
            ParameterKey::EqMid => "parameter.eq_mid",
            ParameterKey::EqHigh => "parameter.eq_high",
            ParameterKey::Filter => "parameter.filter",
            ParameterKey::Mix => "parameter.mix",
            ParameterKey::Crossfader => "parameter.crossfader",
            ParameterKey::Plugin(id) => id.as_str(),
        }
    }

    /// Whether a plugin declared the parameter.
    pub fn is_plugin(&self) -> (plugin: bool)
        ensures
            plugin == (*self is Plugin),
    {
        matches!(self, ParameterKey::Plugin(_))
    }
}

/// The unit a parameter's value is shown in.
#[derive(Debug, Clone, Copy, PartialEq, Eq, Hash, Structural)]
pub enum ParameterUnit {
    /// A bare number.
    Plain,
    /// Decibels.
    Decibels,
    /// Hertz.
    Hertz,
    /// Percent.
    Percent,
    /// Seconds.
    Seconds,
    /// Beats.
    Beats,
    /// On or off.
    Toggle,
}

/// How a control's travel maps onto a parameter's range.
#[derive(Debug, Clone, Copy, PartialEq, Eq, Hash, Structural)]
pub enum ParameterCurve {
    /// Evenly.
    Linear,
    /// Each octave or decade gets the same travel.
    Logarithmic,
    /// Finer at the bottom.
    Squared,
}

} // verus!
