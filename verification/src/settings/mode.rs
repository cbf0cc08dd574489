//! How much the product volunteers: one choice that sets the defaults of the
//! assistance settings and nothing else.

use vstd::prelude::*;

use crate::text::str_equals;

verus! {

/// How much the product volunteers, from most to least.
#[derive(Debug, Clone, Copy, PartialEq, Eq, PartialOrd, Ord, Hash, Structural)]
#[non_exhaustive]
pub enum ExperienceMode {
    /// Suggests, explains and confirms.
    Guided,
    /// Suggests.
    Standard,
    /// Quiet rather than reduced: everything is still there, nothing is
    /// volunteered.
    Professional,
}

/// Every mode, from most to least assistance.
pub open spec fn all_modes() -> Seq<ExperienceMode> {
    seq![ExperienceMode::Guided, ExperienceMode::Standard, ExperienceMode::Professional]
}

/// Whether a mode volunteers suggestions.
pub open spec fn mode_suggests(mode: ExperienceMode) -> bool {
    mode is Guided || mode is Standard
}

/// Whether a mode volunteers explanations.
pub open spec fn mode_explains(mode: ExperienceMode) -> bool {
    mode is Guided
}

/// Whether a mode confirms actions that can be undone.
pub open spec fn mode_confirms(mode: ExperienceMode) -> bool {
    mode is Guided
}

/// The stable key of each mode.
pub open spec fn mode_key(mode: ExperienceMode) -> Seq<char> {
    match mode {
        ExperienceMode::Guided => "mode.guided"@,
        ExperienceMode::Standard => "mode.standard"@,
        ExperienceMode::Professional => "mode.professional"@,
    }
}

impl ExperienceMode {
    /// Every mode, from most to least assistance.
    pub fn all() -> (all: Vec<ExperienceMode>)
        ensures
            all@ == all_modes(),
    {
        let all = vec![ExperienceMode::Guided, ExperienceMode::Standard, ExperienceMode::Professional];
        assert(all@ =~= all_modes());
        all
    }

    /// Whether the mode volunteers suggestions.
    pub fn volunteers_suggestions(self) -> (suggests: bool)
        ensures
            suggests == mode_suggests(self),
    {
        matches!(self, ExperienceMode::Guided | ExperienceMode::Standard)
    }

    /// Whether the mode volunteers explanations.
    pub fn volunteers_explanations(self) -> (explains: bool)
        ensures
            explains == mode_explains(self),
    {
        matches!(self, ExperienceMode::Guided)
    }

    /// Whether the mode confirms actions that can be undone.
    pub fn confirms_reversible_actions(self) -> (confirms: bool)
        ensures
            confirms == mode_confirms(self),
    {
        matches!(self, ExperienceMode::Guided)
    }

    /// A stable identifier, for storage.
    pub fn key(self) -> (key: &'static str)
        ensures
            key@ == mode_key(self),
    {
        match self {
            ExperienceMode::Guided => "mode.guided",
            ExperienceMode::Standard => "mode.standard",
            ExperienceMode::Professional => "mode.professional",
        }
    }

    /// The mode a stored key names: the first whose key matches, or `None`
    /// for a key this version does not know, which is not an error.
    pub fn from_key(key: &str) -> (mode: Option<ExperienceMode>)
        ensures
            mode matches Some(found) ==> mode_key(found) == key@ && exists|i: int|
                0 <= i < 3 && all_modes()[i] == found && forall|j: int| 0 <= j < i ==> mode_key(
                    #[trigger] all_modes()[j],
                ) != key@,
            mode is None ==> forall|i: int| 0 <= i < 3 ==> mode_key(#[trigger] all_modes()[i]) != key@,
    {
        let all = ExperienceMode::all();
        let mut index: usize = 0;
        while index < all.len()
            invariant
                all@ == all_modes(),
                index <= 3,
                forall|j: int| 0 <= j < index ==> mode_key(#[trigger] all_modes()[j]) != key@,
            decreases 3 - index,
        {
            let mode = all[index];
            if str_equals(mode.key(), key) {
                return Some(mode);
            }
            index += 1;
        }
        None
    }
}

impl Default for ExperienceMode {
    /// The middle setting.
    fn default() -> (mode: ExperienceMode)
        ensures
            mode == ExperienceMode::Standard,
    {
        ExperienceMode::Standard
    }
}

/// Assistance decreases from one mode to the next and never comes back: what
/// a later mode volunteers, an earlier one volunteers too.
pub proof fn lemma_assistance_only_decreases(earlier: int, later: int)
    requires
        0 <= earlier <= later < 3,
    ensures
        mode_suggests(all_modes()[later]) ==> mode_suggests(all_modes()[earlier]),
        mode_explains(all_modes()[later]) ==> mode_explains(all_modes()[earlier]),
        mode_confirms(all_modes()[later]) ==> mode_confirms(all_modes()[earlier]),
        !mode_suggests(ExperienceMode::Professional) && !mode_explains(ExperienceMode::Professional)
            && !mode_confirms(ExperienceMode::Professional),
{
}

} // verus!
