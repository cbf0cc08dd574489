//! What the system asked for on the user's behalf, joined with what the user
//! asked for here.
//!
//! The platform's answer wins upward, never downward: an accommodation the
//! platform asked for can be switched on and nothing in the application can
//! switch it off. An in-application preference can add a restraint the
//! platform did not ask for. The effective value is the union.
//!
//! The text scale travels with the platform's answer as a value of the host's
//! choosing; these rules never read it.

use vstd::prelude::*;

verus! {

/// What the platform reports about the user's needs.
///
/// Every flag off means "no accommodation requested": a platform that does
/// not report a setting has not asked for it.
#[derive(Debug, Clone, Copy, PartialEq)]
pub struct PlatformAccessibility<S> {
    /// The system-level "reduce motion" setting.
    pub reduce_motion: bool,
    /// The system-level "increase contrast" setting.
    pub increase_contrast: bool,
    /// The system-level "reduce transparency" setting.
    pub reduce_transparency: bool,
    /// The system text size, as the host measures it.
    pub text_scale: S,
}

/// The accommodations actually in force: the platform's answer and the
/// user's own additions.
#[derive(Debug, Clone, Copy, PartialEq)]
pub struct Accessibility<S> {
    platform: PlatformAccessibility<S>,
    application_reduce_motion: bool,
    application_increase_contrast: bool,
    application_reduce_transparency: bool,
}

impl<S> Accessibility<S> {
    /// The platform's answer.
    pub closed spec fn spec_platform(&self) -> PlatformAccessibility<S> {
        self.platform
    }

    /// What the user asked for here: less motion, more contrast, less
    /// transparency.
    pub closed spec fn spec_requested(&self) -> (bool, bool, bool) {
        (self.application_reduce_motion, self.application_increase_contrast, self.application_reduce_transparency)
    }

    /// Whether motion must be reduced: the platform or the user asked.
    pub open spec fn spec_reduce_motion(&self) -> bool {
        self.spec_platform().reduce_motion || self.spec_requested().0
    }

    /// Whether contrast must be increased: the platform or the user asked.
    pub open spec fn spec_increase_contrast(&self) -> bool {
        self.spec_platform().increase_contrast || self.spec_requested().1
    }

    /// Whether transparency must be reduced: the platform or the user asked.
    pub open spec fn spec_reduce_transparency(&self) -> bool {
        self.spec_platform().reduce_transparency || self.spec_requested().2
    }

    /// Starts from what the platform reports, with nothing added here.
    pub fn from_platform(platform: PlatformAccessibility<S>) -> (accessibility: Self)
        ensures
            accessibility.spec_platform() == platform,
            accessibility.spec_requested() == (false, false, false),
    {
        Accessibility {
            platform,
            application_reduce_motion: false,
            application_increase_contrast: false,
            application_reduce_transparency: false,
        }
    }

    /// Replaces the platform's answer, keeping the user's own additions.
    pub fn update_platform(&mut self, platform: PlatformAccessibility<S>)
        ensures
            final(self).spec_platform() == platform,
            final(self).spec_requested() == old(self).spec_requested(),
    {
        self.platform = platform;
    }

    /// Adds or withdraws an in-application request for less motion.
    /// Withdrawing it withdraws only the restraint added here.
    pub fn request_reduced_motion(&mut self, requested: bool)
        ensures
            final(self).spec_platform() == old(self).spec_platform(),
            final(self).spec_requested() == (requested, old(self).spec_requested().1, old(self).spec_requested().2),
    {
        self.application_reduce_motion = requested;
    }

    /// Adds or withdraws an in-application request for more contrast.
    pub fn request_increased_contrast(&mut self, requested: bool)
        ensures
            final(self).spec_platform() == old(self).spec_platform(),
            final(self).spec_requested() == (old(self).spec_requested().0, requested, old(self).spec_requested().2),
    {
        self.application_increase_contrast = requested;
    }

    /// Adds or withdraws an in-application request for less transparency.
    pub fn request_reduced_transparency(&mut self, requested: bool)
        ensures
            final(self).spec_platform() == old(self).spec_platform(),
            final(self).spec_requested() == (old(self).spec_requested().0, old(self).spec_requested().1, requested),
    {
        self.application_reduce_transparency = requested;
    }

    /// Whether motion must be reduced: true if either the platform or the
    /// application asked.
    pub fn reduce_motion(&self) -> (reduce: bool)
        ensures
            reduce == self.spec_reduce_motion(),
    {
        self.platform.reduce_motion || self.application_reduce_motion
    }

    /// Whether contrast must be increased.
    pub fn increase_contrast(&self) -> (increase: bool)
        ensures
            increase == self.spec_increase_contrast(),
    {
        self.platform.increase_contrast || self.application_increase_contrast
    }

    /// Whether transparency must be reduced.
    pub fn reduce_transparency(&self) -> (reduce: bool)
        ensures
            reduce == self.spec_reduce_transparency(),
    {
        self.platform.reduce_transparency || self.application_reduce_transparency
    }

    /// The platform's answer, as last reported.
    pub fn platform(&self) -> (platform: &PlatformAccessibility<S>)
        ensures
            *platform == self.spec_platform(),
    {
        &self.platform
    }
}

/// An accommodation the platform asked for survives every in-application
/// request: whatever the user asks here, with the platform's answer unchanged,
/// motion, contrast and transparency that the platform restrained stay
/// restrained.
pub proof fn lemma_the_platform_answer_cannot_be_withdrawn<S>(before: Accessibility<S>, after: Accessibility<S>)
    requires
        after.spec_platform() == before.spec_platform(),
    ensures
        before.spec_platform().reduce_motion ==> after.spec_reduce_motion(),
        before.spec_platform().increase_contrast ==> after.spec_increase_contrast(),
        before.spec_platform().reduce_transparency ==> after.spec_reduce_transparency(),
{
}

/// A request made here is kept across a change of the platform's answer, so
/// it stays in force whatever the platform now says.
pub proof fn lemma_a_request_here_survives_a_platform_change<S>(
    before: Accessibility<S>,
    after: Accessibility<S>,
)
    requires
        after.spec_requested() == before.spec_requested(),
    ensures
        before.spec_requested().0 ==> after.spec_reduce_motion(),
        before.spec_requested().1 ==> after.spec_increase_contrast(),
        before.spec_requested().2 ==> after.spec_reduce_transparency(),
{
}

} // verus!
