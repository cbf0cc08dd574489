//! Who may do what: roles for people, approved permissions for plugins, and
//! the single decision that consults them.

use vstd::prelude::*;

use crate::text::{decimal, push_decimal, push_str};

verus! {

/// Something a subject may or may not be allowed to do.
///
/// Each capability has a fixed bit in a stored permission set; the numbers
/// never move, because a manifest signed last year must keep its meaning.
#[derive(Debug, Clone, Copy, PartialEq, Eq, PartialOrd, Ord, Hash, Structural)]
#[non_exhaustive]
pub enum Capability {
    /// Open and play a project.
    ViewProject,
    /// Change a project.
    EditProject,
    /// Take a copy of a project out.
    ExportProject,
    /// Give someone else access.
    ShareProject,
    /// Delete a project.
    DeleteProject,
    /// Add or remove collaborators.
    ManageCollaborators,
    /// Browse the library.
    ViewLibrary,
    /// Change the library.
    ModifyLibrary,
    /// Read the audio stream.
    ReadAudioStream,
    /// Write files.
    WriteFiles,
    /// Use the network.
    UseNetwork,
    /// Read stored credentials.
    ReadSecrets,
    /// Change what the user has agreed to.
    ManageConsent,
    /// Change licensing.
    ManageLicence,
    /// Install a plugin.
    InstallPlugin,
}

/// The stored bit of each capability.
pub open spec fn capability_bit(capability: Capability) -> u32 {
    match capability {
        Capability::ViewProject => 0,
        Capability::EditProject => 1,
        Capability::ExportProject => 2,
        Capability::ShareProject => 3,
        Capability::DeleteProject => 4,
        Capability::ManageCollaborators => 5,
        Capability::ViewLibrary => 6,
        Capability::ModifyLibrary => 7,
        Capability::ReadAudioStream => 8,
        Capability::WriteFiles => 9,
        Capability::UseNetwork => 10,
        Capability::ReadSecrets => 11,
        Capability::ManageConsent => 12,
        Capability::ManageLicence => 13,
        Capability::InstallPlugin => 14,
    }
}

/// Whether a plugin may ever hold a capability: never authority over secrets,
/// consent, licensing, collaborators, deletion or further installation.
pub open spec fn spec_may_be_delegated(capability: Capability) -> bool {
    !(capability is ReadSecrets || capability is ManageConsent || capability is ManageLicence
        || capability is ManageCollaborators || capability is DeleteProject || capability is InstallPlugin)
}

/// Every capability, in the order of their bits.
pub open spec fn all_capabilities() -> Seq<Capability> {
    seq![
        Capability::ViewProject,
        Capability::EditProject,
        Capability::ExportProject,
        Capability::ShareProject,
        Capability::DeleteProject,
        Capability::ManageCollaborators,
        Capability::ViewLibrary,
        Capability::ModifyLibrary,
        Capability::ReadAudioStream,
        Capability::WriteFiles,
        Capability::UseNetwork,
        Capability::ReadSecrets,
        Capability::ManageConsent,
        Capability::ManageLicence,
        Capability::InstallPlugin,
    ]
}

/// The stable key of each capability.
pub open spec fn capability_key(capability: Capability) -> Seq<char> {
    match capability {
        Capability::ViewProject => "capability.view_project"@,
        Capability::EditProject => "capability.edit_project"@,
        Capability::ExportProject => "capability.export_project"@,
        Capability::ShareProject => "capability.share_project"@,
        Capability::DeleteProject => "capability.delete_project"@,
        Capability::ManageCollaborators => "capability.manage_collaborators"@,
        Capability::ViewLibrary => "capability.view_library"@,
        Capability::ModifyLibrary => "capability.modify_library"@,
        Capability::ReadAudioStream => "capability.read_audio_stream"@,
        Capability::WriteFiles => "capability.write_files"@,
        Capability::UseNetwork => "capability.use_network"@,
        Capability::ReadSecrets => "capability.read_secrets"@,
        Capability::ManageConsent => "capability.manage_consent"@,
        Capability::ManageLicence => "capability.manage_licence"@,
        Capability::InstallPlugin => "capability.install_plugin"@,
    }
}

/// The bits of the capabilities a plugin may hold: every capability but
/// those of bits 4, 5, 11, 12, 13 and 14.
pub const DELEGABLE_BITS: u32 = 0x7cf;

/// Which bits of the first fifteen lie in `DELEGABLE_BITS`.
pub proof fn lemma_delegable_bit(bit: u32)
    by (bit_vector)
    requires
        bit < 15,
    ensures
        ((1u32 << bit) & 0x7cfu32 != 0) == (bit != 4 && bit != 5 && bit != 11 && bit != 12 && bit != 13
            && bit != 14),
        (1u32 << bit) & 0x7cfu32 == 0 || (1u32 << bit) & 0x7cfu32 == (1u32 << bit),
{
}

/// A capability may be delegated exactly when its bit lies in `DELEGABLE_BITS`.
pub proof fn lemma_delegable_capability(capability: Capability)
    ensures
        capability_bit(capability) < 15,
        spec_may_be_delegated(capability) == ((1u32 << capability_bit(capability)) & DELEGABLE_BITS != 0),
        (1u32 << capability_bit(capability)) & DELEGABLE_BITS == 0
            || (1u32 << capability_bit(capability)) & DELEGABLE_BITS == (1u32 << capability_bit(capability)),
{
    lemma_delegable_bit(capability_bit(capability));
}

/// No two capabilities share a bit.
pub proof fn lemma_bits_distinct(a: Capability, b: Capability)
    ensures
        capability_bit(a) == capability_bit(b) <==> a == b,
{
    match a {
        Capability::ViewProject => {},
        Capability::EditProject => {},
        Capability::ExportProject => {},
        Capability::ShareProject => {},
        Capability::DeleteProject => {},
        Capability::ManageCollaborators => {},
        Capability::ViewLibrary => {},
        Capability::ModifyLibrary => {},
        Capability::ReadAudioStream => {},
        Capability::WriteFiles => {},
        Capability::UseNetwork => {},
        Capability::ReadSecrets => {},
        Capability::ManageConsent => {},
        Capability::ManageLicence => {},
        Capability::InstallPlugin => {},
    }
}

impl Capability {
    /// Every capability, in the order of their bits.
    pub fn all() -> (all: Vec<Capability>)
        ensures
            all@ == all_capabilities(),
    {
        let all = vec![
            Capability::ViewProject,
            Capability::EditProject,
            Capability::ExportProject,
            Capability::ShareProject,
            Capability::DeleteProject,
            Capability::ManageCollaborators,
            Capability::ViewLibrary,
            Capability::ModifyLibrary,
            Capability::ReadAudioStream,
            Capability::WriteFiles,
            Capability::UseNetwork,
            Capability::ReadSecrets,
            Capability::ManageConsent,
            Capability::ManageLicence,
            Capability::InstallPlugin,
        ];
        assert(all@ =~= all_capabilities());
        all
    }

    /// The capability's position in a stored permission set.
    pub fn bit(self) -> (bit: u32)
        ensures
            bit == capability_bit(self),
            bit < 15,
    {
        match self {
            Capability::ViewProject => 0,
            Capability::EditProject => 1,
            Capability::ExportProject => 2,
            Capability::ShareProject => 3,
            Capability::DeleteProject => 4,
            Capability::ManageCollaborators => 5,
            Capability::ViewLibrary => 6,
            Capability::ModifyLibrary => 7,
            Capability::ReadAudioStream => 8,
            Capability::WriteFiles => 9,
            Capability::UseNetwork => 10,
            Capability::ReadSecrets => 11,
            Capability::ManageConsent => 12,
            Capability::ManageLicence => 13,
            Capability::InstallPlugin => 14,
        }
    }

    /// Whether a plugin may ever be granted this.
    pub fn may_be_delegated_to_a_plugin(self) -> (delegable: bool)
        ensures
            delegable == spec_may_be_delegated(self),
    {
        !matches!(
            self,
            Capability::ReadSecrets | Capability::ManageConsent | Capability::ManageLicence
                | Capability::ManageCollaborators | Capability::DeleteProject | Capability::InstallPlugin
        )
    }

    /// A stable identifier, for storage and localisation.
    pub fn key(self) -> (key: &'static str)
        ensures
            key@ == capability_key(self),
    {
        match self {
            Capability::ViewProject => "capability.view_project",
            Capability::EditProject => "capability.edit_project",
            Capability::ExportProject => "capability.export_project",
            Capability::ShareProject => "capability.share_project",
            Capability::DeleteProject => "capability.delete_project",
            Capability::ManageCollaborators => "capability.manage_collaborators",
            Capability::ViewLibrary => "capability.view_library",
            Capability::ModifyLibrary => "capability.modify_library",
            Capability::ReadAudioStream => "capability.read_audio_stream",
            Capability::WriteFiles => "capability.write_files",
            Capability::UseNetwork => "capability.use_network",
            Capability::ReadSecrets => "capability.read_secrets",
            Capability::ManageConsent => "capability.manage_consent",
            Capability::ManageLicence => "capability.manage_licence",
            Capability::InstallPlugin => "capability.install_plugin",
        }
    }
}

/// A person's standing on a project.
#[derive(Debug, Clone, Copy, PartialEq, Eq, PartialOrd, Ord, Hash, Structural)]
#[non_exhaustive]
pub enum Role {
    /// May look.
    Viewer,
    /// May change the work.
    Editor,
    /// May do everything.
    Owner,
}

/// What each role grants: a viewer looks, an editor works on and takes a copy
/// of what they worked on, the owner does everything.
pub open spec fn role_grants(role: Role, capability: Capability) -> bool {
    match capability {
        Capability::ViewProject | Capability::ViewLibrary => true,
        Capability::EditProject | Capability::ExportProject | Capability::ModifyLibrary
        | Capability::ReadAudioStream => role is Editor || role is Owner,
        _ => role is Owner,
    }
}

/// The stable key of each role.
pub open spec fn role_key(role: Role) -> Seq<char> {
    match role {
        Role::Viewer => "role.viewer"@,
        Role::Editor => "role.editor"@,
        Role::Owner => "role.owner"@,
    }
}

impl Role {
    /// Every role, from least to most privileged.
    pub fn all() -> (all: Vec<Role>)
        ensures
            all@ == seq![Role::Viewer, Role::Editor, Role::Owner],
    {
        let all = vec![Role::Viewer, Role::Editor, Role::Owner];
        assert(all@ =~= seq![Role::Viewer, Role::Editor, Role::Owner]);
        all
    }

    /// Whether this role grants a capability.
    pub fn grants(self, capability: Capability) -> (granted: bool)
        ensures
            granted == role_grants(self, capability),
    {
        match capability {
            Capability::ViewProject | Capability::ViewLibrary => true,
            Capability::EditProject | Capability::ExportProject | Capability::ModifyLibrary
            | Capability::ReadAudioStream => matches!(self, Role::Editor | Role::Owner),
            Capability::ShareProject | Capability::DeleteProject | Capability::ManageCollaborators
            | Capability::ManageConsent | Capability::ManageLicence | Capability::InstallPlugin
            | Capability::WriteFiles | Capability::UseNetwork | Capability::ReadSecrets => matches!(self, Role::Owner),
        }
    }

    /// A stable identifier, for storage and localisation.
    pub fn key(self) -> (key: &'static str)
        ensures
            key@ == role_key(self),
    {
        match self {
            Role::Viewer => "role.viewer",
            Role::Editor => "role.editor",
            Role::Owner => "role.owner",
        }
    }
}

/// A higher role never grants less than a lower one.
pub proof fn lemma_roles_are_cumulative(capability: Capability)
    ensures
        role_grants(Role::Viewer, capability) ==> role_grants(Role::Editor, capability),
        role_grants(Role::Editor, capability) ==> role_grants(Role::Owner, capability),
{
}

/// The owner may do everything; a viewer may only look.
pub proof fn lemma_owner_and_viewer(capability: Capability)
    ensures
        role_grants(Role::Owner, capability),
        role_grants(Role::Viewer, capability) <==> (capability is ViewProject || capability is ViewLibrary),
{
}

/// Identifies an installed plugin.
#[derive(Debug, Clone, Copy, PartialEq, Eq, PartialOrd, Ord, Hash, Structural)]
pub struct PluginId(pub u64);

impl PluginId {
    /// Wraps an identifier.
    pub fn new(id: u64) -> (plugin: PluginId)
        ensures
            plugin.0 == id,
    {
        PluginId(id)
    }

    /// The identifier as a person reads it: its number.
    pub fn to_text(self) -> (text: String)
        ensures
            text@ == decimal(self.0 as int),
    {
        let mut text = String::new();
        push_decimal(&mut text, self.0 as i128);
        text
    }

    /// The raw identifier.
    pub fn get(self) -> (id: u64)
        ensures
            id == self.0,
    {
        self.0
    }
}

/// Whether a stored bit pattern holds a capability.
pub open spec fn bits_hold(bits: u32, capability: Capability) -> bool {
    bits & (1u32 << capability_bit(capability)) != 0
}

/// Setting a bit adds exactly that bit; clearing one removes exactly that one.
pub proof fn lemma_set_and_clear_bit(bits: u32, set: u32, probe: u32)
    by (bit_vector)
    requires
        set < 32,
        probe < 32,
    ensures
        ((bits | (1u32 << set)) & (1u32 << probe) != 0) == ((bits & (1u32 << probe) != 0) || set == probe),
        ((bits & !(1u32 << set)) & (1u32 << probe) != 0) == ((bits & (1u32 << probe) != 0) && set != probe),
{
}

/// Setting a delegable bit, or clearing any, keeps a pattern within the mask.
pub proof fn lemma_mask_kept(bits: u32, bit: u32, mask: u32)
    by (bit_vector)
    requires
        bits & mask == bits,
        (1u32 << bit) & mask == (1u32 << bit),
    ensures
        (bits | (1u32 << bit)) & mask == (bits | (1u32 << bit)),
        (bits & !(1u32 << bit)) & mask == (bits & !(1u32 << bit)),
{
}

/// Clearing any bit keeps a pattern within a mask.
pub proof fn lemma_clear_keeps_mask(bits: u32, bit: u32, mask: u32)
    by (bit_vector)
    requires
        bits & mask == bits,
    ensures
        (bits & !(1u32 << bit)) & mask == (bits & !(1u32 << bit)),
{
}

/// A stored permission set: the capabilities a plugin's manifest declared and
/// the user approved. It never holds a capability that may not be delegated.
#[derive(Debug, Clone, Copy, PartialEq, Eq, Hash, Structural)]
pub struct PermissionSet {
    bits: u32,
}

impl PermissionSet {
    #[verifier::type_invariant]
    spec fn only_delegable(self) -> bool {
        self.bits & DELEGABLE_BITS == self.bits
    }

    /// The stored form.
    pub closed spec fn spec_bits(self) -> u32 {
        self.bits
    }

    /// Whether the set holds a capability.
    pub open spec fn holds(self, capability: Capability) -> bool {
        bits_hold(self.spec_bits(), capability)
    }

    /// Two sets are the same value exactly when their stored forms are.
    pub proof fn lemma_same_set(self, other: PermissionSet)
        ensures
            self == other <==> self.spec_bits() == other.spec_bits(),
    {
    }

    /// The empty set.
    pub fn none() -> (set: PermissionSet)
        ensures
            set.spec_bits() == 0,
            forall|capability: Capability| !set.holds(capability),
    {
        assert(0u32 & DELEGABLE_BITS == 0u32) by (bit_vector);
        assert forall|capability: Capability| !bits_hold(0u32, capability) by {
            let bit = capability_bit(capability);
            assert(0u32 & (1u32 << bit) == 0u32) by (bit_vector);
        }
        PermissionSet { bits: 0 }
    }

    /// Adds a capability a manifest declared. Returns `false`, and adds
    /// nothing, for a capability that may never be delegated.
    pub fn request(&mut self, capability: Capability) -> (accepted: bool)
        ensures
            accepted == spec_may_be_delegated(capability),
            forall|other: Capability| #[trigger] final(self).holds(other) == (old(self).holds(other) || (accepted
                && other == capability)),
            accepted ==> final(self).spec_bits() == old(self).spec_bits() | (1u32 << capability_bit(capability)),
            !accepted ==> *final(self) == *old(self),
    {
        if !capability.may_be_delegated_to_a_plugin() {
            return false;
        }
        proof {
            use_type_invariant(&*self);
            lemma_delegable_capability(capability);
            lemma_mask_kept(self.bits, capability_bit(capability), DELEGABLE_BITS);
        }
        let ghost before = *self;
        self.bits = self.bits | (1u32 << capability.bit());
        assert forall|other: Capability| #[trigger] self.holds(other) == (before.holds(other) || other == capability) by {
            lemma_delegable_capability(other);
            lemma_bits_distinct(capability, other);
            lemma_set_and_clear_bit(before.bits, capability_bit(capability), capability_bit(other));
        }
        true
    }

    /// Removes a capability, if held.
    pub fn revoke(&mut self, capability: Capability)
        ensures
            forall|other: Capability| #[trigger] final(self).holds(other) == (old(self).holds(other) && other
                != capability),
            final(self).spec_bits() == old(self).spec_bits() & !(1u32 << capability_bit(capability)),
    {
        proof {
            use_type_invariant(&*self);
            lemma_delegable_capability(capability);
            lemma_clear_keeps_mask(self.bits, capability_bit(capability), DELEGABLE_BITS);
        }
        let ghost before = *self;
        self.bits = self.bits & !(1u32 << capability.bit());
        assert forall|other: Capability| #[trigger] self.holds(other) == (before.holds(other) && other != capability) by {
            lemma_delegable_capability(other);
            lemma_bits_distinct(capability, other);
            lemma_set_and_clear_bit(before.bits, capability_bit(capability), capability_bit(other));
        }
    }

    /// Whether the set holds a capability. Never true for one that may not be
    /// delegated.
    pub fn contains(self, capability: Capability) -> (held: bool)
        ensures
            held == self.holds(capability),
            held ==> spec_may_be_delegated(capability),
    {
        proof {
            use_type_invariant(self);
            lemma_delegable_capability(capability);
            let bits = self.bits;
            let probe = 1u32 << capability_bit(capability);
            assert(bits & DELEGABLE_BITS == bits);
            assert((bits & probe != 0) ==> (probe & 0x7cfu32 != 0)) by (bit_vector)
                requires
                    bits & 0x7cfu32 == bits,
            ;
        }
        self.bits & (1u32 << capability.bit()) != 0
    }

    /// The stored form: only bits of capabilities that may be delegated.
    pub fn bits(self) -> (bits: u32)
        ensures
            bits == self.spec_bits(),
            bits & DELEGABLE_BITS == bits,
    {
        proof {
            use_type_invariant(self);
        }
        self.bits
    }

    /// Whether the set holds nothing.
    pub fn is_empty(self) -> (empty: bool)
        ensures
            empty == (self.spec_bits() == 0),
    {
        self.bits == 0
    }
}

/// One step of reading a stored pattern bit by bit: the low `next` bits of
/// the pattern within the mask, from the low `bit` bits and bit `bit` itself.
pub proof fn lemma_prefix_step(bits: u32, bit: u32, next: u32, read: u32)
    by (bit_vector)
    requires
        bit < 15,
        next == bit + 1,
        read == bits & ((((1u32 << bit) - 1u32) as u32) & 0x7cfu32),
    ensures
        (bits & (1u32 << bit) != 0 && (1u32 << bit) & 0x7cfu32 != 0) ==> (read | (1u32 << bit)) == bits & ((((1u32 << next) - 1u32) as u32) & 0x7cfu32),
        !(bits & (1u32 << bit) != 0 && (1u32 << bit) & 0x7cfu32 != 0) ==> read == bits & ((((1u32 << next) - 1u32) as u32) & 0x7cfu32),
{
}

/// Reading none of a pattern, and all fifteen bits of it.
pub proof fn lemma_prefix_ends(bits: u32)
    by (bit_vector)
    ensures
        bits & ((((1u32 << 0u32) - 1u32) as u32) & 0x7cfu32) == 0u32,
        bits & ((((1u32 << 15u32) - 1u32) as u32) & 0x7cfu32) == bits & 0x7cfu32,
{
}

/// Holding a capability in a masked pattern is holding it in the pattern and
/// the capability being delegable.
pub proof fn lemma_masked_hold(bits: u32, capability: Capability)
    ensures
        bits_hold(bits & DELEGABLE_BITS, capability) == (bits_hold(bits, capability) && spec_may_be_delegated(capability)),
{
    lemma_delegable_capability(capability);
    let bit = capability_bit(capability);
    assert(((bits & 0x7cfu32) & (1u32 << bit) != 0) == ((bits & (1u32 << bit) != 0) && ((1u32 << bit) & 0x7cfu32
        != 0))) by (bit_vector)
        requires
            bit < 32,
    ;
}

impl PermissionSet {
    /// Rebuilds a set from its stored form, ignoring any bit of a capability
    /// that may not be delegated: a manifest that claims everything is a claim
    /// that is not honoured, not an error.
    pub fn from_bits(bits: u32) -> (set: PermissionSet)
        ensures
            set.spec_bits() == bits & DELEGABLE_BITS,
            forall|capability: Capability| #[trigger] set.holds(capability) == (bits_hold(bits, capability)
                && spec_may_be_delegated(capability)),
    {
        let mut set = PermissionSet::none();
        let all = Capability::all();
        let mut index: usize = 0;
        proof {
            lemma_prefix_ends(bits);
        }
        while index < all.len()
            invariant
                all@ == all_capabilities(),
                index <= 15,
                set.spec_bits() == bits & ((((1u32 << (index as u32)) - 1u32) as u32) & 0x7cfu32),
            decreases 15 - index,
        {
            let capability = all[index];
            assert(capability_bit(capability) == index);
            let bit = capability.bit();
            proof {
                lemma_delegable_capability(capability);
                lemma_prefix_step(bits, bit, (bit + 1) as u32, set.spec_bits());
            }
            if bits & (1u32 << bit) != 0 {
                let _ = set.request(capability);
            }
            index += 1;
        }
        proof {
            lemma_prefix_ends(bits);
            assert forall|capability: Capability| #[trigger] set.holds(capability) == (bits_hold(bits, capability)
                && spec_may_be_delegated(capability)) by {
                lemma_masked_hold(bits, capability);
            }
        }
        set
    }

    /// The capabilities held, in the order of their bits.
    pub fn held(self) -> (held: Vec<Capability>)
        ensures
            held@ == all_capabilities().filter(|capability: Capability| self.holds(capability)),
    {
        let all = Capability::all();
        let ghost pred = |capability: Capability| self.holds(capability);
        let mut held: Vec<Capability> = Vec::new();
        let mut index: usize = 0;
        while index < all.len()
            invariant
                all@ == all_capabilities(),
                index <= all.len(),
                pred == (|capability: Capability| self.holds(capability)),
                held@ == all@.take(index as int).filter(pred),
            decreases all.len() - index,
        {
            let capability = all[index];
            proof {
                reveal(Seq::filter);
                assert(all@.take(index as int + 1).drop_last() =~= all@.take(index as int));
                assert(all@.take(index as int + 1).last() == capability);
            }
            if self.contains(capability) {
                held.push(capability);
            }
            index += 1;
        }
        assert(all@.take(all.len() as int) =~= all@);
        held
    }
}

impl Default for PermissionSet {
    /// The empty set.
    fn default() -> (set: PermissionSet)
        ensures
            set.spec_bits() == 0,
    {
        PermissionSet::none()
    }
}

/// A stored permission set survives its stored form: reading back the bits a
/// set wrote gives the same set.
pub proof fn lemma_bits_round_trip(written: PermissionSet, read: PermissionSet)
    requires
        written.spec_bits() & DELEGABLE_BITS == written.spec_bits(),
        read.spec_bits() == written.spec_bits() & DELEGABLE_BITS,
    ensures
        read == written,
{
    written.lemma_same_set(read);
}

/// Who is asking.
#[derive(Debug, Clone, Copy, PartialEq, Eq, Hash, Structural)]
#[non_exhaustive]
pub enum Subject {
    /// A person, by their role on the project.
    User {
        /// Their role.
        role: Role,
    },
    /// A plugin, by what its manifest declared and the user approved.
    Plugin {
        /// Which plugin.
        id: PluginId,
        /// What it was approved for.
        permissions: PermissionSet,
    },
}

impl Subject {
    /// A person with a role.
    pub fn user(role: Role) -> (subject: Subject)
        ensures
            subject == (Subject::User { role }),
    {
        Subject::User { role }
    }

    /// A plugin with its approved permissions.
    pub fn plugin(id: PluginId, permissions: PermissionSet) -> (subject: Subject)
        ensures
            subject == (Subject::Plugin { id, permissions }),
    {
        Subject::Plugin { id, permissions }
    }
}

/// Why a request was refused.
#[derive(Debug, Clone, Copy, PartialEq, Eq, Hash, Structural)]
#[non_exhaustive]
pub enum Refusal {
    /// The person's role does not include this.
    RoleLacksCapability {
        /// Their role.
        role: Role,
        /// What they asked to do.
        capability: Capability,
    },
    /// The plugin's manifest did not declare this, or the user did not
    /// approve it.
    PluginNotPermitted {
        /// Which plugin.
        id: PluginId,
        /// What it asked to do.
        capability: Capability,
    },
    /// No plugin may ever hold this, at any signature, with any approval.
    NeverDelegated {
        /// Which plugin.
        id: PluginId,
        /// What it asked to do.
        capability: Capability,
    },
}

/// The stable key of each refusal.
pub open spec fn refusal_key(refusal: Refusal) -> Seq<char> {
    match refusal {
        Refusal::RoleLacksCapability { .. } => "refusal.role_lacks_capability"@,
        Refusal::PluginNotPermitted { .. } => "refusal.plugin_not_permitted"@,
        Refusal::NeverDelegated { .. } => "refusal.never_delegated"@,
    }
}

/// What was refused.
pub open spec fn refused_capability(refusal: Refusal) -> Capability {
    match refusal {
        Refusal::RoleLacksCapability { capability, .. } => capability,
        Refusal::PluginNotPermitted { capability, .. } => capability,
        Refusal::NeverDelegated { capability, .. } => capability,
    }
}

impl Refusal {
    /// What was refused.
    pub fn capability(self) -> (capability: Capability)
        ensures
            capability == refused_capability(self),
    {
        match self {
            Refusal::RoleLacksCapability { capability, .. } => capability,
            Refusal::PluginNotPermitted { capability, .. } => capability,
            Refusal::NeverDelegated { capability, .. } => capability,
        }
    }

    /// Whether the user could change the answer by approving something: never
    /// for a capability no plugin may hold, so that no interface offers a
    /// prompt that cannot be honoured.
    pub fn is_addressable_by_the_user(self) -> (addressable: bool)
        ensures
            addressable == !(self is NeverDelegated),
    {
        !matches!(self, Refusal::NeverDelegated { .. })
    }

    /// A stable identifier, for storage and localisation.
    pub fn key(self) -> (key: &'static str)
        ensures
            key@ == refusal_key(self),
    {
        match self {
            Refusal::RoleLacksCapability { .. } => "refusal.role_lacks_capability",
            Refusal::PluginNotPermitted { .. } => "refusal.plugin_not_permitted",
            Refusal::NeverDelegated { .. } => "refusal.never_delegated",
        }
    }

    /// The refusal as it is written down: its key, and the key of what was
    /// refused in brackets.
    pub fn to_text(self) -> (text: String)
        ensures
            text@ == refusal_key(self) + " ("@ + capability_key(refused_capability(self)) + ")"@,
    {
        let mut text = String::new();
        push_str(&mut text, self.key());
        push_str(&mut text, " (");
        push_str(&mut text, self.capability().key());
        push_str(&mut text, ")");
        text
    }
}

/// The authorisation decision: a person by their role; a plugin never for a
/// capability no plugin may hold, otherwise by what it was approved for.
pub open spec fn spec_authorise(subject: Subject, capability: Capability) -> Result<(), Refusal> {
    match subject {
        Subject::User { role } => if role_grants(role, capability) {
            Ok(())
        } else {
            Err(Refusal::RoleLacksCapability { role, capability })
        },
        Subject::Plugin { id, permissions } => if !spec_may_be_delegated(capability) {
            Err(Refusal::NeverDelegated { id, capability })
        } else if permissions.holds(capability) {
            Ok(())
        } else {
            Err(Refusal::PluginNotPermitted { id, capability })
        },
    }
}

/// The only authorisation decision in the product.
pub fn authorise(subject: Subject, capability: Capability) -> (result: Result<(), Refusal>)
    ensures
        result == spec_authorise(subject, capability),
{
    match subject {
        Subject::User { role } => {
            if role.grants(capability) {
                Ok(())
            } else {
                Err(Refusal::RoleLacksCapability { role, capability })
            }
        },
        Subject::Plugin { id, permissions } => {
            if !capability.may_be_delegated_to_a_plugin() {
                return Err(Refusal::NeverDelegated { id, capability });
            }
            if permissions.contains(capability) {
                Ok(())
            } else {
                Err(Refusal::PluginNotPermitted { id, capability })
            }
        },
    }
}

/// Whether a subject may do something.
pub fn allows(subject: Subject, capability: Capability) -> (allowed: bool)
    ensures
        allowed == spec_authorise(subject, capability) is Ok,
{
    authorise(subject, capability).is_ok()
}

/// No plugin, whatever it was approved for, is ever allowed a capability that
/// may not be delegated, and the refusal says so; a plugin approved for
/// nothing is allowed nothing.
pub proof fn lemma_plugins_never_hold_reserved_capabilities(
    id: PluginId,
    permissions: PermissionSet,
    capability: Capability,
)
    ensures
        !spec_may_be_delegated(capability) ==> spec_authorise(Subject::Plugin { id, permissions }, capability)
            == Err::<(), Refusal>(Refusal::NeverDelegated { id, capability }),
        permissions.spec_bits() == 0 ==> spec_authorise(Subject::Plugin { id, permissions }, capability) is Err,
{
    let probe = 1u32 << capability_bit(capability);
    assert(0u32 & probe == 0u32) by (bit_vector);
}

/// Every refusal of a request names the capability requested, and asking
/// the user helps exactly when the refusal is not a reserved capability.
pub proof fn lemma_refusal_names_the_request(subject: Subject, capability: Capability)
    ensures
        spec_authorise(subject, capability) matches Err(refusal) ==> refused_capability(refusal) == capability
            && ((refusal is NeverDelegated) <==> (subject is Plugin && !spec_may_be_delegated(capability))),
{
}

} // verus!
