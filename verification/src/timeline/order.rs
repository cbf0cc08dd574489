//! The order parameter addresses are kept and reported in: by owner, then by
//! parameter, each by its variants in declaration order and then by its
//! contents — a total order that does not depend on display text.

use vstd::prelude::*;

use crate::settings::order::{
    bytes_before, bytes_come_before, lemma_bytes_before_irreflexive, lemma_bytes_before_total,
    lemma_bytes_before_transitive,
};
use crate::settings::store::lemma_names_differ;
use crate::text::str_equals;
use crate::timeline::parameter::{ParameterAddress, ParameterKey, ParameterOwner};
use vstd::string::StrSliceExecFns;

verus! {

/// Where an owner's kind comes among the kinds.
pub open spec fn owner_rank(owner: ParameterOwner) -> int {
    match owner {
        ParameterOwner::Master => 0,
        ParameterOwner::Lane(_) => 1,
        ParameterOwner::Placement(_) => 2,
        ParameterOwner::Effect { .. } => 3,
    }
}

/// Whether one owner comes strictly before another.
pub open spec fn owner_before(a: ParameterOwner, b: ParameterOwner) -> bool
    decreases a,
{
    if owner_rank(a) != owner_rank(b) {
        owner_rank(a) < owner_rank(b)
    } else {
        match a {
            ParameterOwner::Lane(x) => match b {
                ParameterOwner::Lane(y) => x < y,
                _ => false,
            },
            ParameterOwner::Placement(x) => match b {
                ParameterOwner::Placement(y) => x.0 < y.0,
                _ => false,
            },
            ParameterOwner::Effect { host: first_host, slot: first_slot } => match b {
                ParameterOwner::Effect { host: second_host, slot: second_slot } => owner_before(
                    *first_host,
                    *second_host,
                ) || (*first_host == *second_host && first_slot < second_slot),
                _ => false,
            },
            ParameterOwner::Master => false,
        }
    }
}

/// Where a parameter's kind comes among the kinds.
pub open spec fn key_rank(key: ParameterKey) -> int {
    match key {
        ParameterKey::Gain => 0,
        ParameterKey::EqLow => 1,
        ParameterKey::EqMid => 2,
        ParameterKey::EqHigh => 3,
        ParameterKey::Filter => 4,
        ParameterKey::Mix => 5,
        ParameterKey::Crossfader => 6,
        ParameterKey::Plugin(_) => 7,
    }
}

/// The bytes a parameter is ordered by after its kind: a plugin's
/// identifier, nothing for a built-in parameter.
pub open spec fn key_bytes(key: ParameterKey) -> Seq<u8> {
    match key {
        ParameterKey::Plugin(id) => vstd::utf8::encode_utf8(id.spec_text()),
        _ => Seq::empty(),
    }
}

/// Whether two parameters are the same one: the same kind and, for a
/// plugin's, the same identifier.
pub open spec fn same_key(a: ParameterKey, b: ParameterKey) -> bool {
    key_rank(a) == key_rank(b) && key_bytes(a) == key_bytes(b)
}

/// Whether one parameter comes strictly before another.
pub open spec fn key_before(a: ParameterKey, b: ParameterKey) -> bool {
    key_rank(a) < key_rank(b) || (key_rank(a) == key_rank(b) && bytes_before(key_bytes(a), key_bytes(b)))
}

/// Whether two addresses are the same parameter.
pub open spec fn same_address(a: ParameterAddress, b: ParameterAddress) -> bool {
    a.spec_owner() == b.spec_owner() && same_key(a.spec_key(), b.spec_key())
}

/// Whether one address comes strictly before another: by owner, then by
/// parameter.
pub open spec fn address_before(a: ParameterAddress, b: ParameterAddress) -> bool {
    owner_before(a.spec_owner(), b.spec_owner()) || (a.spec_owner() == b.spec_owner() && key_before(
        a.spec_key(),
        b.spec_key(),
    ))
}

/// The owner order is strict, transitive and total.
pub proof fn lemma_owner_order(a: ParameterOwner, b: ParameterOwner, c: ParameterOwner)
    ensures
        !owner_before(a, a),
        a != b ==> owner_before(a, b) || owner_before(b, a),
        !(owner_before(a, b) && owner_before(b, a)),
        owner_before(a, b) && owner_before(b, c) ==> owner_before(a, c),
    decreases a,
{
    match a {
        ParameterOwner::Effect { host: ha, slot: sa } => {
            lemma_owner_order(*ha, *ha, *ha);
            match b {
                ParameterOwner::Effect { host: hb, slot: sb } => {
                    match c {
                        ParameterOwner::Effect { host: hc, .. } => {
                            lemma_owner_order(*ha, *hb, *hc);
                        },
                        _ => {
                            lemma_owner_order(*ha, *hb, *hb);
                        },
                    }
                    if a != b && *ha == *hb {
                        assert(sa != sb);
                    }
                },
                _ => {},
            }
        },
        _ => {},
    }
}

/// The parameter order is strict, transitive and total over different
/// parameters.
pub proof fn lemma_key_order(a: ParameterKey, b: ParameterKey, c: ParameterKey)
    ensures
        !key_before(a, a),
        !same_key(a, b) ==> key_before(a, b) || key_before(b, a),
        !(key_before(a, b) && key_before(b, a)),
        key_before(a, b) && key_before(b, c) ==> key_before(a, c),
        same_key(a, b) ==> !key_before(a, b),
{
    lemma_bytes_before_irreflexive(key_bytes(a));
    lemma_bytes_before_total(key_bytes(a), key_bytes(b));
    if key_before(a, b) && key_before(b, c) && key_rank(a) == key_rank(b) && key_rank(b) == key_rank(c) {
        lemma_bytes_before_transitive(key_bytes(a), key_bytes(b), key_bytes(c));
    }
}

/// The address order is strict, transitive and total over different
/// parameters.
pub proof fn lemma_address_order(a: ParameterAddress, b: ParameterAddress, c: ParameterAddress)
    ensures
        !address_before(a, a),
        !same_address(a, b) ==> address_before(a, b) || address_before(b, a),
        !(address_before(a, b) && address_before(b, a)),
        address_before(a, b) && address_before(b, c) ==> address_before(a, c),
        same_address(a, b) ==> !address_before(a, b) && !address_before(b, a),
{
    lemma_owner_order(a.spec_owner(), b.spec_owner(), c.spec_owner());
    lemma_owner_order(a.spec_owner(), a.spec_owner(), a.spec_owner());
    lemma_owner_order(b.spec_owner(), b.spec_owner(), b.spec_owner());
    lemma_key_order(a.spec_key(), b.spec_key(), c.spec_key());
    lemma_key_order(b.spec_key(), a.spec_key(), c.spec_key());
}

/// Whether one owner comes before another.
pub fn owner_comes_before(a: &ParameterOwner, b: &ParameterOwner) -> (before: bool)
    ensures
        before == owner_before(*a, *b),
    decreases a,
{
    match (a, b) {
        (ParameterOwner::Lane(x), ParameterOwner::Lane(y)) => *x < *y,
        (ParameterOwner::Placement(x), ParameterOwner::Placement(y)) => x.0 < y.0,
        (
            ParameterOwner::Effect { host: first_host, slot: first_slot },
            ParameterOwner::Effect { host: second_host, slot: second_slot },
        ) => {
            if owner_comes_before(first_host, second_host) {
                true
            } else {
                first_host.same(second_host) && *first_slot < *second_slot
            }
        },
        _ => owner_index(a) < owner_index(b),
    }
}

/// Where an owner's kind comes.
fn owner_index(owner: &ParameterOwner) -> (rank: u8)
    ensures
        rank == owner_rank(*owner),
{
    match owner {
        ParameterOwner::Master => 0,
        ParameterOwner::Lane(_) => 1,
        ParameterOwner::Placement(_) => 2,
        ParameterOwner::Effect { .. } => 3,
    }
}

/// Where a parameter's kind comes.
fn key_index(key: &ParameterKey) -> (rank: u8)
    ensures
        rank == key_rank(*key),
{
    match key {
        ParameterKey::Gain => 0,
        ParameterKey::EqLow => 1,
        ParameterKey::EqMid => 2,
        ParameterKey::EqHigh => 3,
        ParameterKey::Filter => 4,
        ParameterKey::Mix => 5,
        ParameterKey::Crossfader => 6,
        ParameterKey::Plugin(_) => 7,
    }
}

/// Whether one parameter comes before another.
pub fn key_comes_before(a: &ParameterKey, b: &ParameterKey) -> (before: bool)
    ensures
        before == key_before(*a, *b),
{
    match (a, b) {
        (ParameterKey::Plugin(x), ParameterKey::Plugin(y)) => bytes_come_before(
            x.as_str().as_bytes(),
            y.as_str().as_bytes(),
        ),
        _ => key_index(a) < key_index(b),
    }
}

/// Whether two parameters are the same one.
pub fn keys_match(a: &ParameterKey, b: &ParameterKey) -> (same: bool)
    ensures
        same == same_key(*a, *b),
{
    match (a, b) {
        (ParameterKey::Plugin(x), ParameterKey::Plugin(y)) => {
            let same = str_equals(x.as_str(), y.as_str());
            proof {
                if !same {
                    lemma_names_differ(x.spec_text(), y.spec_text());
                }
            }
            same
        },
        _ => key_index(a) == key_index(b),
    }
}

impl ParameterAddress {
    /// Whether this address comes before another, in the order addresses are
    /// kept.
    pub fn comes_before(&self, other: &ParameterAddress) -> (before: bool)
        ensures
            before == address_before(*self, *other),
    {
        if owner_comes_before(self.owner(), other.owner()) {
            true
        } else {
            self.owner().same(other.owner()) && key_comes_before(self.key(), other.key())
        }
    }

    /// Whether this address is the same parameter as another.
    pub fn same_as(&self, other: &ParameterAddress) -> (same: bool)
        ensures
            same == same_address(*self, *other),
    {
        self.owner().same(other.owner()) && keys_match(self.key(), other.key())
    }
}

} // verus!
