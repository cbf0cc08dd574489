//! Credentials held in memory, and references to credentials held elsewhere.

use vstd::prelude::*;

use crate::security::redaction::REDACTED;
use crate::text::{decimal, push_decimal, push_str};
use vstd::string::StringSliceAdditionalSpecFns;

verus! {

/// A credential held in memory.
///
/// It renders only as a redaction marker, compares without stopping at the
/// first difference, and is overwritten with zeros when dropped.
pub struct Secret {
    bytes: Vec<u8>,
}

/// Folding one more pair of bytes into a running difference leaves it zero
/// exactly when it was zero and the bytes agree.
pub proof fn lemma_difference_step(difference: u8, held: u8, offered: u8)
    by (bit_vector)
    ensures
        ((difference | (held ^ offered)) == 0u8) == (difference == 0u8 && held == offered),
{
}

impl Secret {
    /// The bytes held.
    pub closed spec fn spec_bytes(&self) -> Seq<u8> {
        self.bytes@
    }

    /// Takes ownership of some bytes.
    pub fn new(bytes: Vec<u8>) -> (secret: Secret)
        ensures
            secret.spec_bytes() == bytes@,
    {
        Secret { bytes }
    }

    /// Holds the UTF-8 bytes of a text.
    pub fn from_text(text: &str) -> (secret: Secret)
        ensures
            secret.spec_bytes() == text.spec_bytes(),
    {
        Secret::new(vstd::slice::slice_to_vec(text.as_bytes()))
    }

    /// The bytes, for the one place that must hand them on.
    pub fn expose(&self) -> (bytes: &[u8])
        ensures
            bytes@ == self.spec_bytes(),
    {
        self.bytes.as_slice()
    }

    /// The length in bytes, which is not the secret.
    pub fn len(&self) -> (length: usize)
        ensures
            length == self.spec_bytes().len(),
    {
        self.bytes.len()
    }

    /// Whether nothing is held.
    pub fn is_empty(&self) -> (empty: bool)
        ensures
            empty == (self.spec_bytes().len() == 0),
    {
        self.bytes.len() == 0
    }

    /// Whether a candidate equals the secret. Every byte is examined whatever
    /// the earlier ones held, so the time taken does not reveal where the
    /// first difference lies.
    pub fn matches(&self, candidate: &[u8]) -> (matched: bool)
        ensures
            matched == (self.spec_bytes() == candidate@),
    {
        if self.bytes.len() != candidate.len() {
            return false;
        }
        let mut difference: u8 = 0;
        let mut index: usize = 0;
        while index < self.bytes.len()
            invariant
                self.bytes@.len() == candidate@.len(),
                index <= self.bytes@.len(),
                (difference == 0) == forall|i: int| 0 <= i < index ==> self.bytes@[i] == candidate@[i],
            decreases self.bytes@.len() - index,
        {
            let held = self.bytes[index];
            let offered = candidate[index];
            proof {
                lemma_difference_step(difference, held, offered);
            }
            difference = difference | (held ^ offered);
            index += 1;
        }
        proof {
            if difference == 0 {
                assert(self.bytes@ =~= candidate@);
            }
        }
        difference == 0
    }

    /// What the secret renders as: the redaction marker, never its bytes.
    pub fn to_text(&self) -> (text: String)
        ensures
            text@ == REDACTED@,
    {
        let mut text = String::new();
        push_str(&mut text, REDACTED);
        assert(text@ =~= REDACTED@);
        text
    }
}

impl PartialEq for Secret {
    /// Two secrets are equal when their bytes are.
    fn eq(&self, other: &Secret) -> (equal: bool) {
        self.matches(other.bytes.as_slice())
    }
}

impl vstd::std_specs::cmp::PartialEqSpecImpl for Secret {
    open spec fn obeys_eq_spec() -> bool {
        true
    }

    open spec fn eq_spec(&self, other: &Secret) -> bool {
        self.spec_bytes() == other.spec_bytes()
    }
}

impl Eq for Secret {
}

impl Drop for Secret {
    /// Overwrites the bytes with zeros before the memory is released.
    fn drop(&mut self)
        opens_invariants none
        no_unwind
    {
        overwrite_with_zeros(&mut self.bytes);
    }
}

/// Sets every byte to zero, keeping the length: `<[u8]>::fill` with `0`,
/// which clones the value into every element and neither fails nor panics.
/// A wrapper rather than a verified loop because `drop` may open no
/// invariant, and the specifications of `Vec::len` and of writing through
/// `Vec` indexing do not promise that.
#[verifier::external_body]
fn overwrite_with_zeros(bytes: &mut Vec<u8>)
    ensures
        final(bytes)@ == Seq::new(old(bytes)@.len(), |i: int| 0u8),
    opens_invariants none
    no_unwind
{
    bytes.fill(0);
}

/// Why a secret reference could not be made.
#[derive(Debug, Clone, Copy, PartialEq, Eq, Hash, Structural)]
#[non_exhaustive]
pub enum SecretRefError {
    /// The service or the account was empty.
    Empty,
    /// The account is longer than a keychain should be handed.
    AccountTooLong {
        /// Its length in bytes.
        bytes: usize,
    },
}

impl SecretRefError {
    /// The error as a person reads it.
    pub fn to_text(self) -> (text: String)
        ensures
            text@ == (match self {
                SecretRefError::Empty => "a secret reference needs a service and an account"@,
                SecretRefError::AccountTooLong { bytes } => "an account of "@ + decimal(bytes as int)
                    + " bytes is too long"@,
            }),
    {
        let mut text = String::new();
        match self {
            SecretRefError::Empty => {
                push_str(&mut text, "a secret reference needs a service and an account");
            },
            SecretRefError::AccountTooLong { bytes } => {
                push_str(&mut text, "an account of ");
                push_decimal(&mut text, bytes as i128);
                push_str(&mut text, " bytes is too long");
            },
        }
        assert(text@ =~= (match self {
            SecretRefError::Empty => "a secret reference needs a service and an account"@,
            SecretRefError::AccountTooLong { bytes } => "an account of "@ + decimal(bytes as int)
                + " bytes is too long"@,
        }));
        text
    }
}

/// Names a credential held in the platform keychain: the service it belongs to
/// and the account, which is personal and never rendered.
#[derive(Debug, Clone, PartialEq, Eq, Hash)]
pub struct SecretRef {
    service: &'static str,
    account: String,
}

impl SecretRef {
    /// The longest account accepted, in bytes.
    pub const MAX_ACCOUNT_BYTES: usize = 256;

    /// The service.
    pub closed spec fn spec_service(&self) -> &'static str {
        self.service
    }

    /// The account.
    pub closed spec fn spec_account(&self) -> Seq<char> {
        self.account@
    }

    /// Names a credential. Fails with `Empty` when either part is empty, and
    /// otherwise with `AccountTooLong` when the account exceeds
    /// `MAX_ACCOUNT_BYTES` bytes of UTF-8.
    pub fn new(service: &'static str, account: &str) -> (result: Result<SecretRef, SecretRefError>)
        ensures
            (service@.len() == 0 || account@.len() == 0) ==> result == Err::<SecretRef, SecretRefError>(
                SecretRefError::Empty,
            ),
            (service@.len() != 0 && account@.len() != 0 && account.spec_bytes().len() as usize > SecretRef::MAX_ACCOUNT_BYTES)
                ==> result == Err::<SecretRef, SecretRefError>(
                SecretRefError::AccountTooLong { bytes: account.spec_bytes().len() as usize },
            ),
            (service@.len() != 0 && account@.len() != 0 && account.spec_bytes().len() as usize <= SecretRef::MAX_ACCOUNT_BYTES)
                ==> (result matches Ok(reference) && reference.spec_service() == service
                && reference.spec_account() == account@),
    {
        if service.is_empty() || account.is_empty() {
            return Err(SecretRefError::Empty);
        }
        if account.len() > SecretRef::MAX_ACCOUNT_BYTES {
            return Err(SecretRefError::AccountTooLong { bytes: account.len() });
        }
        Ok(SecretRef { service, account: account.to_owned() })
    }

    /// The service the credential belongs to.
    pub fn service(&self) -> (service: &'static str)
        ensures
            service == self.spec_service(),
    {
        self.service
    }

    /// The account, for the one place that must hand it to the keychain.
    pub fn expose_account(&self) -> (account: &str)
        ensures
            account@ == self.spec_account(),
    {
        self.account.as_str()
    }

    /// What the reference renders as: the service, then the redaction marker
    /// in place of the account.
    pub fn to_text(&self) -> (text: String)
        ensures
            text@ == self.spec_service()@ + "/"@ + REDACTED@,
    {
        let mut text = String::new();
        push_str(&mut text, self.service);
        push_str(&mut text, "/");
        push_str(&mut text, REDACTED);
        assert(text@ =~= self.spec_service()@ + "/"@ + REDACTED@);
        text
    }
}

} // verus!
