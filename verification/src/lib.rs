//! Cryptographic core of an anonymous-identity and confidential-payment
//! wallet.
//!
//! The crate combines an additively homomorphic encryption of token amounts
//! (ElGamal in the exponent) with baby-step giant-step discrete-log recovery,
//! an account-holder-side identity and credential pipeline, and a canonical
//! binary transaction layout with per-key signing.
//!
//! Curve and pairing arithmetic is a consumed leaf, not a contribution of this
//! crate: the protocol is written against an additively written cyclic group
//! whose elements are residues modulo 2^64, so that every statement about the
//! protocol itself is machine-checked.

pub mod account;
pub mod bsgs;
pub mod codec;
pub mod elgamal;
pub mod external;
pub mod group;
pub mod identity;
pub mod prf;
pub mod transactions;

use vstd::prelude::*;

verus! {

/// The error taxonomy of the library: every fallible entry point reports
/// exactly one of these.
#[derive(Clone, Copy, PartialEq, Eq, Structural, Debug)]
pub enum WalletError {
    /// A transfer needs a recipient but none was supplied.
    MissingRecipient,
    /// The identity request needs at least one anonymity revoker.
    EmptyRevokerSet,
    /// A policy tried to reveal the same attribute tag twice.
    DuplicateReveal,
    /// A policy tried to reveal a tag absent from the attribute list.
    UnknownAttribute,
    /// A shielded transfer asked for more than the decrypted balance holds.
    InsufficientAmount,
    /// A cryptographic object could not be constructed.
    ConstructionFailure,
}

/// The global cryptographic parameters every operation shares: the
/// designated generator the encryption scheme and the registration IDs are
/// written over.
#[derive(Clone, Copy, PartialEq, Eq, Structural, Debug)]
pub struct GlobalContext {
    pub generator: group::GroupElement,
}

impl GlobalContext {
    /// The parameters are well formed when the chosen element actually
    /// generates the group.
    pub open spec fn wf(self) -> bool {
        self.generator.is_generator()
    }

    /// The generator the encrypted-amount scheme uses.
    pub fn elgamal_generator(&self) -> (r: &group::GroupElement)
        ensures
            r == self.generator,
    {
        &self.generator
    }
}

} // verus!
