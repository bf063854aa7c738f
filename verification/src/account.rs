//! Accounts, signature keys and the signing service.
//!
//! An account address is the digest of a credential's registration ID.  An
//! account carries a two-level ordered family of signature keys
//! (credential index, then key index); signing a transaction hash produces
//! the matching two-level ordered family of raw signatures, both orderings
//! canonical so that hashing is deterministic.

use vstd::prelude::*;
use crate::codec::ser_u64;
use crate::external::ed25519_public;
use crate::external::ed25519_sign;
use crate::external::ed25519_signature_of;
use crate::external::random_bytes_32;
use crate::external::sha256;
use crate::external::sha256_of;
use crate::group::GroupElement;

verus! {

/// The canonical bytes an account address is derived from: the digest of
/// the serialized registration ID.
pub open spec fn account_address_of(reg_id: GroupElement) -> Seq<u8> {
    sha256_of(ser_u64(reg_id.v))
}

/// An on-chain account address: 32 bytes.
#[derive(Clone, PartialEq, Eq, Debug)]
pub struct AccountAddress {
    pub bytes: Vec<u8>,
}

impl AccountAddress {
    /// The address is well formed when it holds exactly 32 bytes.
    pub open spec fn wf(self) -> bool {
        self.bytes@.len() == 32
    }

    /// Derive the address of the credential with this registration ID.
    pub fn new(reg_id: &GroupElement) -> (r: AccountAddress)
        ensures
            r.wf(),
            r.bytes@ == account_address_of(*reg_id),
    {
        let mut ser: Vec<u8> = Vec::new();
        crate::codec::put_u64(&mut ser, reg_id.v);
        let digest = sha256(&ser);
        AccountAddress { bytes: digest }
    }
}

/// Whether a byte is a lowercase hexadecimal digit.
pub open spec fn is_hex_digit_byte(b: u8) -> bool {
    (48 <= b && b <= 57) || (97 <= b && b <= 102)
}

/// Check the textual form of an account address: 64 lowercase hexadecimal
/// digits.
pub fn check_account_address(text: &Vec<u8>) -> (r: bool)
    ensures
        r <==> (text@.len() == 64 && forall|i: int|
            0 <= i < text@.len() ==> is_hex_digit_byte(#[trigger] text@[i])),
{
    if text.len() != 64 {
        return false;
    }
    let mut i: usize = 0;
    while i < text.len()
        invariant
            text@.len() == 64,
            i <= text@.len(),
            forall|j: int| 0 <= j < i ==> is_hex_digit_byte(#[trigger] text@[j]),
        decreases text@.len() - i,
    {
        let b = text[i];
        if !((48 <= b && b <= 57) || (97 <= b && b <= 102)) {
            return false;
        }
        i = i + 1;
    }
    true
}

/// One Ed25519 signature key pair.
#[derive(Clone, PartialEq, Eq, Debug)]
pub struct KeyPair {
    pub secret: Vec<u8>,
    pub public: Vec<u8>,
}

impl KeyPair {
    /// A key pair is well formed when the secret key is 32 bytes and the
    /// public key is the one the secret key determines.
    pub open spec fn wf(self) -> bool {
        self.secret@.len() == 32 && self.public@ == crate::external::ed25519_public_of(
            self.secret@,
        )
    }

    /// Generate a fresh key pair from the randomness source.
    pub fn generate() -> (r: KeyPair)
        ensures
            r.wf(),
    {
        let secret = random_bytes_32();
        let public = ed25519_public(&secret);
        KeyPair { secret, public }
    }

    /// Rebuild a key pair from a stored 32-byte secret key, deriving the
    /// matching public key.  Fails on any other length.
    pub fn from_secret(secret: Vec<u8>) -> (r: Option<KeyPair>)
        ensures
            secret@.len() == 32 <==> r is Some,
            r matches Some(kp) ==> kp.wf() && kp.secret@ == secret@,
    {
        if secret.len() != 32 {
            return None;
        }
        let public = ed25519_public(&secret);
        Some(KeyPair { secret, public })
    }
}

/// One raw signature.
#[derive(Clone, PartialEq, Eq, Debug)]
pub struct Signature {
    pub sig: Vec<u8>,
}

/// The signature keys of an account: for each credential index, the keys by
/// key index; both levels strictly ordered.
#[derive(Clone, PartialEq, Eq, Debug)]
pub struct AccountKeys {
    pub keys: Vec<(u8, Vec<(u8, KeyPair)>)>,
}

/// A sequence of indexed entries is canonically ordered when the indices
/// strictly increase.
pub open spec fn indices_sorted<T>(s: Seq<(u8, T)>) -> bool {
    forall|i: int, j: int| 0 <= i < j < s.len() ==> s[i].0 < s[j].0
}

impl AccountKeys {
    /// Both levels strictly ordered, and every key pair well formed.
    pub open spec fn wf(self) -> bool {
        &&& indices_sorted(self.keys@)
        &&& forall|i: int|
            0 <= i < self.keys@.len() ==> indices_sorted(#[trigger] self.keys@[i].1@)
        &&& forall|i: int, j: int|
            0 <= i < self.keys@.len() && 0 <= j < self.keys@[i].1@.len()
                ==> (#[trigger] self.keys@[i].1@[j].1).wf()
    }
}

/// The key family a fresh account starts with: exactly one key pair, at
/// credential index 0 and key index 0.
pub open spec fn single_key_family(keys: AccountKeys) -> bool {
    &&& keys.keys@.len() == 1
    &&& keys.keys@[0].0 == 0
    &&& keys.keys@[0].1@.len() == 1
    &&& keys.keys@[0].1@[0].0 == 0
}

/// The signatures over a transaction hash: for each credential index, the
/// raw signatures by key index; both levels strictly ordered.
#[derive(Clone, PartialEq, Eq, Debug)]
pub struct TransactionSignature {
    pub signatures: Vec<(u8, Vec<(u8, Signature)>)>,
}

/// The signatures mirror the key family entry for entry: same credential
/// indices in the same order, same key indices in the same order, and each
/// signature is the Ed25519 signature of the hash under the matching
/// secret key.
pub open spec fn signatures_match(
    keys: AccountKeys,
    hash: Seq<u8>,
    ts: TransactionSignature,
) -> bool {
    &&& ts.signatures@.len() == keys.keys@.len()
    &&& forall|i: int|
        0 <= i < keys.keys@.len() ==> (#[trigger] ts.signatures@[i]).0 == keys.keys@[i].0
    &&& forall|i: int|
        0 <= i < keys.keys@.len() ==> (#[trigger] ts.signatures@[i]).1@.len()
            == keys.keys@[i].1@.len()
    &&& forall|i: int, j: int|
        0 <= i < keys.keys@.len() && 0 <= j < keys.keys@[i].1@.len() ==> (
        #[trigger] ts.signatures@[i].1@[j]).0 == keys.keys@[i].1@[j].0
    &&& forall|i: int, j: int|
        0 <= i < keys.keys@.len() && 0 <= j < keys.keys@[i].1@.len() ==> (
        #[trigger] ts.signatures@[i].1@[j]).1.sig@ == ed25519_signature_of(
            keys.keys@[i].1@[j].1.secret@,
            hash,
        )
    &&& forall|i: int, j: int|
        0 <= i < keys.keys@.len() && 0 <= j < keys.keys@[i].1@.len() ==> (
        #[trigger] ts.signatures@[i].1@[j]).1.sig@.len() == 64
}

/// Sign the given hash with every configured key.  No threshold is
/// enforced here: which signatures suffice is a chain-side concern.
pub fn make_signatures(keys: &AccountKeys, hash: &Vec<u8>) -> (r: TransactionSignature)
    requires
        keys.wf(),
    ensures
        signatures_match(*keys, hash@, r),
{
    let mut out: Vec<(u8, Vec<(u8, Signature)>)> = Vec::new();
    let mut i: usize = 0;
    while i < keys.keys.len()
        invariant
            keys.wf(),
            i <= keys.keys@.len(),
            out@.len() == i,
            forall|i2: int| 0 <= i2 < i ==> (#[trigger] out@[i2]).0 == keys.keys@[i2].0,
            forall|i2: int|
                0 <= i2 < i ==> (#[trigger] out@[i2]).1@.len() == keys.keys@[i2].1@.len(),
            forall|i2: int, j: int|
                0 <= i2 < i && 0 <= j < keys.keys@[i2].1@.len() ==> (#[trigger] out@[i2].1@[j]).0
                    == keys.keys@[i2].1@[j].0,
            forall|i2: int, j: int|
                0 <= i2 < i && 0 <= j < keys.keys@[i2].1@.len() ==> (
                #[trigger] out@[i2].1@[j]).1.sig@ == ed25519_signature_of(
                    keys.keys@[i2].1@[j].1.secret@,
                    hash@,
                ),
            forall|i2: int, j: int|
                0 <= i2 < i && 0 <= j < keys.keys@[i2].1@.len() ==> (
                #[trigger] out@[i2].1@[j]).1.sig@.len() == 64,
        decreases keys.keys@.len() - i,
    {
        let cred = &keys.keys[i];
        let mut cred_sigs: Vec<(u8, Signature)> = Vec::new();
        let mut j: usize = 0;
        while j < cred.1.len()
            invariant
                keys.wf(),
                i < keys.keys@.len(),
                cred == keys.keys@[i as int],
                j <= cred.1@.len(),
                cred_sigs@.len() == j,
                forall|j2: int|
                    0 <= j2 < j ==> (#[trigger] cred_sigs@[j2]).0 == cred.1@[j2].0,
                forall|j2: int|
                    0 <= j2 < j ==> (#[trigger] cred_sigs@[j2]).1.sig@ == ed25519_signature_of(
                        cred.1@[j2].1.secret@,
                        hash@,
                    ),
                forall|j2: int| 0 <= j2 < j ==> (#[trigger] cred_sigs@[j2]).1.sig@.len() == 64,
            decreases cred.1@.len() - j,
        {
            let kp = &cred.1[j].1;
            let sig = ed25519_sign(&kp.secret, hash);
            cred_sigs.push((cred.1[j].0, Signature { sig }));
            j = j + 1;
        }
        out.push((cred.0, cred_sigs));
        i = i + 1;
    }
    TransactionSignature { signatures: out }
}

} // verus!
