//! The account-holder side of the identity and credential pipeline.
//!
//! Two externally triggered transitions: building the request that goes to
//! the identity provider, and deriving an on-chain credential from the
//! provider-signed identity object.  Both are pure functions of their
//! inputs plus the randomness they draw; no state survives beyond the
//! private bundle the caller carries forward.  The proof layer is a
//! consumed leaf: its objects appear here as binding transcripts over the
//! statements they attest to.

use vstd::prelude::*;
use crate::GlobalContext;
use crate::WalletError;
use crate::account::AccountAddress;
use crate::account::AccountKeys;
use crate::account::KeyPair;
use crate::account::account_address_of;
use crate::account::indices_sorted;
use crate::account::single_key_family;
use crate::codec::put_u64;
use crate::elgamal::PublicKey;
use crate::elgamal::SecretKey;
use crate::elgamal::encrypts_under;
use crate::elgamal::matches_secret;
use crate::elgamal::Cipher;
use crate::external::sha256;
use crate::external::sha256_of;
use crate::external::random_u64;
use crate::group::GroupElement;
use crate::group::g_add;
use crate::group::g_scale;
use crate::group::scalar_add;
use crate::prf::PrfKey;

verus! {

/// The account holder's identity credential pair.
#[derive(Clone, Copy, PartialEq, Eq, Structural, Debug)]
pub struct IdCredentials {
    pub id_cred_sec: SecretKey,
    pub id_cred_pub: PublicKey,
}

impl IdCredentials {
    /// The public part is the one the secret part determines.
    pub open spec fn wf(self) -> bool {
        matches_secret(self.id_cred_pub, self.id_cred_sec)
    }

    /// Generate a fresh credential pair over the given generator.
    pub fn generate(generator: &GroupElement) -> (r: IdCredentials)
        ensures
            r.wf(),
            r.id_cred_sec.generator == *generator,
    {
        let id_cred_sec = SecretKey::generate(generator);
        let id_cred_pub = PublicKey::from_secret(&id_cred_sec);
        IdCredentials { id_cred_sec, id_cred_pub }
    }
}

/// The account holder's name and identity credentials.
#[derive(Clone, Debug)]
pub struct CredentialHolderInfo {
    pub id_ah: String,
    pub id_cred: IdCredentials,
}

/// The account holder's full secret bundle: identity credentials and the
/// pseudo-random function key.  Never transmitted in plaintext.
#[derive(Clone, Debug)]
pub struct AccCredentialInfo {
    pub cred_holder_info: CredentialHolderInfo,
    pub prf_key: PrfKey,
}

/// Public information about one anonymity revoker.
#[derive(Clone, Copy, PartialEq, Eq, Structural, Debug)]
pub struct ArInfo {
    pub ar_identity: u32,
    pub ar_public_key: PublicKey,
}

/// One revoker's entry in a request: which revoker, and the account
/// holder's PRF key encrypted to that revoker.
#[derive(Clone, Copy, PartialEq, Eq, Structural, Debug)]
pub struct ArData {
    pub ar_identity: u32,
    pub enc_prf_key: Cipher,
}

/// Public information about an identity provider.
#[derive(Clone, Debug)]
pub struct IpInfo {
    pub id_identity: String,
    pub id_verify_key: Vec<u8>,
}

/// The attribute list an identity carries: validity window, the number of
/// accounts the identity may open, and the attributes by tag, canonically
/// ordered.
#[derive(Clone, Debug)]
pub struct AttributeList {
    pub valid_to: u32,
    pub created_at: u32,
    pub max_accounts: u8,
    pub alist: Vec<(u8, Vec<u8>)>,
}

impl AttributeList {
    /// The attributes are strictly ordered by tag.
    pub open spec fn wf(self) -> bool {
        indices_sorted(self.alist@)
    }

    /// Whether an attribute with this tag is present.
    pub open spec fn has_tag(self, tag: u8) -> bool {
        exists|i: int| 0 <= i < self.alist@.len() && (#[trigger] self.alist@[i]).0 == tag
    }
}

/// The revealed-attribute policy of a credential.
#[derive(Clone, Debug)]
pub struct Policy {
    pub valid_to: u32,
    pub created_at: u32,
    pub policy_vec: Vec<(u8, Vec<u8>)>,
}

impl Policy {
    /// Whether the policy reveals an attribute with this tag.
    pub open spec fn reveals_tag(self, tag: u8) -> bool {
        exists|i: int| 0 <= i < self.policy_vec@.len() && (#[trigger] self.policy_vec@[i]).0 == tag
    }
}

/// The public request bundle sent to the identity provider.  Created once
/// per identity, immutable once submitted.
#[derive(Clone, Debug)]
pub struct PreIdentityObject {
    /// Name of the account holder.
    pub id_ah: String,
    /// Public credential of the account holder.
    pub id_cred_pub: PublicKey,
    /// One entry per chosen anonymity revoker: all configured revokers.
    pub id_ar_data: Vec<ArData>,
    /// How many revokers must agree to de-anonymize.
    pub threshold: u8,
    /// Chosen attribute list.
    pub alist: AttributeList,
    /// Transcript attesting knowledge of the secret credential.
    pub pok_sc: Vec<u8>,
    /// Commitment to the PRF key.
    pub cmm_prf: GroupElement,
    /// Transcript attesting that commitment and encryptions agree.
    pub proof_com_eq: Vec<u8>,
}

/// The provider-signed extension of the pre-identity object.  A capability
/// token: every derived credential forwards its fields verbatim.
#[derive(Clone, Debug)]
pub struct IdentityObject {
    pub id_provider: IpInfo,
    pub pre_identity_object: PreIdentityObject,
    pub sig: Vec<u8>,
}

/// The private bundle the account holder carries forward to derive
/// credentials from the identity.
#[derive(Clone, Debug)]
pub struct IdObjectUseData {
    pub aci: AccCredentialInfo,
    pub randomness: u64,
}

/// A per-account derived credential, ready to deploy on chain.
#[derive(Clone, Debug)]
pub struct CredDeploymentInfo {
    /// The PRF-derived registration ID of the account.
    pub reg_id: GroupElement,
    /// The revealed-attribute policy.
    pub policy: Policy,
    /// The signature threshold of the new account's keys.
    pub threshold: u8,
    /// Transcript attesting the credential's statements.
    pub proofs: Vec<u8>,
}

/// Either a brand-new account or an existing one a credential is deployed
/// to.
#[derive(Clone, Debug)]
pub enum CredentialTarget {
    NewAccount { expiry: u64 },
    ExistingAccount { address: AccountAddress },
}

/// The anonymity-revoker threshold chosen for a request: all revokers but
/// one must agree, never fewer than one, capped at the field width.
pub open spec fn spec_ar_threshold(n: int) -> int {
    if n - 1 < 1 {
        1
    } else if n - 1 > 255 {
        255
    } else {
        n - 1
    }
}

/// What `create_id_request_and_private_data` returns on success.
#[derive(Clone, Debug)]
pub struct IdRequestOutput {
    /// The public request for the identity provider.
    pub pio: PreIdentityObject,
    /// The private bundle the account holder keeps.
    pub id_use_data: IdObjectUseData,
    /// The registration ID of the initial account.
    pub reg_id: GroupElement,
    /// The signature keys of the initial account.
    pub account_keys: AccountKeys,
    /// The shielded-balance secret key of the initial account.
    pub encryption_secret_key: SecretKey,
    /// Its public counterpart.
    pub encryption_public_key: PublicKey,
    /// The address of the initial account.
    pub account_address: AccountAddress,
}

/// Build the identity request: fresh identity credentials and PRF key, the
/// PRF key encrypted to every configured revoker, the chosen attribute
/// list, the commitment and transcripts, and the initial account's keys,
/// address and shielded-balance key pair.  Fails on an empty revoker set,
/// or when the fresh PRF key cannot derive the initial account.
pub fn create_id_request_and_private_data(
    ip_info: &IpInfo,
    ars: &Vec<ArInfo>,
    global: &GlobalContext,
    id_ah: String,
    alist: AttributeList,
) -> (r: Result<IdRequestOutput, WalletError>)
    requires
        global.wf(),
    ensures
        ars@.len() == 0 <==> r == Err::<IdRequestOutput, WalletError>(WalletError::EmptyRevokerSet),
        r is Err ==> (r == Err::<IdRequestOutput, WalletError>(WalletError::EmptyRevokerSet) || r
            == Err::<IdRequestOutput, WalletError>(WalletError::ConstructionFailure)),
        r matches Ok(out) ==> {
            let key = out.id_use_data.aci.prf_key;
            &&& out.pio.threshold as int == spec_ar_threshold(ars@.len() as int)
            &&& out.pio.id_ar_data@.len() == ars@.len()
            &&& forall|i: int|
                0 <= i < ars@.len() ==> (#[trigger] out.pio.id_ar_data@[i]).ar_identity
                    == ars@[i].ar_identity
            &&& forall|i: int|
                0 <= i < ars@.len() ==> encrypts_under(
                    (#[trigger] out.pio.id_ar_data@[i]).enc_prf_key,
                    ars@[i].ar_public_key,
                    key.key as int,
                )
            &&& out.pio.alist == alist
            &&& out.id_use_data.aci.cred_holder_info.id_cred.wf()
            &&& out.pio.id_cred_pub == out.id_use_data.aci.cred_holder_info.id_cred.id_cred_pub
            &&& key.spec_prf_exponent(0) is Some
            &&& Some(out.reg_id) == key.spec_prf(global.generator, 0)
            &&& out.account_address.bytes@ == account_address_of(out.reg_id)
            &&& out.encryption_secret_key.generator == global.generator
            &&& Some(out.encryption_secret_key.scalar) == key.spec_prf_exponent(0)
            &&& matches_secret(out.encryption_public_key, out.encryption_secret_key)
            &&& out.account_keys.wf()
            &&& single_key_family(out.account_keys)
            &&& out.pio.cmm_prf.v == g_scale(
                g_add(key.key as int, out.id_use_data.randomness as int),
                global.generator.v as int,
            )
            &&& out.pio.pok_sc@ == sha256_of(
                crate::codec::ser_u64(out.pio.id_cred_pub.key.v) + ip_info.id_verify_key@,
            )
            &&& out.pio.proof_com_eq@ == sha256_of(
                crate::codec::ser_u64(out.pio.cmm_prf.v) + crate::codec::ser_u64(
                    out.pio.id_cred_pub.key.v,
                ),
            )
        },
{
    if ars.len() == 0 {
        return Err(WalletError::EmptyRevokerSet);
    }
    let threshold: u8 = ar_threshold(ars.len());
    let prf_key = PrfKey::generate();
    let exponent0 = match prf_key.prf_exponent(0) {
        Some(e) => e,
        None => {
            return Err(WalletError::ConstructionFailure);
        },
    };
    let id_cred = IdCredentials::generate(&global.generator);
    let randomness = random_u64();

    let mut id_ar_data: Vec<ArData> = Vec::new();
    let mut i: usize = 0;
    while i < ars.len()
        invariant
            i <= ars@.len(),
            id_ar_data@.len() == i,
            forall|i2: int|
                0 <= i2 < i ==> (#[trigger] id_ar_data@[i2]).ar_identity == ars@[i2].ar_identity,
            forall|i2: int|
                0 <= i2 < i ==> encrypts_under(
                    (#[trigger] id_ar_data@[i2]).enc_prf_key,
                    ars@[i2].ar_public_key,
                    prf_key.key as int,
                ),
        decreases ars@.len() - i,
    {
        let enc = ars[i].ar_public_key.encrypt_amount(prf_key.key);
        id_ar_data.push(ArData { ar_identity: ars[i].ar_identity, enc_prf_key: enc });
        i = i + 1;
    }

    let cmm_prf = global.generator.mul_by_scalar(scalar_add(prf_key.key, randomness));

    let mut pok_statement: Vec<u8> = Vec::new();
    put_u64(&mut pok_statement, id_cred.id_cred_pub.key.v);
    crate::codec::put_bytes(&mut pok_statement, &ip_info.id_verify_key);
    let pok_sc = sha256(&pok_statement);

    let mut com_eq_statement: Vec<u8> = Vec::new();
    put_u64(&mut com_eq_statement, cmm_prf.v);
    put_u64(&mut com_eq_statement, id_cred.id_cred_pub.key.v);
    let proof_com_eq = sha256(&com_eq_statement);

    let reg_id = match prf_key.prf(&global.generator, 0) {
        Some(g) => g,
        None => {
            return Err(WalletError::ConstructionFailure);
        },
    };
    let account_address = AccountAddress::new(&reg_id);
    let encryption_secret_key = SecretKey { generator: global.generator, scalar: exponent0 };
    let encryption_public_key = PublicKey::from_secret(&encryption_secret_key);

    let initial_key = KeyPair::generate();
    let mut cred_keys: Vec<(u8, KeyPair)> = Vec::new();
    cred_keys.push((0, initial_key));
    let mut keys: Vec<(u8, Vec<(u8, KeyPair)>)> = Vec::new();
    keys.push((0, cred_keys));
    let account_keys = AccountKeys { keys };

    let pio = PreIdentityObject {
        id_ah,
        id_cred_pub: id_cred.id_cred_pub,
        id_ar_data,
        threshold,
        alist,
        pok_sc,
        cmm_prf,
        proof_com_eq,
    };
    let aci = AccCredentialInfo {
        cred_holder_info: CredentialHolderInfo { id_ah: String::new(), id_cred },
        prf_key,
    };
    let id_use_data = IdObjectUseData { aci, randomness };
    Ok(
        IdRequestOutput {
            pio,
            id_use_data,
            reg_id,
            account_keys,
            encryption_secret_key,
            encryption_public_key,
            account_address,
        },
    )
}

/// The anonymity-revoker threshold for `n` configured revokers.
pub fn ar_threshold(n: usize) -> (r: u8)
    requires
        1 <= n,
    ensures
        r as int == spec_ar_threshold(n as int),
{
    if n - 1 < 1 {
        1
    } else if n - 1 > 255 {
        255
    } else {
        (n - 1) as u8
    }
}

/// The first policy error the tag list runs into, scanned front to back:
/// a tag absent from the attribute list, or a tag revealed a second time.
pub open spec fn spec_policy_error_from(alist: AttributeList, tags: Seq<u8>, i: int) -> Option<
    WalletError,
>
    decreases tags.len() - i,
{
    if i < 0 || i >= tags.len() {
        None
    } else if !alist.has_tag(tags[i]) {
        Some(WalletError::UnknownAttribute)
    } else if tags.subrange(0, i).contains(tags[i]) {
        Some(WalletError::DuplicateReveal)
    } else {
        spec_policy_error_from(alist, tags, i + 1)
    }
}

/// The first policy error in the whole tag list, if any.
pub open spec fn spec_policy_error(alist: AttributeList, tags: Seq<u8>) -> Option<WalletError> {
    spec_policy_error_from(alist, tags, 0)
}

/// An owned copy of a byte string.
fn copy_bytes(v: &Vec<u8>) -> (r: Vec<u8>)
    ensures
        r@ == v@,
{
    let mut out: Vec<u8> = Vec::new();
    let mut i: usize = 0;
    while i < v.len()
        invariant
            i <= v@.len(),
            out@ == v@.subrange(0, i as int),
        decreases v@.len() - i,
    {
        out.push(v[i]);
        proof {
            assert(out@ =~= v@.subrange(0, i + 1));
        }
        i = i + 1;
    }
    proof {
        assert(v@.subrange(0, v@.len() as int) =~= v@);
    }
    out
}

/// Whether a byte occurs in a vector.
fn contains_tag(tags: &Vec<u8>, t: u8) -> (r: bool)
    ensures
        r <==> tags@.contains(t),
{
    let mut i: usize = 0;
    while i < tags.len()
        invariant
            i <= tags@.len(),
            forall|j: int| 0 <= j < i ==> tags@[j] != t,
        decreases tags@.len() - i,
    {
        if tags[i] == t {
            assert(tags@[i as int] == t);
            return true;
        }
        i = i + 1;
    }
    false
}

/// Whether a byte occurs among the first `n` entries of a vector.
fn contains_tag_upto(tags: &Vec<u8>, n: usize, t: u8) -> (r: bool)
    requires
        n <= tags@.len(),
    ensures
        r <==> tags@.subrange(0, n as int).contains(t),
{
    let mut i: usize = 0;
    while i < n
        invariant
            n <= tags@.len(),
            i <= n,
            forall|j: int| 0 <= j < i ==> tags@[j] != t,
        decreases n - i,
    {
        if tags[i] == t {
            assert(tags@.subrange(0, n as int)[i as int] == t);
            return true;
        }
        i = i + 1;
    }
    proof {
        if tags@.subrange(0, n as int).contains(t) {
            let j = choose|j: int| 0 <= j < n && tags@.subrange(0, n as int)[j] == t;
            assert(tags@[j] == t);
        }
    }
    false
}

/// Whether the attribute list holds a tag.
fn alist_has_tag(alist: &AttributeList, t: u8) -> (r: bool)
    ensures
        r <==> alist.has_tag(t),
{
    let mut i: usize = 0;
    while i < alist.alist.len()
        invariant
            i <= alist.alist@.len(),
            forall|j: int| 0 <= j < i ==> (#[trigger] alist.alist@[j]).0 != t,
        decreases alist.alist@.len() - i,
    {
        if alist.alist[i].0 == t {
            assert((alist.alist@[i as int]).0 == t);
            return true;
        }
        i = i + 1;
    }
    false
}

/// Build the revealed-attribute policy for a tag list: reject a tag absent
/// from the attribute list, reject a tag revealed twice, and carry the
/// validity window over verbatim.  The revealed attributes come out in the
/// attribute list's canonical order.
pub fn build_policy(alist: &AttributeList, tags: &Vec<u8>) -> (r: Result<Policy, WalletError>)
    requires
        alist.wf(),
    ensures
        r matches Err(e) ==> Some(e) == spec_policy_error(*alist, tags@),
        r is Ok <==> spec_policy_error(*alist, tags@) is None,
        r matches Ok(p) ==> {
            &&& p.valid_to == alist.valid_to
            &&& p.created_at == alist.created_at
            &&& indices_sorted(p.policy_vec@)
            &&& forall|t: u8| p.reveals_tag(t) <==> (tags@.contains(t) && alist.has_tag(t))
            &&& forall|i: int|
                0 <= i < p.policy_vec@.len() ==> exists|j: int|
                    0 <= j < alist.alist@.len() && (#[trigger] p.policy_vec@[i]).0
                        == alist.alist@[j].0 && p.policy_vec@[i].1@ == alist.alist@[j].1@
        },
{
    let ghost tags_seq = tags@;
    let mut i: usize = 0;
    while i < tags.len()
        invariant
            tags_seq == tags@,
            i <= tags@.len(),
            spec_policy_error_from(*alist, tags@, i as int) == spec_policy_error(*alist, tags@),
            forall|j: int| 0 <= j < i ==> alist.has_tag(#[trigger] tags@[j]),
            forall|j1: int, j2: int| 0 <= j1 < j2 < i ==> tags@[j1] != tags@[j2],
        decreases tags@.len() - i,
    {
        let t = tags[i];
        if !alist_has_tag(alist, t) {
            return Err(WalletError::UnknownAttribute);
        }
        if contains_tag_upto(tags, i, t) {
            proof {
                let j = choose|j: int| 0 <= j < i && tags@.subrange(0, i as int)[j] == t;
                assert(tags@[j] == t);
            }
            return Err(WalletError::DuplicateReveal);
        }
        proof {
            assert forall|j1: int, j2: int| 0 <= j1 < j2 < i + 1 implies tags@[j1]
                != tags@[j2] by {
                if j2 == i && tags@[j1] == t {
                    assert(tags@.subrange(0, i as int)[j1] == t);
                }
            }
        }
        i = i + 1;
    }
    let mut policy_vec: Vec<(u8, Vec<u8>)> = Vec::new();
    let mut j: usize = 0;
    while j < alist.alist.len()
        invariant
            alist.wf(),
            j <= alist.alist@.len(),
            indices_sorted(policy_vec@),
            forall|k: int|
                0 <= k < policy_vec@.len() ==> exists|j2: int|
                    0 <= j2 < j && (#[trigger] policy_vec@[k]).0 == alist.alist@[j2].0
                        && policy_vec@[k].1@ == alist.alist@[j2].1@,
            forall|t: u8|
                (exists|k: int|
                    0 <= k < policy_vec@.len() && (#[trigger] policy_vec@[k]).0 == t) <==> (
                tags@.contains(t) && exists|j2: int|
                    0 <= j2 < j && (#[trigger] alist.alist@[j2]).0 == t),
        decreases alist.alist@.len() - j,
    {
        let entry_tag = alist.alist[j].0;
        let ghost old_policy = policy_vec@;
        let included = contains_tag(tags, entry_tag);
        if included {
            let entry_value = copy_bytes(&alist.alist[j].1);
            policy_vec.push((entry_tag, entry_value));
            proof {
                assert(policy_vec@[old_policy.len() as int].0 == entry_tag);
                assert forall|k: int| 0 <= k < policy_vec@.len() implies exists|j2: int|
                    0 <= j2 < j + 1 && (#[trigger] policy_vec@[k]).0 == alist.alist@[j2].0
                        && policy_vec@[k].1@ == alist.alist@[j2].1@ by {
                    if k < old_policy.len() {
                        let j2 = choose|j2: int|
                            0 <= j2 < j && old_policy[k].0 == alist.alist@[j2].0
                                && old_policy[k].1@ == alist.alist@[j2].1@;
                        assert(0 <= j2 < j + 1 && policy_vec@[k].0 == alist.alist@[j2].0
                            && policy_vec@[k].1@ == alist.alist@[j2].1@);
                    } else {
                        assert(0 <= j < j + 1 && policy_vec@[k].0 == alist.alist@[j as int].0
                            && policy_vec@[k].1@ == alist.alist@[j as int].1@);
                    }
                }
                assert forall|k1: int, k2: int| 0 <= k1 < k2 < policy_vec@.len() implies
                    policy_vec@[k1].0 < policy_vec@[k2].0 by {
                    if k2 == old_policy.len() {
                        let j2 = choose|j2: int|
                            0 <= j2 < j && old_policy[k1].0 == alist.alist@[j2].0
                                && old_policy[k1].1@ == alist.alist@[j2].1@;
                        assert(alist.alist@[j2].0 < alist.alist@[j as int].0);
                    }
                }
            }
        }
        proof {
            assert forall|t: u8|
                (exists|k: int|
                    0 <= k < policy_vec@.len() && (#[trigger] policy_vec@[k]).0 == t) <==> (
                tags@.contains(t) && exists|j2: int|
                    0 <= j2 < j + 1 && (#[trigger] alist.alist@[j2]).0 == t) by {
                if exists|k: int| 0 <= k < policy_vec@.len() && (#[trigger] policy_vec@[k]).0
                    == t {
                    let k = choose|k: int|
                        0 <= k < policy_vec@.len() && (#[trigger] policy_vec@[k]).0 == t;
                    if k < old_policy.len() {
                        assert(0 <= k < old_policy.len() && old_policy[k].0 == t);
                    } else {
                        assert(t == entry_tag);
                        assert(0 <= j < j + 1 && alist.alist@[j as int].0 == t);
                    }
                }
                if tags@.contains(t) && exists|j2: int|
                    0 <= j2 < j + 1 && (#[trigger] alist.alist@[j2]).0 == t {
                    let j2 = choose|j2: int| 0 <= j2 < j + 1 && alist.alist@[j2].0 == t;
                    if j2 < j {
                        let k = choose|k: int|
                            0 <= k < old_policy.len() && old_policy[k].0 == t;
                        assert(policy_vec@[k].0 == t);
                    } else {
                        assert(t == entry_tag);
                        assert(included);
                        assert(policy_vec@[old_policy.len() as int].0 == t);
                    }
                }
            }
        }
        j = j + 1;
    }
    Ok(Policy { valid_to: alist.valid_to, created_at: alist.created_at, policy_vec })
}

/// What `create_credential` returns on success.
#[derive(Clone, Debug)]
pub struct CredentialOutput {
    /// The credential to deploy.
    pub cdi: CredDeploymentInfo,
    /// The fresh signature keys of the account.
    pub account_keys: AccountKeys,
    /// The shielded-balance secret key, sharing the registration ID's
    /// exponent.
    pub encryption_secret_key: SecretKey,
    /// Its public counterpart.
    pub encryption_public_key: PublicKey,
    /// The address the credential deploys to.
    pub account_address: AccountAddress,
}

/// Derive an on-chain credential from a signed identity object: validate
/// the revealed-attribute policy, derive the registration ID and the
/// shielded-balance key pair from the PRF key at this account number, and
/// draw fresh signature keys.  Fails on a duplicate or unknown reveal tag,
/// or when the PRF is undefined at the account number.
pub fn create_credential(
    global: &GlobalContext,
    id_object: &IdentityObject,
    id_use_data: &IdObjectUseData,
    acc_num: u8,
    revealed_tags: &Vec<u8>,
    target: &CredentialTarget,
) -> (r: Result<CredentialOutput, WalletError>)
    requires
        id_object.pre_identity_object.alist.wf(),
    ensures
        spec_policy_error(id_object.pre_identity_object.alist, revealed_tags@) matches Some(e)
            ==> r == Err::<CredentialOutput, WalletError>(e),
        r is Ok <==> (spec_policy_error(id_object.pre_identity_object.alist, revealed_tags@)
            is None && id_use_data.aci.prf_key.spec_prf_exponent(acc_num) is Some),
        (spec_policy_error(id_object.pre_identity_object.alist, revealed_tags@) is None
            && id_use_data.aci.prf_key.spec_prf_exponent(acc_num) is None) ==> r == Err::<
            CredentialOutput,
            WalletError,
        >(WalletError::ConstructionFailure),
        r matches Ok(out) ==> {
            let key = id_use_data.aci.prf_key;
            let alist = id_object.pre_identity_object.alist;
            &&& Some(out.cdi.reg_id) == key.spec_prf(global.generator, acc_num)
            &&& Some(out.encryption_secret_key.scalar) == key.spec_prf_exponent(acc_num)
            &&& out.encryption_secret_key.generator == global.generator
            &&& matches_secret(out.encryption_public_key, out.encryption_secret_key)
            &&& (target matches CredentialTarget::NewAccount { expiry }
                ==> out.account_address.bytes@ == account_address_of(out.cdi.reg_id))
            &&& (target matches CredentialTarget::ExistingAccount { address }
                ==> out.account_address.bytes@ == address.bytes@)
            &&& out.cdi.policy.valid_to == alist.valid_to
            &&& out.cdi.policy.created_at == alist.created_at
            &&& (forall|t: u8|
                out.cdi.policy.reveals_tag(t) <==> (revealed_tags@.contains(t)
                    && alist.has_tag(t)))
            &&& out.cdi.threshold == 1
            &&& out.account_keys.wf()
            &&& single_key_family(out.account_keys)
            &&& out.cdi.proofs@ == sha256_of(crate::codec::ser_u64(out.cdi.reg_id.v))
        },
{
    let alist = &id_object.pre_identity_object.alist;
    let policy = match build_policy(alist, revealed_tags) {
        Ok(p) => p,
        Err(e) => {
            return Err(e);
        },
    };
    let key = &id_use_data.aci.prf_key;
    let exponent = match key.prf_exponent(acc_num) {
        Some(e) => e,
        None => {
            return Err(WalletError::ConstructionFailure);
        },
    };
    let reg_id = match key.prf(global.elgamal_generator(), acc_num) {
        Some(g) => g,
        None => {
            return Err(WalletError::ConstructionFailure);
        },
    };
    let fresh_key = KeyPair::generate();
    let mut cred_keys: Vec<(u8, KeyPair)> = Vec::new();
    cred_keys.push((0, fresh_key));
    let mut keys: Vec<(u8, Vec<(u8, KeyPair)>)> = Vec::new();
    keys.push((0, cred_keys));
    let account_keys = AccountKeys { keys };

    let mut statement: Vec<u8> = Vec::new();
    put_u64(&mut statement, reg_id.v);
    let proofs = sha256(&statement);

    let account_address = match target {
        CredentialTarget::NewAccount { expiry: _ } => AccountAddress::new(&reg_id),
        CredentialTarget::ExistingAccount { address } => AccountAddress {
            bytes: copy_bytes(&address.bytes),
        },
    };
    let encryption_secret_key = SecretKey { generator: global.generator, scalar: exponent };
    let encryption_public_key = PublicKey::from_secret(&encryption_secret_key);
    let cdi = CredDeploymentInfo { reg_id, policy, threshold: 1, proofs };
    Ok(
        CredentialOutput {
            cdi,
            account_keys,
            encryption_secret_key,
            encryption_public_key,
            account_address,
        },
    )
}

/// One enumerated account: its address and shielded-balance key pair.
#[derive(Clone, Debug)]
pub struct GeneratedAccount {
    pub account_address: AccountAddress,
    pub encryption_secret_key: SecretKey,
    pub encryption_public_key: PublicKey,
}

/// The account numbers in `[start, max)` the key can derive, in order.
pub open spec fn spec_enumerable_accounts(k: PrfKey, start: int, max: int) -> Seq<u8>
    decreases max - start,
{
    if start < 0 || start >= max || max > 256 {
        Seq::empty()
    } else {
        let rest = spec_enumerable_accounts(k, start + 1, max);
        if k.spec_prf_exponent(start as u8) is Some {
            seq![start as u8] + rest
        } else {
            rest
        }
    }
}

/// Whether each enumerated entry matches its account number: the
/// shielded-balance key pair carries the PRF exponent and the address is
/// the registration ID's digest.
pub open spec fn accounts_match(
    key: PrfKey,
    generator: GroupElement,
    nums: Seq<u8>,
    out: Seq<GeneratedAccount>,
) -> bool {
    &&& out.len() == nums.len()
    &&& forall|i: int|
        0 <= i < nums.len() ==> {
            let n = nums[i];
            &&& Some((#[trigger] out[i]).encryption_secret_key.scalar) == key.spec_prf_exponent(n)
            &&& out[i].encryption_secret_key.generator == generator
            &&& matches_secret(out[i].encryption_public_key, out[i].encryption_secret_key)
            &&& out[i].account_address.bytes@ == account_address_of(
                key.spec_prf(generator, n)->Some_0,
            )
        }
}

/// Extending the range by one account number appends it when it is
/// derivable.
proof fn lemma_enumerable_snoc(k: PrfKey, start: int, n: int)
    requires
        0 <= start <= n < 256,
    ensures
        spec_enumerable_accounts(k, start, n + 1) == spec_enumerable_accounts(k, start, n) + (
        if k.spec_prf_exponent(n as u8) is Some {
            seq![n as u8]
        } else {
            Seq::<u8>::empty()
        }),
    decreases n - start,
{
    let tail = if k.spec_prf_exponent(n as u8) is Some {
        seq![n as u8]
    } else {
        Seq::<u8>::empty()
    };
    if start == n {
        assert(spec_enumerable_accounts(k, start, n) =~= Seq::<u8>::empty());
        assert(spec_enumerable_accounts(k, start + 1, n + 1) =~= Seq::<u8>::empty());
        assert(spec_enumerable_accounts(k, start, n + 1) =~= Seq::<u8>::empty() + tail);
    } else {
        lemma_enumerable_snoc(k, start + 1, n);
        assert(spec_enumerable_accounts(k, start, n + 1) =~= spec_enumerable_accounts(
            k,
            start,
            n,
        ) + tail);
    }
}

/// Every enumerated account number lies in the range and in the PRF's
/// domain, and the numbers strictly increase.
proof fn lemma_enumerable_entries(k: PrfKey, start: int, max: int)
    ensures
        forall|i: int|
            0 <= i < spec_enumerable_accounts(k, start, max).len() ==> start <= (
            #[trigger] spec_enumerable_accounts(k, start, max)[i]) < max,
        forall|i: int|
            0 <= i < spec_enumerable_accounts(k, start, max).len() ==> k.spec_prf_exponent(
                #[trigger] spec_enumerable_accounts(k, start, max)[i],
            ) is Some,
        forall|i: int, j: int|
            0 <= i < j < spec_enumerable_accounts(k, start, max).len()
                ==> spec_enumerable_accounts(k, start, max)[i] < spec_enumerable_accounts(
                k,
                start,
                max,
            )[j],
    decreases max - start,
{
    let nums = spec_enumerable_accounts(k, start, max);
    if start < 0 || start >= max || max > 256 {
    } else {
        lemma_enumerable_entries(k, start + 1, max);
        let rest = spec_enumerable_accounts(k, start + 1, max);
        if k.spec_prf_exponent(start as u8) is Some {
            assert(nums == seq![start as u8] + rest);
            assert forall|i: int| 0 <= i < nums.len() implies start <= (#[trigger] nums[i])
                < max && k.spec_prf_exponent(nums[i]) is Some by {
                if i > 0 {
                    assert(nums[i] == rest[i - 1]);
                }
            }
            assert forall|i: int, j: int| 0 <= i < j < nums.len() implies nums[i]
                < nums[j] by {
                assert(nums[j] == rest[j - 1]);
                if i > 0 {
                    assert(nums[i] == rest[i - 1]);
                } else {
                    assert(start + 1 <= rest[j - 1]);
                }
            }
        } else {
            assert(nums == rest);
        }
    }
}

/// Distinct entries of one enumeration stand for distinct registration
/// IDs: under one key and a true generator, the PRF never collides across
/// the enumerated account numbers.  The addresses derived from them are
/// digests of these IDs; nothing here claims the digest itself is
/// collision free.
pub proof fn lemma_enumerated_registration_ids_distinct(
    k: PrfKey,
    generator: GroupElement,
    start: int,
    max: int,
    i: int,
    j: int,
)
    requires
        generator.is_generator(),
        0 <= i < j < spec_enumerable_accounts(k, start, max).len(),
    ensures
        k.spec_prf(generator, spec_enumerable_accounts(k, start, max)[i]) != k.spec_prf(
            generator,
            spec_enumerable_accounts(k, start, max)[j],
        ),
        k.spec_prf(generator, spec_enumerable_accounts(k, start, max)[i]) is Some,
        k.spec_prf(generator, spec_enumerable_accounts(k, start, max)[j]) is Some,
{
    lemma_enumerable_entries(k, start, max);
    let n1 = spec_enumerable_accounts(k, start, max)[i];
    let n2 = spec_enumerable_accounts(k, start, max)[j];
    crate::prf::lemma_registration_id_injective(k, generator, n1, n2);
}

/// Enumerate the accounts the identity can still open, from `start` up to
/// the identity's account bound: account numbers where the PRF is
/// undefined are skipped, not errors.  The result is fully determined by
/// its inputs.
pub fn generate_accounts(
    global: &GlobalContext,
    id_object: &IdentityObject,
    id_use_data: &IdObjectUseData,
    start: u8,
) -> (r: Vec<GeneratedAccount>)
    ensures
        accounts_match(
            id_use_data.aci.prf_key,
            global.generator,
            spec_enumerable_accounts(
                id_use_data.aci.prf_key,
                start as int,
                id_object.pre_identity_object.alist.max_accounts as int,
            ),
            r@
        ),
{
    let max16: u16 = id_object.pre_identity_object.alist.max_accounts as u16;
    let mut out: Vec<GeneratedAccount> = Vec::new();
    let mut n: u16 = start as u16;
    proof {
        assert(spec_enumerable_accounts(id_use_data.aci.prf_key, start as int, n as int)
            =~= Seq::<u8>::empty());
    }
    while n < max16
        invariant
            start as int <= n as int <= 256,
            max16 as int == id_object.pre_identity_object.alist.max_accounts as int,
            n as int <= max16 as int || n as int == start as int,
            accounts_match(
                id_use_data.aci.prf_key,
                global.generator,
                spec_enumerable_accounts(id_use_data.aci.prf_key, start as int, n as int),
                out@
            ),
        decreases max16 as int - n as int,
    {
        let acc_num: u8 = n as u8;
        proof {
            lemma_enumerable_snoc(id_use_data.aci.prf_key, start as int, n as int);
        }
        match id_use_data.aci.prf_key.prf_exponent(acc_num) {
            Some(exponent) => {
                let reg_id = match id_use_data.aci.prf_key.prf(
                    global.elgamal_generator(),
                    acc_num,
                ) {
                    Some(g) => g,
                    None => {
                        proof {
                            assert(false);
                        }
                        GroupElement { v: 0 }
                    },
                };
                let account_address = AccountAddress::new(&reg_id);
                let encryption_secret_key = SecretKey {
                    generator: global.generator,
                    scalar: exponent,
                };
                let encryption_public_key = PublicKey::from_secret(&encryption_secret_key);
                out.push(
                    GeneratedAccount {
                        account_address,
                        encryption_secret_key,
                        encryption_public_key,
                    },
                );
            },
            None => {},
        }
        n = n + 1;
    }
    proof {
        let key = id_use_data.aci.prf_key;
        let max_i = id_object.pre_identity_object.alist.max_accounts as int;
        if n as int != max_i {
            assert(n as int == start as int && start as int >= max_i);
            assert(spec_enumerable_accounts(key, start as int, max_i) =~= Seq::<u8>::empty());
            assert(spec_enumerable_accounts(key, start as int, n as int)
                =~= Seq::<u8>::empty());
        }
    }
    out
}

} // verus!
