//! The ElGamal engine: keypairs, encryption of an amount in the exponent,
//! homomorphic combination, and decryption to a group element.
//!
//! A ciphertext for amount `m` under public key `(g, a·g)` with ephemeral
//! scalar `k` is the pair `(k·g, m·g + k·(a·g))`.  Decryption strips `k·a·g`
//! and never fails; recovering the integer `m` from `m·g` is the job of the
//! discrete-log module.

use vstd::prelude::*;
use crate::group::GroupElement;
use crate::group::g_add;
use crate::group::g_scale;
use crate::group::group_order;
use crate::external::random_u64;

verus! {

/// An ElGamal ciphertext: the ephemeral point and the masked message point.
#[derive(Clone, Copy, PartialEq, Eq, Structural, Debug)]
pub struct Cipher {
    pub c0: GroupElement,
    pub c1: GroupElement,
}

/// A decrypted message: the group element carrying the amount in its
/// exponent.
#[derive(Clone, Copy, PartialEq, Eq, Structural, Debug)]
pub struct Message {
    pub value: GroupElement,
}

/// An ElGamal secret key packed together with the chosen generator.
#[derive(Clone, Copy, PartialEq, Eq, Structural, Debug)]
pub struct SecretKey {
    pub generator: GroupElement,
    pub scalar: u64,
}

/// An ElGamal public key: the generator and the point `scalar · generator`.
#[derive(Clone, Copy, PartialEq, Eq, Structural, Debug)]
pub struct PublicKey {
    pub generator: GroupElement,
    pub key: GroupElement,
}

/// The ephemeral component of a ciphertext made with scalar `k`.
pub open spec fn spec_encrypt_c0(gen: int, k: int) -> int {
    g_scale(k, gen)
}

/// The masked component of a ciphertext for amount `m` made with scalar `k`.
pub open spec fn spec_encrypt_c1(gen: int, key: int, m: int, k: int) -> int {
    g_add(g_scale(m, gen), g_scale(k, key))
}

/// Whether `c` is the encryption of amount `m` under `pk` with scalar `k`.
pub open spec fn is_encryption_of(c: Cipher, pk: PublicKey, m: int, k: int) -> bool {
    c.c0.v == spec_encrypt_c0(pk.generator.v as int, k) && c.c1.v == spec_encrypt_c1(
        pk.generator.v as int,
        pk.key.v as int,
        m,
        k,
    )
}

/// What decryption with secret scalar `x` recovers from a ciphertext.
pub open spec fn spec_decrypt(x: int, c: Cipher) -> int {
    (c.c1.v - x * c.c0.v) % group_order()
}

/// Whether a public key is the one derived from a secret key.
pub open spec fn matches_secret(pk: PublicKey, sk: SecretKey) -> bool {
    pk.generator == sk.generator && pk.key.v == g_scale(sk.scalar as int, sk.generator.v as int)
}

impl PublicKey {
    /// Derive the public key of a secret key.
    pub fn from_secret(sk: &SecretKey) -> (r: PublicKey)
        ensures
            matches_secret(r, *sk),
    {
        PublicKey { generator: sk.generator, key: sk.generator.mul_by_scalar(sk.scalar) }
    }

    /// Encrypt an amount in the exponent under this key with the given
    /// ephemeral scalar.
    pub fn encrypt_in_exponent(&self, amount: u64, k: u64) -> (r: Cipher)
        ensures
            is_encryption_of(r, *self, amount as int, k as int),
    {
        let c0 = self.generator.mul_by_scalar(k);
        let c1 = self.generator.mul_by_scalar(amount).plus_point(&self.key.mul_by_scalar(k));
        Cipher { c0, c1 }
    }

    /// Encrypt an amount with a scalar drawn from the randomness source.
    pub fn encrypt_amount(&self, amount: u64) -> (r: Cipher)
        ensures
            exists|k: int| is_encryption_of(r, *self, amount as int, k),
    {
        let k = random_u64();
        let r = self.encrypt_in_exponent(amount, k);
        proof {
            assert(is_encryption_of(r, *self, amount as int, k as int));
        }
        r
    }
}

/// Encrypt an amount with the fixed ephemeral scalar zero, so the ciphertext
/// is a deterministic function of the amount and auditable by anyone.
pub fn encrypt_amount_with_fixed_randomness(generator: &GroupElement, amount: u64) -> (r: Cipher)
    ensures
        r.c0.v == 0,
        r.c1.v == g_scale(amount as int, generator.v as int),
        forall|pk: PublicKey|
            pk.generator == *generator ==> is_encryption_of(r, pk, amount as int, 0),
{
    let c0 = GroupElement::zero_point();
    let c1 = generator.mul_by_scalar(amount);
    proof {
        vstd::arithmetic::mul::lemma_mul_basics(generator.v as int);
        vstd::arithmetic::div_mod::lemma_mod_self_0(group_order());
        assert forall|pk: PublicKey| pk.generator == *generator implies is_encryption_of(
            Cipher { c0, c1 },
            pk,
            amount as int,
            0,
        ) by {
            vstd::arithmetic::mul::lemma_mul_basics(pk.key.v as int);
            assert(g_scale(0, pk.key.v as int) == 0) by {
                vstd::arithmetic::div_mod::lemma_small_mod(0, group_order() as nat);
            }
            assert(g_add(g_scale(amount as int, generator.v as int), 0) == g_scale(
                amount as int,
                generator.v as int,
            )) by {
                vstd::arithmetic::div_mod::lemma_mod_twice(
                    amount as int * generator.v as int,
                    group_order(),
                );
            }
        }
    }
    Cipher { c0, c1 }
}

/// Combine two ciphertexts by component-wise group addition.  Valid because
/// this ElGamal instance is additively homomorphic in the exponent.
pub fn aggregate(left: &Cipher, right: &Cipher) -> (r: Cipher)
    ensures
        r.c0.v == g_add(left.c0.v as int, right.c0.v as int),
        r.c1.v == g_add(left.c1.v as int, right.c1.v as int),
{
    Cipher { c0: left.c0.plus_point(&right.c0), c1: left.c1.plus_point(&right.c1) }
}

impl SecretKey {
    /// Decrypt a ciphertext to the group element carrying the amount.  Never
    /// fails.
    pub fn decrypt(&self, c: &Cipher) -> (r: Message)
        ensures
            r.value.v == spec_decrypt(self.scalar as int, *c),
    {
        let kag = c.c0.mul_by_scalar(self.scalar);
        let value = c.c1.minus_point(&kag);
        proof {
            crate::group::lemma_g_sub(c.c1.v as int, self.scalar as int * c.c0.v as int);
        }
        Message { value }
    }

    /// Generate a secret key for the given generator with a scalar drawn
    /// from the randomness source.
    pub fn generate(generator: &GroupElement) -> (r: SecretKey)
        ensures
            r.generator == *generator,
    {
        SecretKey { generator: *generator, scalar: random_u64() }
    }

    /// Generate a secret key together with a fresh generator.
    pub fn generate_all() -> (r: SecretKey)
        ensures
            r.generator.is_generator(),
    {
        let x = random_u64();
        // force the low bit so the fresh element generates the whole group
        let gen = GroupElement { v: x | 1 };
        proof {
            assert((x | 1) % 2 == 1) by (bit_vector);
        }
        SecretKey { generator: gen, scalar: random_u64() }
    }
}

/// Whether `c` encrypts `value` under the public key matching `sk`, for
/// some ephemeral scalar.
pub open spec fn encrypts_under_own_key(c: Cipher, sk: SecretKey, value: int) -> bool {
    exists|k: int, pk: PublicKey|
        matches_secret(pk, sk) && #[trigger] is_encryption_of(c, pk, value, k)
}

/// Whether `c` encrypts `value` under `pk`, for some ephemeral scalar.
pub open spec fn encrypts_under(c: Cipher, pk: PublicKey, value: int) -> bool {
    exists|k: int| #[trigger] is_encryption_of(c, pk, value, k)
}

/// The canonical bytes of a ciphertext: both components, big endian.
pub open spec fn ser_cipher(c: Cipher) -> Seq<u8> {
    crate::codec::ser_u64(c.c0.v) + crate::codec::ser_u64(c.c1.v)
}

/// Append a ciphertext in its canonical form.
pub fn put_cipher(out: &mut Vec<u8>, c: &Cipher)
    ensures
        final(out)@ == old(out)@ + ser_cipher(*c),
{
    crate::codec::put_u64(out, c.c0.v);
    crate::codec::put_u64(out, c.c1.v);
    proof {
        assert(final(out)@ =~= old(out)@ + ser_cipher(*c));
    }
}

/// The canonical bytes of a ciphertext as an owned buffer.
pub fn serialize_cipher(c: &Cipher) -> (r: Vec<u8>)
    ensures
        r@ == ser_cipher(*c),
{
    let mut out: Vec<u8> = Vec::new();
    put_cipher(&mut out, c);
    out
}

/// Read back a ciphertext from a buffer holding exactly its canonical
/// form.
pub fn deserialize_cipher(b: &Vec<u8>) -> (r: Option<Cipher>)
    ensures
        b@.len() == 16 ==> r == Some(
            Cipher {
                c0: GroupElement { v: crate::codec::parse_u64(b@.subrange(0, 8)) },
                c1: GroupElement { v: crate::codec::parse_u64(b@.subrange(8, 16)) },
            },
        ),
        b@.len() != 16 ==> r is None,
{
    if b.len() != 16 {
        return None;
    }
    let c0 = match crate::codec::read_u64(b, 0) {
        Some(p) => p.0,
        None => {
            return None;
        },
    };
    let c1 = match crate::codec::read_u64(b, 8) {
        Some(p) => p.0,
        None => {
            return None;
        },
    };
    Some(Cipher { c0: GroupElement { v: c0 }, c1: GroupElement { v: c1 } })
}

/// Reading back a serialized ciphertext yields the ciphertext written.
pub proof fn lemma_cipher_round_trip(c: Cipher)
    ensures
        ser_cipher(c).len() == 16,
        crate::codec::parse_u64(ser_cipher(c).subrange(0, 8)) == c.c0.v,
        crate::codec::parse_u64(ser_cipher(c).subrange(8, 16)) == c.c1.v,
{
    assert(ser_cipher(c).subrange(0, 8) =~= crate::codec::ser_u64(c.c0.v));
    assert(ser_cipher(c).subrange(8, 16) =~= crate::codec::ser_u64(c.c1.v));
    crate::codec::lemma_u64_round_trip(c.c0.v);
    crate::codec::lemma_u64_round_trip(c.c1.v);
}

/// Decrypting with the matching secret key recovers exactly the amount in
/// the exponent: for every ephemeral scalar `k`,
/// `decrypt(x, encrypt(pk, m, k)) == m · g`.
pub proof fn lemma_decrypt_of_encrypt(sk: SecretKey, pk: PublicKey, c: Cipher, m: int, k: int)
    requires
        matches_secret(pk, sk),
        is_encryption_of(c, pk, m, k),
        0 <= m,
        0 <= k,
    ensures
        spec_decrypt(sk.scalar as int, c) == g_scale(m, sk.generator.v as int),
{
    let mm = group_order();
    let g = sk.generator.v as int;
    let x = sk.scalar as int;
    let key = pk.key.v as int;
    // key == (x*g) % mm, c0 == (k*g) % mm
    // c.c1.v == ((m*g) % mm + (k*key) % mm) % mm
    let a = (m * g) % mm;
    let t = x * (k * g);
    // (k * ((x*g) % mm)) % mm == (k * (x*g)) % mm == t % mm
    assert((k * ((x * g) % mm)) % mm == (k * (x * g)) % mm) by {
        vstd::arithmetic::div_mod::lemma_mul_mod_noop_right(k, x * g, mm);
    }
    assert(k * (x * g) == t) by {
        vstd::arithmetic::mul::lemma_mul_is_associative(k, x, g);
        vstd::arithmetic::mul::lemma_mul_is_commutative(k, x);
        vstd::arithmetic::mul::lemma_mul_is_associative(x, k, g);
    }
    // c.c1.v == (a + t % mm) % mm == (a + t) % mm
    assert(c.c1.v as int == (a + t) % mm) by {
        vstd::arithmetic::div_mod::lemma_add_mod_noop_right(a, t, mm);
    }
    // x * c.c0.v == x * ((k*g) % mm); reduced it is t % mm
    assert((x * c.c0.v) % mm == t % mm) by {
        vstd::arithmetic::div_mod::lemma_mul_mod_noop_right(x, k * g, mm);
        vstd::arithmetic::mul::lemma_mul_is_associative(x, k, g);
    }
    // decrypt == ((a + t) % mm - x*c0) % mm == (a + t - t) % mm == a
    assert((c.c1.v - x * c.c0.v) % mm == ((a + t) % mm - (x * c.c0.v) % mm) % mm) by {
        vstd::arithmetic::div_mod::lemma_sub_mod_noop(c.c1.v as int, x * c.c0.v, mm);
        vstd::arithmetic::div_mod::lemma_mod_twice(c.c1.v as int, mm);
    }
    assert(((a + t) % mm - t % mm) % mm == (a + t - t) % mm) by {
        vstd::arithmetic::div_mod::lemma_sub_mod_noop(a + t, t, mm);
    }
    assert((a + t - t) % mm == a) by {
        vstd::arithmetic::div_mod::lemma_mod_twice(m * g, mm);
    }
}

/// The homomorphism law over amounts: for keys that match and amounts whose
/// sum is in range, decrypting the aggregate of encryptions of `a` and `b`
/// recovers the same group element as decrypting any encryption of `a + b`,
/// whatever ephemeral scalars were drawn.
pub proof fn lemma_homomorphic_sum(
    sk: SecretKey,
    pk: PublicKey,
    ca: Cipher,
    cb: Cipher,
    cagg: Cipher,
    csum: Cipher,
    a: u64,
    b: u64,
    k1: int,
    k2: int,
    k3: int,
)
    requires
        matches_secret(pk, sk),
        is_encryption_of(ca, pk, a as int, k1),
        is_encryption_of(cb, pk, b as int, k2),
        is_encryption_of(csum, pk, a + b, k3),
        cagg.c0.v == g_add(ca.c0.v as int, cb.c0.v as int),
        cagg.c1.v == g_add(ca.c1.v as int, cb.c1.v as int),
        0 <= k1,
        0 <= k2,
        0 <= k3,
        a + b <= u64::MAX,
    ensures
        spec_decrypt(sk.scalar as int, cagg) == spec_decrypt(sk.scalar as int, csum),
        spec_decrypt(sk.scalar as int, cagg) == g_scale(a + b, sk.generator.v as int),
{
    let mm = group_order();
    let g = sk.generator.v as int;
    lemma_decrypt_of_encrypt(sk, pk, ca, a as int, k1);
    lemma_decrypt_of_encrypt(sk, pk, cb, b as int, k2);
    lemma_decrypt_of_encrypt(sk, pk, csum, a + b, k3);
    lemma_aggregate_homomorphic(sk.scalar as int, ca, cb, cagg);
    // g_add(a·g, b·g) == (a+b)·g
    assert(((a as int * g) % mm + (b as int * g) % mm) % mm == (a as int * g + b as int * g)
        % mm) by {
        vstd::arithmetic::div_mod::lemma_add_mod_noop(a as int * g, b as int * g, mm);
    }
    assert(a as int * g + b as int * g == (a + b) * g) by {
        vstd::arithmetic::mul::lemma_mul_is_distributive_add_other_way(g, a as int, b as int);
    }
}

/// The homomorphism law: decrypting a component-wise sum of two ciphertexts
/// recovers the group sum of what the two decrypt to.
pub proof fn lemma_aggregate_homomorphic(x: int, ca: Cipher, cb: Cipher, cs: Cipher)
    requires
        0 <= x,
        cs.c0.v == g_add(ca.c0.v as int, cb.c0.v as int),
        cs.c1.v == g_add(ca.c1.v as int, cb.c1.v as int),
    ensures
        spec_decrypt(x, cs) == g_add(spec_decrypt(x, ca), spec_decrypt(x, cb)),
{
    let mm = group_order();
    let sum0 = ca.c0.v as int + cb.c0.v;
    let sum1 = ca.c1.v as int + cb.c1.v;
    // x * (sum0 % mm) reduced equals (x*ca.c0 + x*cb.c0) % mm
    assert((x * (sum0 % mm)) % mm == (x * sum0) % mm) by {
        vstd::arithmetic::div_mod::lemma_mul_mod_noop_right(x, sum0, mm);
    }
    assert(x * sum0 == x * ca.c0.v + x * cb.c0.v) by {
        vstd::arithmetic::mul::lemma_mul_is_distributive_add(
            x,
            ca.c0.v as int,
            cb.c0.v as int,
        );
    }
    // left side: (sum1 % mm - x*(sum0 % mm)) % mm == (sum1 - x*sum0) % mm
    assert(spec_decrypt(x, cs) == (sum1 - x * sum0) % mm) by {
        vstd::arithmetic::div_mod::lemma_sub_mod_noop(sum1, x * (sum0 % mm), mm);
        vstd::arithmetic::div_mod::lemma_mod_twice(sum1, mm);
        vstd::arithmetic::div_mod::lemma_sub_mod_noop_right(sum1, x * sum0, mm);
    }
    // right side: ((c1a - x c0a) % mm + (c1b - x c0b) % mm) % mm
    let da = ca.c1.v - x * ca.c0.v;
    let db = cb.c1.v - x * cb.c0.v;
    assert(g_add(spec_decrypt(x, ca), spec_decrypt(x, cb)) == (da + db) % mm) by {
        vstd::arithmetic::div_mod::lemma_add_mod_noop(da, db, mm);
    }
    assert(sum1 - x * sum0 == da + db);
}

} // verus!
