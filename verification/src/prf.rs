//! The pseudo-random function that ties per-account material to one secret
//! key.
//!
//! For account number `n` the key derives an exponent from `key + n`; the
//! derivation is undefined on the single point where that sum is the zero
//! scalar, a sparse out-of-domain case that callers skip by design.  The
//! registration ID of an account is the derived exponent's multiple of the
//! global generator, and the matching shielded-balance secret key uses the
//! same exponent, which links the encryption key to the account without
//! extra storage.

use vstd::prelude::*;
use crate::group::GroupElement;
use crate::group::g_add;
use crate::group::g_scale;
use crate::group::group_order;
use crate::group::lemma_generator_scale_cancel;
use crate::external::random_u64;

verus! {

/// The secret key of the pseudo-random function.
#[derive(Clone, Copy, PartialEq, Eq, Structural, Debug)]
pub struct PrfKey {
    pub key: u64,
}

impl PrfKey {
    /// The exponent derived for account number `n`, if `n` is in the
    /// function's domain.
    pub open spec fn spec_prf_exponent(self, n: u8) -> Option<u64> {
        if g_add(self.key as int, n as int) == 0 {
            None
        } else {
            Some(g_add(self.key as int, n as int) as u64)
        }
    }

    /// The registration ID derived for account number `n` over `generator`,
    /// if `n` is in the function's domain.
    pub open spec fn spec_prf(self, generator: GroupElement, n: u8) -> Option<GroupElement> {
        match self.spec_prf_exponent(n) {
            Some(e) => Some(GroupElement { v: g_scale(e as int, generator.v as int) as u64 }),
            None => None,
        }
    }

    /// Derive the exponent for account number `n`.  Fails exactly on the
    /// out-of-domain point.
    pub fn prf_exponent(&self, n: u8) -> (r: Option<u64>)
        ensures
            r == self.spec_prf_exponent(n),
    {
        proof {
            if self.key + n as u64 <= u64::MAX {
                vstd::arithmetic::div_mod::lemma_small_mod(
                    (self.key + n as u64) as nat,
                    group_order() as nat,
                );
            } else {
                vstd::arithmetic::div_mod::lemma_mod_sub_multiples_vanish(
                    self.key as int + n as int,
                    group_order(),
                );
                vstd::arithmetic::div_mod::lemma_small_mod(
                    (self.key as int + n as int - group_order()) as nat,
                    group_order() as nat,
                );
            }
        }
        let e = self.key.wrapping_add(n as u64);
        if e == 0 {
            None
        } else {
            Some(e)
        }
    }

    /// Derive the registration ID for account number `n` over `generator`.
    pub fn prf(&self, generator: &GroupElement, n: u8) -> (r: Option<GroupElement>)
        ensures
            r == self.spec_prf(*generator, n),
    {
        match self.prf_exponent(n) {
            Some(e) => Some(generator.mul_by_scalar(e)),
            None => None,
        }
    }

    /// Generate a fresh key from the randomness source.
    pub fn generate() -> PrfKey {
        PrfKey { key: random_u64() }
    }
}

/// Distinct account numbers derive distinct exponents under one key.
pub proof fn lemma_prf_exponent_injective(k: PrfKey, n1: u8, n2: u8)
    requires
        n1 != n2,
        k.spec_prf_exponent(n1) is Some,
        k.spec_prf_exponent(n2) is Some,
    ensures
        k.spec_prf_exponent(n1) != k.spec_prf_exponent(n2),
{
    let mm = group_order();
    let a = k.key as int + n1 as int;
    let b = k.key as int + n2 as int;
    if a % mm == b % mm {
        let hi = if a >= b { a } else { b };
        let lo = if a >= b { b } else { a };
        assert((hi - lo) % mm == 0) by {
            vstd::arithmetic::div_mod::lemma_sub_mod_noop(hi, lo, mm);
            vstd::arithmetic::div_mod::lemma_mod_self_0(mm);
        }
        vstd::arithmetic::div_mod::lemma_small_mod((hi - lo) as nat, mm as nat);
    }
}

/// Distinct account numbers derive distinct registration IDs under one key,
/// over any true generator.
pub proof fn lemma_registration_id_injective(
    k: PrfKey,
    generator: GroupElement,
    n1: u8,
    n2: u8,
)
    requires
        n1 != n2,
        generator.is_generator(),
        k.spec_prf(generator, n1) is Some,
        k.spec_prf(generator, n2) is Some,
    ensures
        k.spec_prf(generator, n1) != k.spec_prf(generator, n2),
{
    lemma_prf_exponent_injective(k, n1, n2);
    let e1 = k.spec_prf_exponent(n1)->Some_0;
    let e2 = k.spec_prf_exponent(n2)->Some_0;
    if g_scale(e1 as int, generator.v as int) == g_scale(e2 as int, generator.v as int) {
        lemma_generator_scale_cancel(generator.v, e1, e2);
    }
}

} // verus!
