//! The group the protocol is written against.
//!
//! The protocol only needs an additively written cyclic group with a
//! designated generator and scalar multiples.  Here the group is the
//! additive group of residues modulo 2^64: the identity is `0`, the
//! designated generator is `1`, and an element generates the whole group
//! exactly when it is odd.  Scalars are also residues modulo 2^64.

use vstd::prelude::*;

verus! {

/// Order of the group: 2^64.
pub open spec fn group_order() -> int {
    0x1_0000_0000_0000_0000
}

/// Group addition on raw residues.
pub open spec fn g_add(a: int, b: int) -> int {
    (a + b) % group_order()
}

/// Group negation on raw residues.
pub open spec fn g_neg(a: int) -> int {
    (group_order() - (a % group_order())) % group_order()
}

/// The scalar multiple `x · e` on raw residues.
pub open spec fn g_scale(x: int, e: int) -> int {
    (x * e) % group_order()
}

/// A group element.
#[derive(Clone, Copy, PartialEq, Eq, Structural, Debug, Hash)]
pub struct GroupElement {
    pub v: u64,
}

impl GroupElement {
    /// An element generates the group exactly when it is odd.
    pub open spec fn is_generator(self) -> bool {
        self.v % 2 == 1
    }

    /// The identity element.
    pub fn zero_point() -> (r: GroupElement)
        ensures
            r.v == 0,
    {
        GroupElement { v: 0 }
    }

    /// The designated generator.
    pub fn one_point() -> (r: GroupElement)
        ensures
            r.v == 1,
    {
        GroupElement { v: 1 }
    }

    /// Group addition.
    pub fn plus_point(&self, other: &GroupElement) -> (r: GroupElement)
        ensures
            r.v == g_add(self.v as int, other.v as int),
    {
        proof {
            lemma_wrapping_add_is_g_add(self.v, other.v);
        }
        GroupElement { v: self.v.wrapping_add(other.v) }
    }

    /// The inverse element.
    pub fn inverse_point(&self) -> (r: GroupElement)
        ensures
            r.v == g_neg(self.v as int),
    {
        proof {
            lemma_wrapping_sub_is_g_neg(self.v);
        }
        GroupElement { v: 0u64.wrapping_sub(self.v) }
    }

    /// Group subtraction.
    pub fn minus_point(&self, other: &GroupElement) -> (r: GroupElement)
        ensures
            r.v == g_add(self.v as int, g_neg(other.v as int)),
    {
        self.plus_point(&other.inverse_point())
    }

    /// The scalar multiple `scalar · self`.
    pub fn mul_by_scalar(&self, scalar: u64) -> (r: GroupElement)
        ensures
            r.v == g_scale(scalar as int, self.v as int),
    {
        GroupElement { v: scalar.wrapping_mul(self.v) }
    }
}

/// Addition in the scalar field of exponents.
pub fn scalar_add(a: u64, b: u64) -> (r: u64)
    ensures
        r == g_add(a as int, b as int),
{
    proof {
        lemma_wrapping_add_is_g_add(a, b);
    }
    a.wrapping_add(b)
}

/// If an odd factor makes a product divisible by 2^k, the other factor is
/// itself divisible by 2^k.
proof fn lemma_odd_factor_divisibility(s: int, d: int, k: nat)
    requires
        s % 2 == 1,
        0 <= s,
        0 <= d,
        (d * s) % (vstd::arithmetic::power2::pow2(k) as int) == 0,
    ensures
        d % (vstd::arithmetic::power2::pow2(k) as int) == 0,
    decreases k,
{
    let p = vstd::arithmetic::power2::pow2(k) as int;
    vstd::arithmetic::power2::lemma_pow2_pos(k);
    if k == 0 {
        assert(vstd::arithmetic::power2::pow2(0) == 1) by {
            vstd::arithmetic::power2::lemma2_to64();
        }
        vstd::arithmetic::div_mod::lemma_mod_multiples_basic(d, 1);
    } else {
        let km = (k - 1) as nat;
        let q = vstd::arithmetic::power2::pow2(km) as int;
        vstd::arithmetic::power2::lemma_pow2_pos(km);
        vstd::arithmetic::power2::lemma_pow2_unfold(k);
        assert(p == q * 2) by {
            vstd::arithmetic::mul::lemma_mul_is_commutative(2, q);
        }
        assert((d * s) % q == 0) by {
            vstd::arithmetic::div_mod::lemma_mod_mod(d * s, q, 2);
        }
        lemma_odd_factor_divisibility(s, d, km);
        let e = d / q;
        vstd::arithmetic::div_mod::lemma_fundamental_div_mod(d, q);
        assert(d == q * e);
        assert(d * s == q * (e * s)) by {
            vstd::arithmetic::mul::lemma_mul_is_associative(q, e, s);
        }
        assert(0 <= e) by {
            vstd::arithmetic::div_mod::lemma_div_pos_is_pos(d, q);
        }
        assert(0 <= e * s) by {
            vstd::arithmetic::mul::lemma_mul_nonnegative(e, s);
        }
        assert((q * (e * s)) % (q * 2) == q * ((e * s) % 2)) by {
            vstd::arithmetic::div_mod::lemma_truncate_middle(e * s, q, 2);
        }
        let parity = (e * s) % 2;
        assert(q * parity == 0);
        assert(parity == 0) by (nonlinear_arith)
            requires
                q * parity == 0,
                q > 0,
        ;
        assert((e * s) % 2 == ((e % 2) * (s % 2)) % 2) by {
            vstd::arithmetic::div_mod::lemma_mul_mod_noop_general(e, s, 2);
        }
        assert(e % 2 == 0);
        let f = e / 2;
        vstd::arithmetic::div_mod::lemma_fundamental_div_mod(e, 2);
        assert(d == q * (2 * f));
        assert(d == p * f) by {
            vstd::arithmetic::mul::lemma_mul_is_associative(q, 2, f);
        }
        assert(d % p == 0) by {
            vstd::arithmetic::div_mod::lemma_mod_multiples_basic(f, p);
            vstd::arithmetic::mul::lemma_mul_is_commutative(f, p);
        }
    }
}

/// `a + (-b)` in the group is subtraction of residues.
pub proof fn lemma_g_sub(a: int, b: int)
    requires
        0 <= a < group_order(),
        0 <= b,
    ensures
        g_add(a, g_neg(b % group_order())) == (a - b) % group_order(),
{
    let m = group_order();
    let br = b % m;
    vstd::arithmetic::div_mod::lemma_mod_division_less_than_divisor(b, m);
    vstd::arithmetic::div_mod::lemma_remainder_lower(b, m);
    vstd::arithmetic::div_mod::lemma_mod_twice(b, m);
    // g_neg(br) == (m - br) % m
    if br == 0 {
        vstd::arithmetic::div_mod::lemma_mod_self_0(m);
        vstd::arithmetic::div_mod::lemma_small_mod(a as nat, m as nat);
        assert((a - b) % m == a) by {
            vstd::arithmetic::div_mod::lemma_sub_mod_noop_right(a, b, m);
            vstd::arithmetic::div_mod::lemma_small_mod(a as nat, m as nat);
        }
    } else {
        vstd::arithmetic::div_mod::lemma_small_mod((m - br) as nat, m as nat);
        // (a + (m - br)) % m == (a - br) % m
        assert((a + (m - br)) % m == (a - br) % m) by {
            vstd::arithmetic::div_mod::lemma_mod_add_multiples_vanish(a - br, m);
        }
        assert((a - br) % m == (a - b) % m) by {
            vstd::arithmetic::div_mod::lemma_sub_mod_noop_right(a, b, m);
        }
    }
}

/// Scalar multiples of a generator are pairwise distinct: in a group of
/// order 2^64 an odd element has full order, so scaling by it cancels.
pub proof fn lemma_generator_scale_cancel(s: u64, a: u64, b: u64)
    requires
        s % 2 == 1,
        g_scale(a as int, s as int) == g_scale(b as int, s as int),
    ensures
        a == b,
{
    assert(vstd::arithmetic::power2::pow2(64) as int == group_order()) by {
        vstd::arithmetic::power2::lemma2_to64();
        vstd::arithmetic::power2::lemma2_to64_rest();
    }
    let hi: int = if a >= b { a as int } else { b as int };
    let lo: int = if a >= b { b as int } else { a as int };
    let d = hi - lo;
    assert((hi * s) % group_order() == (lo * s) % group_order());
    assert((d * s) % group_order() == 0) by {
        vstd::arithmetic::div_mod::lemma_sub_mod_noop(hi * s, lo * s, group_order());
        vstd::arithmetic::mul::lemma_mul_is_distributive_sub_other_way(s as int, hi, lo);
        vstd::arithmetic::div_mod::lemma_mod_self_0(group_order());
    }
    lemma_odd_factor_divisibility(s as int, d, 64);
    vstd::arithmetic::div_mod::lemma_small_mod(d as nat, group_order() as nat);
}

proof fn lemma_wrapping_add_is_g_add(a: u64, b: u64)
    ensures
        vstd::wrapping::u64_specs::wrapping_add(a, b) == g_add(a as int, b as int),
{
    if a + b > u64::MAX {
        assert((a + b) % group_order() == a + b - group_order()) by {
            vstd::arithmetic::div_mod::lemma_sub_mod_noop(a + b, group_order(), group_order());
            vstd::arithmetic::div_mod::lemma_small_mod((a + b - group_order()) as nat,
                group_order() as nat);
            vstd::arithmetic::div_mod::lemma_mod_self_0(group_order());
        }
    } else {
        vstd::arithmetic::div_mod::lemma_small_mod((a + b) as nat, group_order() as nat);
    }
}

proof fn lemma_wrapping_sub_is_g_neg(a: u64)
    ensures
        vstd::wrapping::u64_specs::wrapping_sub(0u64, a) == g_neg(a as int),
{
    vstd::arithmetic::div_mod::lemma_small_mod(a as nat, group_order() as nat);
    if a == 0 {
        vstd::arithmetic::div_mod::lemma_mod_self_0(group_order());
    } else {
        vstd::arithmetic::div_mod::lemma_small_mod((group_order() - a) as nat,
            group_order() as nat);
    }
}

} // verus!
