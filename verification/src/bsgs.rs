//! Baby-step giant-step discrete-log recovery.
//!
//! A table maps the first `m` multiples of a base to their exponents; the
//! search repeatedly adds `-m·base` (the giant step) and probes the table
//! (the baby step).  The recovered exponent is exact whenever the true
//! exponent fits the search: behaviour beyond that bound is out of scope, an
//! accepted limitation since amounts are bounded by the total token supply.

use vstd::prelude::*;
use std::collections::HashMap;
use crate::group::GroupElement;
use crate::group::g_add;
use crate::group::g_neg;
use crate::group::g_scale;
use crate::group::group_order;
use crate::group::lemma_g_sub;
use crate::group::lemma_generator_scale_cancel;
use crate::elgamal::Cipher;
use crate::elgamal::SecretKey;
use crate::elgamal::spec_decrypt;

verus! {

broadcast use vstd::std_specs::hash::group_hash_axioms;

/// The table of baby steps: the serialized form of each small multiple of
/// the base, keyed to its exponent.
pub type BabyStepGiantStepTable = HashMap<u64, u64>;

/// The residue of the `j`-th multiple of `base`: the key under which the
/// table stores exponent `j`.
pub open spec fn step_key(j: u64, base: GroupElement) -> u64 {
    g_scale(j as int, base.v as int) as u64
}

/// An immutable baby-step giant-step instance: built once, then shared
/// read-only by every decryption.
pub struct BabyStepGiantStep {
    /// Precomputed table of multiples.
    table: BabyStepGiantStepTable,
    /// The point `-m·base`.
    inverse_point: GroupElement,
    /// The base whose multiples the table holds.
    base: GroupElement,
    /// Size of the table.
    m: u64,
}

impl BabyStepGiantStep {
    /// The base this instance searches over.
    pub closed spec fn spec_base(self) -> GroupElement {
        self.base
    }

    /// The table size this instance was built with.
    pub closed spec fn spec_m(self) -> u64 {
        self.m
    }

    /// The instance is exactly what `new` builds: every exponent below `m`
    /// is in the table under its multiple of the base, nothing else is, and
    /// the giant-step point is `-m·base`.
    pub closed spec fn wf(self) -> bool {
        &&& self.base.is_generator()
        &&& 1 <= self.m
        &&& self.inverse_point.v == g_neg(g_scale(self.m as int, self.base.v as int))
        &&& forall|j: u64| j < self.m ==> self.table@.contains_pair(#[trigger] step_key(j, self.base), j)
        &&& forall|k: u64|
            #[trigger] self.table@.dom().contains(k) ==> self.table@[k] < self.m && k == step_key(
                self.table@[k],
                self.base,
            )
    }

    /// Generate a new instance, precomputing the table of the first `m`
    /// multiples of `base`.
    pub fn new(base: &GroupElement, m: u64) -> (r: Self)
        requires
            base.is_generator(),
            1 <= m,
        ensures
            r.wf(),
            r.spec_base() == *base,
            r.spec_m() == m,
    {
        let mut table: BabyStepGiantStepTable = HashMap::new();
        let mut base_j = GroupElement::zero_point();
        let mut j: u64 = 0;
        proof {
            assert(g_scale(0, base.v as int) == 0) by {
                vstd::arithmetic::mul::lemma_mul_basics(base.v as int);
                vstd::arithmetic::div_mod::lemma_small_mod(0, group_order() as nat);
            }
        }
        while j < m
            invariant
                base.is_generator(),
                j <= m,
                base_j.v == step_key(j, *base),
                forall|j2: u64| j2 < j ==> table@.contains_pair(#[trigger] step_key(j2, *base), j2),
                forall|k: u64|
                    #[trigger] table@.dom().contains(k) ==> table@[k] < j && k == step_key(
                        table@[k],
                        *base,
                    ),
            decreases m - j,
        {
            table.insert(base_j.v, j);
            proof {
                assert forall|j2: u64| j2 < j implies step_key(j2, *base) != step_key(
                    j,
                    *base,
                ) by {
                    if step_key(j2, *base) == step_key(j, *base) {
                        lemma_generator_scale_cancel(base.v, j2, j);
                    }
                }
            }
            base_j = base_j.plus_point(base);
            proof {
                lemma_step_key_unfold(j, *base);
            }
            j = j + 1;
        }
        let inverse_point = base_j.inverse_point();
        proof {
            vstd::arithmetic::div_mod::lemma_mod_twice(
                m as int * base.v as int,
                group_order(),
            );
        }
        Self { table, inverse_point, base: *base, m }
    }

    /// Compute the discrete log of `v` with respect to the base.  The cost
    /// is linear in `x / m` where `x` is the exponent of `v`.
    pub fn discrete_log(&self, v: &GroupElement) -> (r: u64)
        requires
            self.wf(),
            exists|x: u64| v.v == #[trigger] step_key(x, self.spec_base()),
        ensures
            v.v == step_key(r, self.spec_base()),
            forall|x: u64| v.v == #[trigger] step_key(x, self.spec_base()) ==> r == x,
    {
        let ghost x: u64 = choose|x: u64| v.v == #[trigger] step_key(x, self.spec_base());
        let mut y = *v;
        let mut i: u64 = 0;
        loop
            invariant
                self.wf(),
                v.v == step_key(x, self.base),
                i as int * self.m <= x,
                y.v == step_key((x - i as int * self.m) as u64, self.base),
            decreases x - i as int * self.m,
        {
            let probe = self.table.get(&y.v);
            let ghost rem: u64 = (x - i as int * self.m) as u64;
            match probe {
                Some(j) => {
                    proof {
                        lemma_generator_scale_cancel(self.base.v, self.table@[y.v], rem);
                        assert(i as int * self.m + self.table@[y.v] == x);
                        assert forall|x2: u64| v.v == #[trigger] step_key(x2, self.base)
                            implies x == x2 by {
                            lemma_generator_scale_cancel(self.base.v, x, x2);
                        }
                    }
                    return i * self.m + *j;
                },
                None => {
                    proof {
                        // no hit: the remaining exponent is at least m
                        if rem < self.m {
                            assert(self.table@.contains_pair(step_key(rem, self.base), rem));
                            assert(self.table@.dom().contains(y.v));
                        }
                        lemma_giant_step(rem, self.m, self.base);
                        vstd::arithmetic::mul::lemma_mul_is_distributive_add_other_way(
                            self.m as int,
                            i as int,
                            1,
                        );
                    }
                    y = y.plus_point(&self.inverse_point);
                    i = i + 1;
                },
            }
        }
    }

    /// Composition of `new` and `discrete_log` for convenience.  Less
    /// efficient than reusing the table.
    pub fn discrete_log_full(base: &GroupElement, m: u64, v: &GroupElement) -> (r: u64)
        requires
            base.is_generator(),
            1 <= m,
            exists|x: u64| v.v == #[trigger] step_key(x, *base),
        ensures
            v.v == step_key(r, *base),
            forall|x: u64| v.v == #[trigger] step_key(x, *base) ==> r == x,
    {
        let instance = BabyStepGiantStep::new(base, m);
        instance.discrete_log(v)
    }
}

/// The next multiple of the base: `(j+1)·base == j·base + base`.
proof fn lemma_step_key_unfold(j: u64, base: GroupElement)
    requires
        j < u64::MAX,
    ensures
        g_add(step_key(j, base) as int, base.v as int) == step_key((j + 1) as u64, base),
{
    let b = base.v as int;
    let mm = group_order();
    vstd::arithmetic::div_mod::lemma_mod_division_less_than_divisor(j as int * b, mm);
    vstd::arithmetic::div_mod::lemma_small_mod(base.v as nat, mm as nat);
    assert(((j as int * b) % mm + b) % mm == (j as int * b + b) % mm) by {
        vstd::arithmetic::div_mod::lemma_add_mod_noop(j as int * b, b, mm);
        vstd::arithmetic::div_mod::lemma_small_mod(base.v as nat, mm as nat);
    }
    assert(j as int * b + b == (j + 1) * b) by {
        vstd::arithmetic::mul::lemma_mul_is_distributive_add_other_way(b, j as int, 1);
        vstd::arithmetic::mul::lemma_mul_basics(b);
    }
}

/// One giant step: adding `-m·base` to `rem·base` lands on `(rem-m)·base`.
proof fn lemma_giant_step(rem: u64, m: u64, base: GroupElement)
    requires
        m <= rem,
    ensures
        g_add(
            step_key(rem, base) as int,
            g_neg(g_scale(m as int, base.v as int)),
        ) == step_key((rem - m) as u64, base),
{
    let b = base.v as int;
    let mm = group_order();
    vstd::arithmetic::div_mod::lemma_mod_division_less_than_divisor(rem as int * b, mm);
    vstd::arithmetic::div_mod::lemma_mod_twice(m as int * b, mm);
    lemma_g_sub(step_key(rem, base) as int, m as int * b);
    // (rem·b % mm - m·b) % mm == ((rem-m)·b) % mm
    assert((rem as int * b - m as int * b) % mm == ((rem - m) as int * b) % mm) by {
        vstd::arithmetic::mul::lemma_mul_is_distributive_sub_other_way(
            b,
            rem as int,
            m as int,
        );
    }
    assert(((rem as int * b) % mm - m as int * b) % mm == (rem as int * b - m as int * b)
        % mm) by {
        vstd::arithmetic::div_mod::lemma_sub_mod_noop(rem as int * b, m as int * b, mm);
        vstd::arithmetic::div_mod::lemma_mod_twice(rem as int * b, mm);
        vstd::arithmetic::div_mod::lemma_sub_mod_noop_right(
            (rem as int * b) % mm,
            m as int * b,
            mm,
        );
    }
}

impl SecretKey {
    /// Decrypt the amount in the exponent by linear search from zero: add
    /// the generator until the decrypted point is reached.
    pub fn decrypt_exponent_slow(&self, c: &Cipher) -> (r: u64)
        requires
            self.generator.is_generator(),
            exists|x: u64|
                spec_decrypt(self.scalar as int, *c) == g_scale(
                    x as int,
                    self.generator.v as int,
                ),
        ensures
            spec_decrypt(self.scalar as int, *c) == g_scale(r as int, self.generator.v as int),
    {
        let m = self.decrypt(c).value;
        let ghost x: u64 = choose|x: u64|
            spec_decrypt(self.scalar as int, *c) == g_scale(x as int, self.generator.v as int);
        let mut a: u64 = 0;
        let mut i = GroupElement::zero_point();
        proof {
            assert(g_scale(0, self.generator.v as int) == 0) by {
                vstd::arithmetic::mul::lemma_mul_basics(self.generator.v as int);
                vstd::arithmetic::div_mod::lemma_small_mod(0, group_order() as nat);
            }
        }
        while i.v != m.v
            invariant
                self.generator.is_generator(),
                m.v == spec_decrypt(self.scalar as int, *c),
                m.v == g_scale(x as int, self.generator.v as int),
                a <= x,
                i.v == g_scale(a as int, self.generator.v as int),
                i.v != m.v ==> a < x,
            decreases x - a,
        {
            i = i.plus_point(&self.generator);
            proof {
                lemma_step_key_unfold(a, self.generator);
            }
            a = a + 1;
            proof {
                if i.v != m.v {
                    assert(a < x || a == x);
                    if a == x {
                        assert(i.v == m.v);
                    }
                } else {
                    lemma_generator_scale_cancel(self.generator.v, a, x);
                }
            }
        }
        proof {
            lemma_generator_scale_cancel(self.generator.v, a, x);
        }
        a
    }

    /// Decrypt the amount in the exponent with a baby-step giant-step
    /// instance built over the same generator.
    pub fn decrypt_exponent(&self, c: &Cipher, bsgs: &BabyStepGiantStep) -> (r: u64)
        requires
            bsgs.wf(),
            bsgs.spec_base() == self.generator,
            exists|x: u64|
                spec_decrypt(self.scalar as int, *c) == #[trigger] step_key(x, self.generator),
        ensures
            spec_decrypt(self.scalar as int, *c) == step_key(r, self.generator),
            forall|x: u64|
                spec_decrypt(self.scalar as int, *c) == #[trigger] step_key(x, self.generator)
                    ==> r == x,
    {
        let dec = self.decrypt(c).value;
        bsgs.discrete_log(&dec)
    }
}

} // verus!
