//! Multi-limb arithmetic for integer types wider than a machine word.
//!
//! A value of declared width `32 * K` bits is a little-endian vector of `K`
//! 32-bit limbs. Addition, subtraction and multiplication wrap exactly at
//! 2^(32*K); comparison is the unsigned order of the represented values.

use vstd::arithmetic::div_mod::{
    lemma_fundamental_div_mod, lemma_fundamental_div_mod_converse, lemma_small_mod,
};
use vstd::arithmetic::power2::{lemma2_to64, lemma_pow2_adds, lemma_pow2_pos, pow2};
use vstd::prelude::*;

verus! {

/// The value represented by a little-endian limb vector.
pub open spec fn lval(s: Seq<u32>) -> nat
    decreases s.len(),
{
    if s.len() == 0 {
        0
    } else {
        (s[0] + pow2(32) * lval(s.drop_first())) as nat
    }
}

/// A represented value is below 2^(32 * number of limbs).
pub proof fn lemma_lval_bound(s: Seq<u32>)
    ensures
        lval(s) < pow2(32 * s.len()),
    decreases s.len(),
{
    if s.len() == 0 {
        lemma2_to64();
    } else {
        lemma_lval_bound(s.drop_first());
        lemma_pow2_adds(32, 32 * (s.len() - 1) as nat);
        lemma2_to64();
        let rest = lval(s.drop_first());
        let m = pow2(32 * (s.len() - 1) as nat);
        assert(s[0] + pow2(32) * rest < pow2(32) * m) by (nonlinear_arith)
            requires
                s[0] < pow2(32),
                rest < m,
                pow2(32) > 0,
        ;
    }
}

/// Appending a limb adds its value at the next power-of-two position.
pub proof fn lemma_lval_snoc(s: Seq<u32>, x: u32)
    ensures
        lval(s.push(x)) == lval(s) + x * pow2(32 * s.len()),
    decreases s.len(),
{
    if s.len() == 0 {
        assert(s.push(x).drop_first() =~= Seq::<u32>::empty());
        lemma2_to64();
        assert(lval(Seq::<u32>::empty()) == 0);
        assert(pow2(32) * 0 == 0 && x * pow2(0) == x) by (nonlinear_arith)
            requires
                pow2(0) == 1,
        ;
    } else {
        assert(s.push(x).drop_first() =~= s.drop_first().push(x));
        lemma_lval_snoc(s.drop_first(), x);
        lemma_pow2_adds(32, 32 * (s.len() - 1) as nat);
        let rest = lval(s.drop_first());
        let m = pow2(32 * (s.len() - 1) as nat);
        assert(pow2(32) * (rest + x * m) == pow2(32) * rest + x * (pow2(32) * m))
            by (nonlinear_arith);
    }
}

/// The value of a prefix one longer gains the next limb at its position.
pub proof fn lemma_lval_take_succ(s: Seq<u32>, i: int)
    requires
        0 <= i < s.len(),
    ensures
        lval(s.take(i + 1)) == lval(s.take(i)) + s[i] * pow2(32 * i as nat),
{
    assert(s.take(i + 1) =~= s.take(i).push(s[i]));
    lemma_lval_snoc(s.take(i), s[i]);
}

/// Replacing one limb changes the value by the difference at that position.
pub proof fn lemma_lval_update(s: Seq<u32>, k: int, x: u32)
    requires
        0 <= k < s.len(),
    ensures
        lval(s.update(k, x)) + s[k] * pow2(32 * k as nat) == lval(s) + x * pow2(
            32 * k as nat,
        ),
    decreases k,
{
    if k == 0 {
        assert(s.update(0, x).drop_first() =~= s.drop_first());
        lemma2_to64();
        assert(x * pow2(0) == x && s[0] * pow2(0) == s[0]) by (nonlinear_arith)
            requires
                pow2(0) == 1,
        ;
    } else {
        assert(s.update(k, x).drop_first() =~= s.drop_first().update(k - 1, x));
        lemma_lval_update(s.drop_first(), k - 1, x);
        lemma_pow2_adds(32, 32 * (k - 1) as nat);
        let m = pow2(32 * (k - 1) as nat);
        let a = lval(s.drop_first().update(k - 1, x));
        let b = lval(s.drop_first());
        let sk = s[k];
        assert(a + sk * m == b + x * m ==> pow2(32) * a + sk * (pow2(32) * m) == pow2(32) * b
            + x * (pow2(32) * m)) by (nonlinear_arith);
    }
}

/// A limb vector splits at any point into a low prefix and a shifted suffix.
pub proof fn lemma_lval_split(s: Seq<u32>, m: int)
    requires
        0 <= m <= s.len(),
    ensures
        lval(s) == lval(s.take(m)) + pow2(32 * m as nat) * lval(s.skip(m)),
    decreases m,
{
    if m == 0 {
        assert(s.take(0) =~= Seq::<u32>::empty());
        assert(s.skip(0) =~= s);
        lemma2_to64();
        assert(1 * lval(s) == lval(s)) by (nonlinear_arith);
    } else {
        lemma_lval_take_succ(s, m - 1);
        lemma_lval_split(s, m - 1);
        assert(s.skip(m - 1) =~= seq![s[m - 1]].add(s.skip(m)));
        assert(s.skip(m - 1).drop_first() =~= s.skip(m));
        let p = pow2(32 * (m - 1) as nat);
        assert(lval(s.skip(m - 1)) == s[m - 1] + pow2(32) * lval(s.skip(m)));
        lemma_pow2_adds(32 * (m - 1) as nat, 32);
        assert(32 * (m - 1) as nat + 32 == 32 * m as nat);
        let q = pow2(32 * m as nat);
        assert(q == p * pow2(32));
        let hi = lval(s.skip(m));
        let limb = s[m - 1];
        assert(p * (limb + pow2(32) * hi) == limb * p + (p * pow2(32)) * hi)
            by (nonlinear_arith);
    }
}

/// Unsigned order of two wide values of the same width.
#[derive(Clone, Copy, PartialEq, Eq, Structural, Debug)]
pub enum WideOrd {
    Less,
    Equal,
    Greater,
}

/// Wrapping addition: the sum of the represented values modulo 2^(32*K).
pub fn wide_add(a: &Vec<u32>, b: &Vec<u32>) -> (r: Vec<u32>)
    requires
        a@.len() == b@.len(),
    ensures
        r@.len() == a@.len(),
        lval(r@) == (lval(a@) + lval(b@)) % pow2(32 * a@.len()),
{
    let k = a.len();
    let mut r: Vec<u32> = Vec::new();
    let mut carry: u32 = 0;
    let mut i: usize = 0;
    while i < k
        invariant
            a@.len() == k,
            b@.len() == k,
            0 <= i <= k,
            r@.len() == i,
            carry <= 1,
            lval(r@) + carry * pow2(32 * i as nat) == lval(a@.take(i as int)) + lval(
                b@.take(i as int),
            ),
        decreases k - i,
    {
        let ghost p = pow2(32 * i as nat);
        let t: u64 = a[i] as u64 + b[i] as u64 + carry as u64;
        let low: u32 = (t % 0x1_0000_0000u64) as u32;
        let hi: u32 = (t / 0x1_0000_0000u64) as u32;
        proof {
            lemma_lval_snoc(r@, low);
            lemma_lval_take_succ(a@, i as int);
            lemma_lval_take_succ(b@, i as int);
            lemma_pow2_adds(32, 32 * i as nat);
            lemma2_to64();
            assert(t == low + 0x1_0000_0000 * hi);
            assert(lval(r@) + low * p + hi * (0x1_0000_0000 * p) == lval(r@) + t * p)
                by (nonlinear_arith)
                requires
                    t == low + 0x1_0000_0000 * hi,
            ;
            assert(t * p == a@[i as int] * p + b@[i as int] * p + carry * p)
                by (nonlinear_arith)
                requires
                    t == a@[i as int] + b@[i as int] + carry,
            ;
        }
        r.push(low);
        carry = hi;
        i = i + 1;
    }
    proof {
        assert(a@.take(k as int) =~= a@);
        assert(b@.take(k as int) =~= b@);
        let m = pow2(32 * k as nat);
        lemma_pow2_pos(32 * k as nat);
        lemma_lval_bound(r@);
        lemma_fundamental_div_mod_converse(
            (lval(a@) + lval(b@)) as int,
            m as int,
            carry as int,
            lval(r@) as int,
        );
    }
    r
}

/// Wrapping subtraction: the difference of the represented values modulo
/// 2^(32*K), taken non-negative.
pub fn wide_sub(a: &Vec<u32>, b: &Vec<u32>) -> (r: Vec<u32>)
    requires
        a@.len() == b@.len(),
    ensures
        r@.len() == a@.len(),
        lval(r@) as int == (lval(a@) - lval(b@)) % (pow2(32 * a@.len()) as int),
{
    let k = a.len();
    let mut r: Vec<u32> = Vec::new();
    let mut borrow: u32 = 0;
    let mut i: usize = 0;
    while i < k
        invariant
            a@.len() == k,
            b@.len() == k,
            0 <= i <= k,
            r@.len() == i,
            borrow <= 1,
            lval(r@) - borrow * pow2(32 * i as nat) == lval(a@.take(i as int)) - lval(
                b@.take(i as int),
            ),
        decreases k - i,
    {
        let ghost p = pow2(32 * i as nat);
        let t: i64 = a[i] as i64 - b[i] as i64 - borrow as i64;
        let low: u32;
        let nb: u32;
        if t < 0 {
            low = (t + 0x1_0000_0000i64) as u32;
            nb = 1;
        } else {
            low = t as u32;
            nb = 0;
        }
        proof {
            lemma_lval_snoc(r@, low);
            lemma_lval_take_succ(a@, i as int);
            lemma_lval_take_succ(b@, i as int);
            lemma_pow2_adds(32, 32 * i as nat);
            lemma2_to64();
            assert(low - nb * 0x1_0000_0000 == t);
            assert(lval(r@) + low * p - nb * (0x1_0000_0000 * p) == lval(r@) + t * p)
                by (nonlinear_arith)
                requires
                    low - nb * 0x1_0000_0000 == t,
            ;
            assert(t * p == a@[i as int] * p - b@[i as int] * p - borrow * p)
                by (nonlinear_arith)
                requires
                    t == a@[i as int] - b@[i as int] - borrow,
            ;
        }
        r.push(low);
        borrow = nb;
        i = i + 1;
    }
    proof {
        assert(a@.take(k as int) =~= a@);
        assert(b@.take(k as int) =~= b@);
        let m = pow2(32 * k as nat);
        lemma_pow2_pos(32 * k as nat);
        lemma_lval_bound(r@);
        assert((-(borrow as int)) * (m as int) == -((borrow * m) as int))
            by (nonlinear_arith);
        lemma_fundamental_div_mod_converse(
            lval(a@) - lval(b@),
            m as int,
            -(borrow as int),
            lval(r@) as int,
        );
    }
    r
}

/// Wrapping multiplication: the product of the represented values modulo
/// 2^(32*K), computed limb row by limb row with carry propagation.
pub fn wide_mul(a: &Vec<u32>, b: &Vec<u32>) -> (r: Vec<u32>)
    requires
        a@.len() == b@.len(),
    ensures
        r@.len() == a@.len(),
        lval(r@) == (lval(a@) * lval(b@)) % pow2(32 * a@.len()),
{
    let k = a.len();
    let ghost m = pow2(32 * k as nat);
    proof {
        lemma_pow2_pos(32 * k as nat);
    }
    let mut r: Vec<u32> = Vec::new();
    let mut z: usize = 0;
    while z < k
        invariant
            0 <= z <= k,
            r@.len() == z,
            lval(r@) == 0,
        decreases k - z,
    {
        proof {
            lemma_lval_snoc(r@, 0);
        }
        r.push(0);
        z = z + 1;
    }
    proof {
        assert(a@.take(0) =~= Seq::<u32>::empty());
        assert(lval(Seq::<u32>::empty()) * lval(b@) == 0) by (nonlinear_arith)
            requires
                lval(Seq::<u32>::empty()) == 0,
        ;
        lemma_small_mod(0, m);
    }
    let mut i: usize = 0;
    while i < k
        invariant
            a@.len() == k,
            b@.len() == k,
            m == pow2(32 * k as nat),
            m > 0,
            0 <= i <= k,
            r@.len() == k,
            lval(r@) as int == ((lval(a@.take(i as int)) * lval(b@)) as int) % (m as int),
        decreases k - i,
    {
        let ghost v0 = lval(r@);
        let ghost pi = pow2(32 * i as nat);
        let ai = a[i];
        proof {
            assert(b@.take(0) =~= Seq::<u32>::empty());
            assert((ai * lval(Seq::<u32>::empty())) * pi == 0) by (nonlinear_arith)
                requires
                    lval(Seq::<u32>::empty()) == 0,
            ;
        }
        let mut carry: u32 = 0;
        let mut j: usize = 0;
        while j < k - i
            invariant
                a@.len() == k,
                b@.len() == k,
                0 <= i < k,
                0 <= j <= k - i,
                r@.len() == k,
                pi == pow2(32 * i as nat),
                ai == a@[i as int],
                lval(r@) + carry * pow2(32 * (i + j) as nat) == v0 + (ai * lval(
                    b@.take(j as int),
                )) * pi,
            decreases k - i - j,
        {
            let ghost q = pow2(32 * (i + j) as nat);
            let ghost r_old = r@;
            let ghost c0 = carry;
            let old_limb = r[i + j];
            proof {
                assert((ai as u64) * (b@[j as int] as u64) <= 0xffff_fffe_0000_0001u64)
                    by (nonlinear_arith)
                    requires
                        ai <= 0xffff_ffffu32,
                        b@[j as int] <= 0xffff_ffffu32,
                ;
            }
            let t: u64 = old_limb as u64 + (ai as u64) * (b[j] as u64) + carry as u64;
            let low: u32 = (t % 0x1_0000_0000u64) as u32;
            let hi: u32 = (t / 0x1_0000_0000u64) as u32;
            r.set(i + j, low);
            carry = hi;
            proof {
                lemma_lval_update(r_old, (i + j) as int, low);
                lemma_lval_take_succ(b@, j as int);
                lemma_pow2_adds(32, 32 * (i + j) as nat);
                lemma_pow2_adds(32 * i as nat, 32 * j as nat);
                lemma2_to64();
                assert(t == low + 0x1_0000_0000 * hi);
                let bj = b@[j as int];
                let bt = lval(b@.take(j as int));
                let pj = pow2(32 * j as nat);
                // value gained by the store plus the carry moved one limb up
                // equals the partial product term added in this step
                assert(lval(r@) + hi * (0x1_0000_0000 * q) == lval(r_old) + (ai * bj + c0)
                    * q) by (nonlinear_arith)
                    requires
                        lval(r@) + r_old[(i + j) as int] * q == lval(r_old) + low * q,
                        t == low + 0x1_0000_0000 * hi,
                        t == r_old[(i + j) as int] + ai * bj + c0,
                ;
                assert((ai * (bt + bj * pj)) * pi == (ai * bt) * pi + (ai * bj) * (pj * pi))
                    by (nonlinear_arith);
                assert(32 * i as nat + 32 * j as nat == 32 * (i + j) as nat);
                assert(q == pi * pj);
                assert(pj * pi == pi * pj) by (nonlinear_arith);
                assert((ai * bj) * (pj * pi) == (ai * bj) * q);
                assert(32 as nat + 32 * (i + j) as nat == 32 * (i + j + 1) as nat);
                assert(pow2(32 * (i + j + 1) as nat) == 0x1_0000_0000 * q);
                assert(lval(r_old) == v0 + (ai * bt) * pi - c0 * q);
                assert((ai * bj + c0) * q == (ai * bj) * q + c0 * q) by (nonlinear_arith);
                assert(lval(r@) + hi * pow2(32 * (i + j + 1) as nat) == v0 + (ai * (bt + bj
                    * pj)) * pi);
                assert(lval(b@.take(j as int + 1)) == bt + bj * pj);
            }
            j = j + 1;
        }
        proof {
            // the final carry and the limbs beyond the width drop out mod 2^(32*K)
            let jend = (k - i) as int;
            assert(32 * (i + jend) as nat == 32 * k as nat);
            lemma_lval_split(b@, jend);
            let bt = lval(b@.take(jend));
            let bh = lval(b@.skip(jend));
            let pjend = pow2(32 * jend as nat);
            lemma_pow2_adds(32 * i as nat, 32 * jend as nat);
            // lval(r@) == v0 + (ai * bt) * pi - carry * m
            // target value grows by ai * lval(b@) * pi, congruent mod m
            lemma_lval_take_succ(a@, i as int);
            let at = lval(a@.take(i as int));
            let lb = lval(b@);
            assert(lval(r@) as int == v0 + (ai * bt) * pi - carry * m);
            assert(v0 + (ai * bt) * pi == lval(r@) + carry * m);
            assert((at + ai * pi) * lb == at * lb + (ai * (bt + pjend * bh)) * pi)
                by (nonlinear_arith)
                requires
                    lb == bt + pjend * bh,
            ;
            assert((ai * (bt + pjend * bh)) * pi == (ai * bt) * pi + (ai * bh) * (pi * pjend))
                by (nonlinear_arith);
            assert(pi * pjend == m);
            assert((ai * bh) * (pi * pjend) == (ai * bh) * m);
            // v0 == (at * lb) % m; combine the congruences
            lemma_fundamental_div_mod((at * lb) as int, m as int);
            let qd = ((at * lb) as int) / (m as int);
            assert((at * lb) as int == qd * (m as int) + v0);
            let lhs = (lval(a@.take(i as int + 1)) * lb) as int;
            assert(lval(a@.take(i as int + 1)) == at + ai * pi);
            assert(lhs == (at + ai * pi) * lb);
            assert(lhs == qd * (m as int) + v0 + (ai * (bt + pjend * bh)) * pi);
            assert((ai * (bt + pjend * bh)) * pi == (ai * bt) * pi + (ai * bh) * m);
            assert(lhs == qd * (m as int) + (v0 + (ai * bt) * pi) + (ai * bh) * m);
            assert(lhs == qd * (m as int) + (ai * bh) * m + carry * m + lval(r@));
            assert((lval(a@.take(i as int + 1)) * lb) as int == qd * (m as int) + (ai * bh) * m
                + carry * m + lval(r@));
            lemma_lval_bound(r@);
            assert((qd + ai * bh + carry) * (m as int) == qd * (m as int) + (ai * bh) * m
                + carry * m) by (nonlinear_arith);
            lemma_fundamental_div_mod_converse(
                (lval(a@.take(i as int + 1)) * lb) as int,
                m as int,
                qd + ai * bh + carry,
                lval(r@) as int,
            );
        }
        i = i + 1;
    }
    proof {
        assert(a@.take(k as int) =~= a@);
        lemma_lval_bound(r@);
    }
    r
}

/// Unsigned comparison of two wide values of the same width.
pub fn wide_cmp(a: &Vec<u32>, b: &Vec<u32>) -> (r: WideOrd)
    requires
        a@.len() == b@.len(),
    ensures
        r == WideOrd::Less <==> lval(a@) < lval(b@),
        r == WideOrd::Equal <==> lval(a@) == lval(b@),
        r == WideOrd::Greater <==> lval(a@) > lval(b@),
{
    let k = a.len();
    let mut i: usize = k;
    while i > 0
        invariant
            a@.len() == k,
            b@.len() == k,
            0 <= i <= k,
            forall|j: int| i <= j < k ==> a@[j] == b@[j],
        decreases i,
    {
        i = i - 1;
        if a[i] != b[i] {
            proof {
                lemma_cmp_at(a@, b@, i as int);
            }
            if a[i] < b[i] {
                return WideOrd::Less;
            } else {
                return WideOrd::Greater;
            }
        }
    }
    proof {
        assert(a@ =~= b@);
    }
    WideOrd::Equal
}

/// If all limbs above position `i` agree, position `i` decides the order.
proof fn lemma_cmp_at(a: Seq<u32>, b: Seq<u32>, i: int)
    requires
        a.len() == b.len(),
        0 <= i < a.len(),
        forall|j: int| i < j < a.len() ==> a[j] == b[j],
        a[i] != b[i],
    ensures
        a[i] < b[i] ==> lval(a) < lval(b),
        a[i] > b[i] ==> lval(a) > lval(b),
{
    lemma_lval_split(a, i + 1);
    lemma_lval_split(b, i + 1);
    assert(a.skip(i + 1) =~= b.skip(i + 1));
    lemma_lval_take_succ(a, i);
    lemma_lval_take_succ(b, i);
    lemma_lval_bound(a.take(i));
    lemma_lval_bound(b.take(i));
    let p = pow2(32 * i as nat);
    let la = lval(a.take(i));
    let lb = lval(b.take(i));
    assert(la < p && lb < p ==> (a[i] < b[i] ==> la + a[i] * p < lb + b[i] * p) && (a[i]
        > b[i] ==> la + a[i] * p > lb + b[i] * p)) by (nonlinear_arith)
        requires
            a[i] != b[i],
            p > 0,
    ;
    lemma_pow2_pos(32 * i as nat);
}

/// Whether two wide values of the same width represent the same number.
pub fn wide_eq(a: &Vec<u32>, b: &Vec<u32>) -> (r: bool)
    requires
        a@.len() == b@.len(),
    ensures
        r == (lval(a@) == lval(b@)),
{
    matches!(wide_cmp(a, b), WideOrd::Equal)
}

/// Zero-extends a value to a wider limb count; the value is unchanged.
pub fn widen(a: &Vec<u32>, k: usize) -> (r: Vec<u32>)
    requires
        a@.len() <= k,
    ensures
        r@.len() == k,
        lval(r@) == lval(a@),
    decreases k,
{
    let mut r: Vec<u32> = Vec::new();
    let mut i: usize = 0;
    while i < a.len()
        invariant
            0 <= i <= a@.len(),
            r@ == a@.take(i as int),
        decreases a@.len() - i,
    {
        r.push(a[i]);
        i = i + 1;
    }
    assert(r@ =~= a@);
    while i < k
        invariant
            a@.len() <= i <= k,
            r@.len() == i,
            lval(r@) == lval(a@),
        decreases k - i,
    {
        proof {
            lemma_lval_snoc(r@, 0);
        }
        r.push(0);
        i = i + 1;
    }
    r
}

/// Whether a value fits in `k` limbs: true exactly when it is below 2^(32*k).
pub fn fits(a: &Vec<u32>, k: usize) -> (r: bool)
    ensures
        r == (lval(a@) < pow2(32 * k as nat)),
{
    if k >= a.len() {
        proof {
            lemma_lval_bound(a@);
            lemma_pow2_adds(32 * a@.len(), 32 * (k - a@.len()) as nat);
            lemma_pow2_pos(32 * (k - a@.len()) as nat);
            lemma_pow2_pos(32 * a@.len());
            let p = pow2(32 * a@.len());
            let q = pow2(32 * (k - a@.len()) as nat);
            assert(q >= 1 ==> p * q >= p * 1) by (nonlinear_arith)
                requires
                    p > 0,
            ;
        }
        return true;
    }
    let mut i: usize = k;
    while i < a.len()
        invariant
            k <= i <= a@.len(),
            k < a@.len(),
            forall|j: int| k <= j < i ==> a@[j] == 0,
        decreases a@.len() - i,
    {
        if a[i] != 0 {
            proof {
                lemma_lval_split(a@, i as int);
                lemma_lval_take_succ(a@.skip(i as int), 0);
                let hi = lval(a@.skip(i as int));
                assert(a@.skip(i as int)[0] == a@[i as int]);
                assert(hi >= a@[i as int]);
                let p = pow2(32 * i as nat);
                lemma_pow2_pos(32 * i as nat);
                assert(hi >= 1 ==> p * hi >= p * 1) by (nonlinear_arith)
                    requires
                        p > 0,
                ;
                lemma_pow2_adds(32 * k as nat, 32 * (i - k) as nat);
                lemma_pow2_pos(32 * (i - k) as nat);
                lemma_pow2_pos(32 * k as nat);
                let pk = pow2(32 * k as nat);
                let d = pow2(32 * (i - k) as nat);
                assert(d >= 1 ==> pk * d >= pk * 1) by (nonlinear_arith)
                    requires
                        pk > 0,
                ;
            }
            return false;
        }
        i = i + 1;
    }
    proof {
        lemma_lval_split(a@, k as int);
        lemma_lval_zero_seq(a@.skip(k as int));
        lemma_lval_bound(a@.take(k as int));
        let p = pow2(32 * k as nat);
        assert(p * 0 == 0) by (nonlinear_arith);
    }
    true
}

/// A vector of zero limbs represents zero.
pub proof fn lemma_lval_zero_seq(s: Seq<u32>)
    requires
        forall|j: int| 0 <= j < s.len() ==> s[j] == 0,
    ensures
        lval(s) == 0,
    decreases s.len(),
{
    if s.len() > 0 {
        lemma_lval_zero_seq(s.drop_first());
        assert(pow2(32) * 0 == 0) by (nonlinear_arith);
    }
}

/// Truncates a value to `k` limbs: the value modulo 2^(32*k).
pub fn truncate(a: &Vec<u32>, k: usize) -> (r: Vec<u32>)
    requires
        k <= a@.len(),
    ensures
        r@.len() == k,
        lval(r@) == lval(a@) % pow2(32 * k as nat),
{
    let mut r: Vec<u32> = Vec::new();
    let mut i: usize = 0;
    while i < k
        invariant
            k <= a@.len(),
            0 <= i <= k,
            r@ == a@.take(i as int),
        decreases k - i,
    {
        r.push(a[i]);
        i = i + 1;
    }
    proof {
        assert(r@ =~= a@.take(k as int));
        lemma_lval_split(a@, k as int);
        lemma_lval_bound(r@);
        lemma_pow2_pos(32 * k as nat);
        assert(lval(a@.skip(k as int)) * pow2(32 * k as nat) == pow2(32 * k as nat) * lval(
            a@.skip(k as int),
        )) by (nonlinear_arith);
        lemma_fundamental_div_mod_converse(
            lval(a@) as int,
            pow2(32 * k as nat) as int,
            lval(a@.skip(k as int)) as int,
            lval(r@) as int,
        );
    }
    r
}

/// A fresh zero value of `k` limbs.
pub fn wide_zero(k: usize) -> (r: Vec<u32>)
    ensures
        r@.len() == k,
        lval(r@) == 0,
{
    let mut r: Vec<u32> = Vec::new();
    let mut i: usize = 0;
    while i < k
        invariant
            0 <= i <= k,
            r@.len() == i,
            lval(r@) == 0,
        decreases k - i,
    {
        proof {
            lemma_lval_snoc(r@, 0);
        }
        r.push(0);
        i = i + 1;
    }
    r
}

/// The one-limb value of a small constant.
pub fn wide_from_u32(x: u32) -> (r: Vec<u32>)
    ensures
        r@.len() == 1,
        lval(r@) == x,
{
    let mut r: Vec<u32> = Vec::new();
    r.push(x);
    proof {
        assert(r@.drop_first() =~= Seq::<u32>::empty());
        assert(lval(Seq::<u32>::empty()) == 0);
        assert(pow2(32) * 0 == 0) by (nonlinear_arith);
    }
    r
}

} // verus!
