//! Unsigned big integers as little-endian vectors of base-2^64 limbs.
//!
//! The swap invariant compares products of fee-adjusted 128-bit balances,
//! which need up to 276 bits; these operations evaluate such expressions
//! exactly.

use vstd::prelude::*;

verus! {

/// Base of the limb representation, as a spec-level integer.
pub open spec fn base() -> int {
    0x1_0000_0000_0000_0000
}

/// The integer that a limb sequence denotes: `s[0] + base * value of the rest`.
pub open spec fn limbs_val(s: Seq<u64>) -> int
    decreases s.len(),
{
    if s.len() == 0 {
        0
    } else {
        s[0] + base() * limbs_val(s.subrange(1, s.len() as int))
    }
}

/// `base()` raised to the power `e`.
pub open spec fn base_pow(e: nat) -> int
    decreases e,
{
    if e == 0 {
        1
    } else {
        base() * base_pow((e - 1) as nat)
    }
}

pub proof fn lemma_base_pow_pos(e: nat)
    ensures
        base_pow(e) >= 1,
    decreases e,
{
    if e > 0 {
        lemma_base_pow_pos((e - 1) as nat);
    }
}

pub proof fn lemma_limbs_val_nonneg(s: Seq<u64>)
    ensures
        limbs_val(s) >= 0,
    decreases s.len(),
{
    if s.len() > 0 {
        lemma_limbs_val_nonneg(s.subrange(1, s.len() as int));
    }
}

pub proof fn lemma_limbs_val_bound(s: Seq<u64>)
    ensures
        limbs_val(s) < base_pow(s.len()),
    decreases s.len(),
{
    if s.len() == 0 {
    } else {
        let rest = s.subrange(1, s.len() as int);
        lemma_limbs_val_bound(rest);
        lemma_base_pow_pos((s.len() - 1) as nat);
        assert(limbs_val(rest) <= base_pow(rest.len()) - 1);
    }
}

/// Appending a limb adds its value scaled by the base power of the position.
pub proof fn lemma_limbs_val_push(s: Seq<u64>, x: u64)
    ensures
        limbs_val(s.push(x)) == limbs_val(s) + base_pow(s.len()) * x,
    decreases s.len(),
{
    if s.len() == 0 {
        assert(s.push(x).subrange(1, 1) =~= Seq::<u64>::empty());
        assert(s.push(x)[0] == x);
        assert(limbs_val(Seq::<u64>::empty()) == 0);
    } else {
        let rest = s.subrange(1, s.len() as int);
        assert(s.push(x).subrange(1, s.len() as int + 1) =~= rest.push(x));
        lemma_limbs_val_push(rest, x);
        assert(base() * (limbs_val(rest) + base_pow(rest.len()) * x) == base() * limbs_val(rest)
            + base() * (base_pow(rest.len()) * x)) by (nonlinear_arith);
        assert(base() * (base_pow(rest.len()) * x) == (base() * base_pow(rest.len()))
            * x) by (nonlinear_arith);
    }
}

/// Base of the limb representation, as an executable constant.
pub const BASE_U128: u128 = 0x1_0000_0000_0000_0000;

/// Splits a double-width value into a low and a high limb.
fn split_u128(t: u128) -> (r: (u64, u64))
    ensures
        t == r.0 + base() * r.1,
{
    let lo128: u128 = t % BASE_U128;
    let hi128: u128 = t / BASE_U128;
    proof {
        vstd::arithmetic::div_mod::lemma_fundamental_div_mod(t as int, base());
        assert(0 <= t as int % base() < base());
        assert(base() * (t as int / base()) <= t);
        assert(t as int / base() < base());
    }
    (lo128 as u64, hi128 as u64)
}

/// The limb vector denoting a 128-bit value.
pub fn big_from_u128(x: u128) -> (v: Vec<u64>)
    ensures
        limbs_val(v@) == x,
{
    let (lo, hi) = split_u128(x);
    let mut v: Vec<u64> = Vec::new();
    proof {
        lemma_limbs_val_push(v@, lo);
    }
    v.push(lo);
    proof {
        lemma_limbs_val_push(v@, hi);
    }
    v.push(hi);
    v
}

/// A prefix one limb longer is worth the extra limb at its position.
pub proof fn lemma_limbs_val_take_step(s: Seq<u64>, j: int)
    requires
        0 <= j < s.len(),
    ensures
        limbs_val(s.take(j + 1)) == limbs_val(s.take(j)) + base_pow(j as nat) * s[j],
{
    assert(s.take(j + 1) =~= s.take(j).push(s[j]));
    lemma_limbs_val_push(s.take(j), s[j]);
}

/// Multiplies a big integer by a single limb.
pub fn big_mul_small(a: &Vec<u64>, m: u64) -> (v: Vec<u64>)
    ensures
        limbs_val(v@) == limbs_val(a@) * m,
{
    let mut out: Vec<u64> = Vec::new();
    let mut carry: u64 = 0;
    let mut i: usize = 0;
    while i < a.len()
        invariant
            i <= a.len(),
            out@.len() == i,
            limbs_val(out@) + base_pow(i as nat) * carry == limbs_val(a@.take(i as int)) * m,
        decreases a.len() - i,
    {
        let ghost prev = limbs_val(out@);
        let ghost pw = base_pow(i as nat);
        proof {
            assert((a@[i as int] as int) * (m as int) <= 0xffff_ffff_ffff_ffff
                * 0xffff_ffff_ffff_ffff) by (nonlinear_arith)
                requires
                    0 <= a@[i as int] as int <= 0xffff_ffff_ffff_ffff,
                    0 <= m as int <= 0xffff_ffff_ffff_ffff,
            ;
        }
        let t: u128 = (a[i] as u128) * (m as u128) + (carry as u128);
        let (lo, hi) = split_u128(t);
        proof {
            lemma_limbs_val_push(out@, lo);
            lemma_limbs_val_take_step(a@, i as int);
            lemma_base_pow_pos(i as nat);
            assert(pw * (lo + base() * hi) == pw * lo + (base() * pw) * hi) by (nonlinear_arith);
            assert(pw * ((a@[i as int] + 0) * m + carry) == pw * carry + pw * a@[i as int]
                * m) by (nonlinear_arith);
            assert((limbs_val(a@.take(i as int)) + pw * a@[i as int]) * m == limbs_val(
                a@.take(i as int),
            ) * m + pw * a@[i as int] * m) by (nonlinear_arith);
        }
        out.push(lo);
        carry = hi;
        i = i + 1;
        proof {
            assert(limbs_val(out@) == prev + pw * lo);
            assert(base_pow(i as nat) == base() * pw);
        }
    }
    proof {
        assert(a@.take(i as int) =~= a@);
        lemma_limbs_val_push(out@, carry);
    }
    out.push(carry);
    out
}

pub proof fn lemma_base_pow_adds(e1: nat, e2: nat)
    ensures
        base_pow(e1 + e2) == base_pow(e1) * base_pow(e2),
    decreases e1,
{
    if e1 == 0 {
    } else {
        lemma_base_pow_adds((e1 - 1) as nat, e2);
        assert(base() * (base_pow((e1 - 1) as nat) * base_pow(e2)) == (base() * base_pow(
            (e1 - 1) as nat,
        )) * base_pow(e2)) by (nonlinear_arith);
    }
}

/// The value splits at any position into a prefix plus a scaled suffix.
pub proof fn lemma_limbs_val_split(s: Seq<u64>, j: int)
    requires
        0 <= j <= s.len(),
    ensures
        limbs_val(s) == limbs_val(s.take(j)) + base_pow(j as nat) * limbs_val(s.skip(j)),
    decreases j,
{
    if j == 0 {
        assert(s.take(0) =~= Seq::<u64>::empty());
        assert(s.skip(0) =~= s);
    } else {
        lemma_limbs_val_split(s, j - 1);
        lemma_limbs_val_take_step(s, j - 1);
        let tail = s.skip(j - 1);
        assert(tail.subrange(1, tail.len() as int) =~= s.skip(j));
        assert(limbs_val(tail) == s[j - 1] + base() * limbs_val(s.skip(j)));
        let pw = base_pow((j - 1) as nat);
        assert(pw * (s[j - 1] + base() * limbs_val(s.skip(j))) == pw * s[j - 1] + (base() * pw)
            * limbs_val(s.skip(j))) by (nonlinear_arith);
    }
}

/// Equal-length limb vectors that agree above a position where one is
/// strictly smaller denote strictly ordered values.
pub proof fn lemma_limbs_val_lt(s: Seq<u64>, t: Seq<u64>, j: int)
    requires
        s.len() == t.len(),
        0 <= j < s.len(),
        s[j] < t[j],
        forall|k: int| j < k < s.len() ==> s[k] == t[k],
    ensures
        limbs_val(s) < limbs_val(t),
{
    lemma_limbs_val_split(s, j + 1);
    lemma_limbs_val_split(t, j + 1);
    assert(s.skip(j + 1) =~= t.skip(j + 1));
    lemma_limbs_val_take_step(s, j);
    lemma_limbs_val_take_step(t, j);
    lemma_limbs_val_bound(s.take(j));
    lemma_limbs_val_nonneg(t.take(j));
    assert(s.take(j).len() == j);
    let pw = base_pow(j as nat);
    lemma_base_pow_pos(j as nat);
    assert(pw * (s[j] as int) + pw <= pw * (t[j] as int)) by (nonlinear_arith)
        requires
            pw >= 1,
            (s[j] as int) < (t[j] as int),
    ;
}

/// The same value, padded with high zero limbs to the requested length.
pub fn big_pad(a: &Vec<u64>, n: usize) -> (v: Vec<u64>)
    requires
        a.len() <= n,
    ensures
        v@.len() == n,
        limbs_val(v@) == limbs_val(a@),
{
    let mut v: Vec<u64> = Vec::new();
    let mut i: usize = 0;
    while i < a.len()
        invariant
            i <= a.len(),
            v@ == a@.take(i as int),
        decreases a.len() - i,
    {
        proof {
            assert(a@.take(i as int + 1) =~= a@.take(i as int).push(a@[i as int]));
        }
        v.push(a[i]);
        i = i + 1;
    }
    proof {
        assert(a@.take(a@.len() as int) =~= a@);
    }
    while v.len() < n
        invariant
            v@.len() <= n,
            limbs_val(v@) == limbs_val(a@),
        decreases n - v@.len(),
    {
        proof {
            lemma_limbs_val_push(v@, 0);
        }
        v.push(0);
    }
    v
}

/// Adds two big integers.
pub fn big_add(a: &Vec<u64>, b: &Vec<u64>) -> (v: Vec<u64>)
    ensures
        limbs_val(v@) == limbs_val(a@) + limbs_val(b@),
{
    let n: usize = if a.len() > b.len() {
        a.len()
    } else {
        b.len()
    };
    let pa = big_pad(a, n);
    let pb = big_pad(b, n);
    let mut out: Vec<u64> = Vec::new();
    let mut carry: u64 = 0;
    let mut i: usize = 0;
    while i < n
        invariant
            i <= n,
            pa@.len() == n,
            pb@.len() == n,
            out@.len() == i,
            limbs_val(pa@) == limbs_val(a@),
            limbs_val(pb@) == limbs_val(b@),
            limbs_val(out@) + base_pow(i as nat) * carry == limbs_val(pa@.take(i as int))
                + limbs_val(pb@.take(i as int)),
        decreases n - i,
    {
        let ghost prev = limbs_val(out@);
        let ghost pw = base_pow(i as nat);
        let t: u128 = (pa[i] as u128) + (pb[i] as u128) + (carry as u128);
        let (lo, hi) = split_u128(t);
        proof {
            lemma_limbs_val_push(out@, lo);
            lemma_limbs_val_take_step(pa@, i as int);
            lemma_limbs_val_take_step(pb@, i as int);
            assert(pw * (lo + base() * hi) == pw * lo + (base() * pw) * hi) by (nonlinear_arith);
            assert(pw * (pa@[i as int] + pb@[i as int] + carry) == pw * pa@[i as int] + pw
                * pb@[i as int] + pw * carry) by (nonlinear_arith);
        }
        out.push(lo);
        carry = hi;
        i = i + 1;
        proof {
            assert(limbs_val(out@) == prev + pw * lo);
            assert(base_pow(i as nat) == base() * pw);
        }
    }
    proof {
        assert(pa@.take(n as int) =~= pa@);
        assert(pb@.take(n as int) =~= pb@);
        lemma_limbs_val_push(out@, carry);
    }
    out.push(carry);
    out
}

/// Multiplies a big integer by the base raised to `k`: prepends `k` zero
/// limbs.
pub fn big_shift(a: &Vec<u64>, k: usize) -> (v: Vec<u64>)
    ensures
        limbs_val(v@) == base_pow(k as nat) * limbs_val(a@),
{
    let mut out: Vec<u64> = Vec::new();
    let mut i: usize = 0;
    while i < k
        invariant
            i <= k,
            out@.len() == i,
            limbs_val(out@) == 0,
        decreases k - i,
    {
        proof {
            lemma_limbs_val_push(out@, 0);
        }
        out.push(0);
        i = i + 1;
    }
    let mut j: usize = 0;
    while j < a.len()
        invariant
            j <= a.len(),
            out@.len() == k + j,
            limbs_val(out@) == base_pow(k as nat) * limbs_val(a@.take(j as int)),
        decreases a.len() - j,
    {
        proof {
            lemma_limbs_val_push(out@, a@[j as int]);
            lemma_limbs_val_take_step(a@, j as int);
            lemma_base_pow_adds(k as nat, j as nat);
            let pk = base_pow(k as nat);
            let pj = base_pow(j as nat);
            let aj = a@[j as int] as int;
            assert(pk * (limbs_val(a@.take(j as int)) + pj * aj) == pk * limbs_val(
                a@.take(j as int),
            ) + (pk * pj) * aj) by (nonlinear_arith);
        }
        let x = a[j];
        out.push(x);
        j = j + 1;
    }
    proof {
        assert(a@.take(a@.len() as int) =~= a@);
    }
    out
}

/// Multiplies two big integers.
pub fn big_mul(a: &Vec<u64>, b: &Vec<u64>) -> (v: Vec<u64>)
    ensures
        limbs_val(v@) == limbs_val(a@) * limbs_val(b@),
{
    let mut out: Vec<u64> = Vec::new();
    let mut i: usize = 0;
    proof {
        assert(a@.take(0) =~= Seq::<u64>::empty());
    }
    while i < a.len()
        invariant
            i <= a.len(),
            limbs_val(out@) == limbs_val(a@.take(i as int)) * limbs_val(b@),
        decreases a.len() - i,
    {
        let part = big_mul_small(b, a[i]);
        let shifted = big_shift(&part, i);
        let next = big_add(&out, &shifted);
        proof {
            lemma_limbs_val_take_step(a@, i as int);
            let pw = base_pow(i as nat);
            let vb = limbs_val(b@);
            let ai = a@[i as int] as int;
            assert(pw * (vb * ai) == (pw * ai) * vb) by (nonlinear_arith);
            assert((limbs_val(a@.take(i as int)) + pw * ai) * vb == limbs_val(a@.take(i as int))
                * vb + (pw * ai) * vb) by (nonlinear_arith);
        }
        out = next;
        i = i + 1;
    }
    proof {
        assert(a@.take(a@.len() as int) =~= a@);
    }
    out
}

/// Decides whether the first big integer is at least the second.
pub fn big_ge(a: &Vec<u64>, b: &Vec<u64>) -> (r: bool)
    ensures
        r == (limbs_val(a@) >= limbs_val(b@)),
{
    let n: usize = if a.len() > b.len() {
        a.len()
    } else {
        b.len()
    };
    let pa = big_pad(a, n);
    let pb = big_pad(b, n);
    let mut j: usize = n;
    while j > 0
        invariant
            j <= n,
            pa@.len() == n,
            pb@.len() == n,
            limbs_val(pa@) == limbs_val(a@),
            limbs_val(pb@) == limbs_val(b@),
            forall|k: int| j <= k < n ==> pa@[k] == pb@[k],
        decreases j,
    {
        j = j - 1;
        let da = pa[j];
        let db = pb[j];
        if da > db {
            proof {
                lemma_limbs_val_lt(pb@, pa@, j as int);
            }
            return true;
        }
        if da < db {
            proof {
                lemma_limbs_val_lt(pa@, pb@, j as int);
            }
            return false;
        }
    }
    proof {
        assert(pa@ =~= pb@);
    }
    true
}

} // verus!
