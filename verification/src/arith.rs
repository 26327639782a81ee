//! Byte strings read as integers, and the modular-arithmetic facts that the
//! scheme proofs share.

use vstd::prelude::*;

verus! {

/// The integer whose little-endian base-256 digits are `s`.
pub open spec fn le_nat(s: Seq<u8>) -> nat
    decreases s.len(),
{
    if s.len() == 0 {
        0
    } else {
        s[0] as nat + 256 * le_nat(s.skip(1))
    }
}

/// The integer whose big-endian base-256 digits are `s`.
pub open spec fn be_nat(s: Seq<u8>) -> nat
    decreases s.len(),
{
    if s.len() == 0 {
        0
    } else {
        be_nat(s.drop_last()) * 256 + s.last() as nat
    }
}

/// Two digit strings of one length that denote the same integer are equal.
pub proof fn lemma_le_nat_injective(a: Seq<u8>, b: Seq<u8>)
    requires
        a.len() == b.len(),
        le_nat(a) == le_nat(b),
    ensures
        a == b,
    decreases a.len(),
{
    if a.len() > 0 {
        lemma_le_nat_injective(a.skip(1), b.skip(1));
        assert(a =~= seq![a[0]] + a.skip(1));
        assert(b =~= seq![b[0]] + b.skip(1));
    } else {
        assert(a =~= b);
    }
}

/// Appends `s` to `v`.
pub fn extend_bytes(v: &mut Vec<u8>, s: &[u8])
    ensures
        final(v)@ == old(v)@ + s@,
{
    let mut i: usize = 0;
    while i < s.len()
        invariant
            i <= s.len(),
            v@ == old(v)@ + s@.subrange(0, i as int),
        decreases s.len() - i,
    {
        v.push(s[i]);
        i = i + 1;
        assert(s@.subrange(0, i as int) =~= s@.subrange(0, i - 1).push(s@[i - 1]));
    }
    assert(s@.subrange(0, s@.len() as int) =~= s@);
}

/// Whether two byte strings are equal.
pub fn bytes_equal(a: &[u8], b: &[u8]) -> (r: bool)
    ensures
        r == (a@ == b@),
{
    if a.len() != b.len() {
        return false;
    }
    let mut i: usize = 0;
    while i < a.len()
        invariant
            i <= a.len(),
            a.len() == b.len(),
            forall|j: int| 0 <= j < i ==> a@[j] == b@[j],
        decreases a.len() - i,
    {
        if a[i] != b[i] {
            return false;
        }
        i = i + 1;
    }
    assert(a@ =~= b@);
    true
}


/// `(a - b) mod m`, as a natural number.
pub open spec fn sub_mod(a: int, b: int, m: nat) -> nat {
    ((a - b) % (m as int)) as nat
}


/// The `n` little-endian base-256 digits of `k` (of `k mod 256^n`).
pub open spec fn le_encoding(k: nat, n: nat) -> Seq<u8>
    decreases n,
{
    if n == 0 {
        Seq::empty()
    } else {
        seq![(k % 256) as u8] + le_encoding(k / 256, (n - 1) as nat)
    }
}

/// Writing out the integer that a digit string denotes gives the string back.
pub proof fn lemma_le_encoding_roundtrip(b: Seq<u8>)
    ensures
        le_encoding(le_nat(b), b.len()) == b,
    decreases b.len(),
{
    if b.len() > 0 {
        let rest = le_nat(b.skip(1));
        vstd::arithmetic::div_mod::lemma_fundamental_div_mod_converse(
            le_nat(b) as int,
            256,
            rest as int,
            b[0] as int,
        );
        lemma_le_encoding_roundtrip(b.skip(1));
        assert(le_encoding(le_nat(b), b.len()) =~= b);
    } else {
        assert(le_encoding(le_nat(b), b.len()) =~= b);
    }
}


/// A string of zero digits denotes zero.
pub proof fn lemma_le_nat_zeros(s: Seq<u8>)
    requires
        forall|i: int| 0 <= i < s.len() ==> s[i] == 0,
    ensures
        le_nat(s) == 0,
    decreases s.len(),
{
    if s.len() > 0 {
        lemma_le_nat_zeros(s.skip(1));
    }
}


/// Congruent summands give congruent sums.
pub proof fn lemma_cong_add(a: int, b: int, a2: int, b2: int, m: int)
    requires
        0 < m,
        a % m == a2 % m,
        b % m == b2 % m,
    ensures
        (a + b) % m == (a2 + b2) % m,
{
    vstd::arithmetic::div_mod::lemma_add_mod_noop(a, b, m);
    vstd::arithmetic::div_mod::lemma_add_mod_noop(a2, b2, m);
}

/// Congruent factors give congruent products.
pub proof fn lemma_cong_mul(a: int, b: int, a2: int, b2: int, m: int)
    requires
        0 < m,
        a % m == a2 % m,
        b % m == b2 % m,
    ensures
        (a * b) % m == (a2 * b2) % m,
{
    vstd::arithmetic::div_mod::lemma_mul_mod_noop(a, b, m);
    vstd::arithmetic::div_mod::lemma_mul_mod_noop(a2, b2, m);
}

/// A remainder is congruent to the number it is taken of.
pub proof fn lemma_mod_cong(x: int, m: int)
    requires
        0 < m,
    ensures
        (x % m) % m == x % m,
{
    vstd::arithmetic::div_mod::lemma_mod_twice(x, m);
}

/// Subtracting `a` from `a + k` modulo `m` gives `k` back.
pub proof fn lemma_sub_mod_add_cancel(a: nat, k: nat, m: nat)
    requires
        a < m,
        k < m,
    ensures
        sub_mod(((a + k) % m) as int, a as int, m) == k,
{
    let mi = m as int;
    vstd::arithmetic::div_mod::lemma_sub_mod_noop((a + k) as int, a as int, mi);
    vstd::arithmetic::div_mod::lemma_small_mod(a, m);
    vstd::arithmetic::div_mod::lemma_small_mod(k, m);
    vstd::arithmetic::div_mod::lemma_mod_twice((a + k) as int, mi);
}


/// The reduced sum of numbers congruent to `x2` and `y2` is congruent to
/// `x2 + y2`.
pub proof fn lemma_add_mod_cong(x: int, y: int, x2: int, y2: int, m: int)
    requires
        0 < m,
        x % m == x2 % m,
        y % m == y2 % m,
    ensures
        ((x + y) % m) % m == (x2 + y2) % m,
{
    lemma_cong_add(x, y, x2, y2, m);
    vstd::arithmetic::div_mod::lemma_mod_twice(x + y, m);
}


/// `sub_mod` only depends on the residue of its first argument.
pub proof fn lemma_sub_mod_cong(a: int, a2: int, b: int, m: nat)
    requires
        0 < m,
        a % (m as int) == a2 % (m as int),
    ensures
        sub_mod(a, b, m) == sub_mod(a2, b, m),
{
    lemma_cong_add(a, -b, a2, -b, m as int);
}

/// A factor with an inverse modulo `m` can be cancelled from a congruence.
pub proof fn lemma_cancel_factor(x: int, y: int, f: int, f_inverse: int, m: int)
    requires
        0 < m,
        (f * f_inverse) % m == 1,
        (x * f) % m == (y * f) % m,
    ensures
        x % m == y % m,
{
    vstd::arithmetic::div_mod::lemma_mod_twice(f_inverse, m);
    lemma_cong_mul(x * f, f_inverse, y * f, f_inverse, m);
    assert(x * f * f_inverse == x * (f * f_inverse)) by (nonlinear_arith);
    assert(y * f * f_inverse == y * (f * f_inverse)) by (nonlinear_arith);
    vstd::arithmetic::div_mod::lemma_mod_twice(x, m);
    vstd::arithmetic::div_mod::lemma_mod_twice(y, m);
    vstd::arithmetic::div_mod::lemma_small_mod(1, m as nat);
    lemma_cong_mul(x, f * f_inverse, x, 1, m);
    lemma_cong_mul(y, f * f_inverse, y, 1, m);
}

/// Transcripts with one prefix and different suffixes are different.
pub proof fn lemma_suffix_distinct(prefix: Seq<u8>, a: Seq<u8>, b: Seq<u8>)
    requires
        a != b,
    ensures
        prefix + a != prefix + b,
{
    if prefix + a == prefix + b {
        assert((prefix + a).subrange(prefix.len() as int, (prefix + a).len() as int) =~= a);
        assert((prefix + b).subrange(prefix.len() as int, (prefix + b).len() as int) =~= b);
    }
}

} // verus!
