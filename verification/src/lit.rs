use vstd::prelude::*;

use vstd::arithmetic::div_mod::{
    lemma_fundamental_div_mod, lemma_mod_multiples_vanish, lemma_small_mod,
};

verus! {

/// The low sixteen bits of an integer: its remainder modulo 2^16.
pub open spec fn trunc16(n: int) -> u16 {
    (n % 0x10000) as u16
}

/// The signed reading of a 16-bit two's-complement pattern.
pub open spec fn as_i16(bits: u16) -> int {
    if bits < 0x8000 {
        bits as int
    } else {
        bits - 0x10000
    }
}

/// The bit pattern of a single-precision float with its sign flipped.
pub open spec fn f32_neg_bits(bits: u32) -> u32 {
    bits ^ 0x8000_0000
}

/// Truncates a source integer literal to the 16 bits the target keeps.
pub fn trunc16_exec(n: i64) -> (r: u16)
    ensures
        r == trunc16(n as int),
{
    if n >= 0 {
        ((n as u64) % 0x10000) as u16
    } else {
        // For n < 0, read the remainder off the magnitude of n + 1, which is
        // representable even at the smallest i64.
        let k: u64 = (-(n + 1)) as u64;
        let r0: u64 = k % 0x10000;
        let r: u64 = 0xFFFF - r0;
        proof {
            lemma_trunc16_neg(n as int, k as int, r0 as int);
        }
        r as u16
    }
}

proof fn lemma_trunc16_neg(n: int, k: int, r0: int)
    requires
        n < 0,
        k == -(n + 1),
        r0 == k % 0x10000,
    ensures
        0xFFFF - r0 == n % 0x10000,
{
    let m = 0x10000int;
    let q = k / m;
    lemma_fundamental_div_mod(k, m);
    assert(k == m * q + r0);
    assert(0 <= r0 < m);
    // n == -k - 1 == m * (-q - 1) + (m - 1 - r0)
    assert(n == m * (-q - 1) + (m - 1 - r0)) by (nonlinear_arith)
        requires
            k == m * q + r0,
            n == -k - 1,
            m == 0x10000,
    ;
    lemma_mod_multiples_vanish(-q - 1, m - 1 - r0, m);
    lemma_small_mod((m - 1 - r0) as nat, m as nat);
}

/// Truncates the mathematical negation of a source integer literal, as
/// constant-folded literal negation requires; the literal itself need not be
/// negatable within its own width.
pub fn trunc16_neg_exec(n: i64) -> (r: u16)
    ensures
        r == trunc16(-(n as int)),
{
    let t = trunc16_exec(n);
    proof {
        lemma_trunc16_negation(n as int);
    }
    if t == 0 {
        0
    } else {
        (0x10000u32 - t as u32) as u16
    }
}

proof fn lemma_trunc16_negation(n: int)
    ensures
        trunc16(-n) == if trunc16(n) == 0 {
            0u16
        } else {
            (0x10000 - trunc16(n)) as u16
        },
{
    let m = 0x10000int;
    let r = n % m;
    let q = n / m;
    lemma_fundamental_div_mod(n, m);
    if r == 0 {
        lemma_mod_multiples_vanish(-q, 0, m);
        lemma_small_mod(0, m as nat);
    } else {
        assert(-n == m * (-q - 1) + (m - r)) by (nonlinear_arith)
            requires
                n == m * q + r,
                m == 0x10000,
        ;
        lemma_mod_multiples_vanish(-q - 1, m - r, m);
        lemma_small_mod((m - r) as nat, m as nat);
    }
}

/// The truncation law of integer-literal lowering: a literal already within
/// the signed 16-bit range is kept exactly, and any other literal becomes its
/// remainder modulo 2^16, read back as two's complement.
pub proof fn lemma_int_literal_truncation(n: int)
    ensures
        trunc16(n) == n % 0x10000,
        -0x8000 <= n < 0x8000 ==> as_i16(trunc16(n)) == n,
        as_i16(trunc16(n)) % 0x10000 == n % 0x10000,
{
    let m = 0x10000int;
    let t = trunc16(n) as int;
    assert(t == n % m);
    if 0 <= n < 0x8000 {
        lemma_small_mod(n as nat, m as nat);
    }
    if -0x8000 <= n < 0 {
        lemma_mod_multiples_vanish(1, n, m);
        lemma_small_mod((n + m) as nat, m as nat);
    }
    // The pattern read back differs from the literal by a multiple of 2^16.
    lemma_small_mod(t as nat, m as nat);
    if t >= 0x8000 {
        lemma_mod_multiples_vanish(-1, t, m);
    }
}

} // verus!
