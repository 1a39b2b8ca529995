use vstd::prelude::*;

verus! {

/// The word with only bit `p` set.
pub open spec fn single(p: u32) -> u64 {
    1u64 << (p as u64)
}

/// Adding bit `q` to `m` sets bit `p` exactly when it was set or `p == q`.
pub proof fn lemma_or_single_test(m: u64, p: u32, q: u32)
    requires
        p < 64,
        q < 64,
    ensures
        ((m | single(q)) & single(p) != 0) == ((m & single(p) != 0) || p == q),
{
    let (pp, qq) = (p as u64, q as u64);
    assert(((m | (1u64 << qq)) & (1u64 << pp) != 0) == ((m & (1u64 << pp) != 0) || pp == qq))
        by (bit_vector)
        requires
            pp < 64,
            qq < 64,
    ;
}

/// Masking `b` with `m` plus bit `p` adds bit `p` when `b` has it.
pub proof fn lemma_and_or_single(b: u64, m: u64, p: u32)
    requires
        p < 64,
    ensures
        b & single(p) != 0 ==> b & (m | single(p)) == (b & m) | single(p),
        b & single(p) == 0 ==> b & (m | single(p)) == b & m,
{
    let pp = p as u64;
    assert(b & (1u64 << pp) != 0 ==> b & (m | (1u64 << pp)) == (b & m) | (1u64 << pp))
        by (bit_vector)
        requires
            pp < 64,
    ;
    assert(b & (1u64 << pp) == 0 ==> b & (m | (1u64 << pp)) == b & m) by (bit_vector)
        requires
            pp < 64,
    ;
}

/// A sub-mask stays a sub-mask when both sides gain bit `p`.
pub proof fn lemma_submask_or_single(e: u64, m: u64, p: u32)
    requires
        p < 64,
        e & !m == 0,
    ensures
        (e | single(p)) & !(m | single(p)) == 0,
        e & !(m | single(p)) == 0,
{
    let pp = p as u64;
    assert((e | (1u64 << pp)) & !(m | (1u64 << pp)) == 0 && e & !(m | (1u64 << pp)) == 0)
        by (bit_vector)
        requires
            pp < 64,
            e & !m == 0,
    ;
}

/// Bits below `w` stay below `w` when bit `q < w` is added.
pub proof fn lemma_or_single_below(m: u64, q: u32, w: u32)
    requires
        q < w,
        w < 64,
        m >> (w as u64) == 0,
    ensures
        (m | single(q)) >> (w as u64) == 0,
{
    let (qq, ww) = (q as u64, w as u64);
    assert((m | (1u64 << qq)) >> ww == 0) by (bit_vector)
        requires
            qq < ww,
            ww < 64,
            m >> ww == 0,
    ;
}

/// The empty word against anything.
pub proof fn lemma_zero(b: u64, w: u32)
    requires
        w < 64,
    ensures
        b & 0 == 0,
        0u64 & b == 0,
        0u64 & !0u64 == 0,
        0u64 >> (w as u64) == 0,
{
    let ww = w as u64;
    assert(b & 0 == 0 && 0u64 & b == 0 && 0u64 & !0u64 == 0 && 0u64 >> ww == 0) by (bit_vector);
}

/// Splitting `b` into its part inside `k` and the rest loses nothing.
pub proof fn lemma_split(b: u64, k: u64)
    ensures
        (b & k) | (b & !k) == b,
{
    assert((b & k) | (b & !k) == b) by (bit_vector);
}

/// A word inside `k` joined with one outside `k`, masked outside `k`.
pub proof fn lemma_outside_part(a: u64, e: u64, k: u64)
    requires
        a & !k == 0,
        e & k == 0,
    ensures
        (a | e) & !k == e,
{
    assert((a | e) & !k == e) by (bit_vector)
        requires
            a & !k == 0,
            e & k == 0,
    ;
}

/// A word outside `k` has no bit that `k` has.
pub proof fn lemma_outside_no_bit(e: u64, k: u64, p: u32)
    requires
        p < 64,
        e & k == 0,
        k & single(p) != 0,
    ensures
        e & single(p) == 0,
        (k & single(p)) == single(p),
{
    let pp = p as u64;
    assert(e & (1u64 << pp) == 0 && (k & (1u64 << pp)) == (1u64 << pp)) by (bit_vector)
        requires
            pp < 64,
            e & k == 0,
            k & (1u64 << pp) != 0,
    ;
}

/// Bit `p` of a join is set exactly when one of the two words has it.
pub proof fn lemma_or_own_bit(a: u64, e: u64, p: u32)
    requires
        p < 64,
    ensures
        (a | e) & single(p) != 0 <==> (a & single(p) != 0 || e & single(p) != 0),
{
    let pp = p as u64;
    assert((a | e) & (1u64 << pp) != 0 <==> (a & (1u64 << pp) != 0 || e & (1u64 << pp) != 0))
        by (bit_vector)
        requires
            pp < 64,
    ;
}

/// A word with no bit at or above `w` has no bit `p >= w`; the same holds for
/// any part of it, and for two such words joined.
pub proof fn lemma_below_width(b: u64, k: u64, e: u64, w: u32, p: u32)
    requires
        w < 64,
        p < 64,
        b >> (w as u64) == 0,
    ensures
        p >= w ==> b & single(p) == 0,
        (b & k) >> (w as u64) == 0,
        e >> (w as u64) == 0 ==> (b | e) >> (w as u64) == 0,
{
    let (pp, ww) = (p as u64, w as u64);
    assert((pp >= ww ==> b & (1u64 << pp) == 0) && (b & k) >> ww == 0 && (e >> ww == 0 ==> (b
        | e) >> ww == 0)) by (bit_vector)
        requires
            ww < 64,
            pp < 64,
            b >> ww == 0,
    ;
}

} // verus!
