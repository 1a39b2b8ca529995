//! The settings codec: a set of named capabilities and the fixed-width integer
//! that carries it on the wire, one bit per capability.
use vstd::prelude::*;
use crate::codec_bits::{
    single, lemma_or_single_test, lemma_and_or_single, lemma_submask_or_single,
    lemma_or_single_below, lemma_split, lemma_outside_part, lemma_outside_no_bit, lemma_or_own_bit,
    lemma_below_width, lemma_zero,
};

verus! {

/// A capability universe: the bit position of each capability, in the
/// universe's fixed order, and the width of the target integer.
#[derive(Debug, Clone)]
pub struct Universe {
    pub width: u32,
    pub positions: Vec<u32>,
}

/// A set of capabilities of one universe: `enabled[i]` tells whether the
/// capability at index `i` is on; `extra` keeps the wire bits that no
/// capability of the universe claims.
#[derive(Debug, Clone)]
pub struct FlagSet {
    pub enabled: Vec<bool>,
    pub extra: u64,
}

/// The one failure of the codec.
#[derive(PartialEq, Eq, Structural, Debug, Clone, Copy)]
pub enum CodecError {
    /// A bit would lie at or beyond the width of the target integer.
    EncodingOverflow,
}

/// Index of the pallet's collection capability "transferable items".
pub const TRANSFERABLE_ITEMS: usize = 0;
/// Index of the pallet's collection capability "unlocked metadata".
pub const UNLOCKED_METADATA: usize = 1;
/// Index of the pallet's collection capability "unlocked attributes".
pub const UNLOCKED_ATTRIBUTES: usize = 2;
/// Index of the pallet's collection capability "unlocked max supply".
pub const UNLOCKED_MAX_SUPPLY: usize = 3;
/// Index of the pallet's collection capability "deposit required".
pub const DEPOSIT_REQUIRED: usize = 4;

/// Index of the pallet's item capability "transferable".
pub const ITEM_TRANSFERABLE: usize = 0;
/// Index of the pallet's item capability "unlocked metadata".
pub const ITEM_UNLOCKED_METADATA: usize = 1;
/// Index of the pallet's item capability "unlocked attributes".
pub const ITEM_UNLOCKED_ATTRIBUTES: usize = 2;

/// The mask of the positions of the first `n` capabilities.
pub open spec fn known_mask(ps: Seq<u32>, n: nat) -> u64
    decreases n,
{
    if n == 0 {
        0
    } else {
        known_mask(ps, (n - 1) as nat) | single(ps[n - 1])
    }
}

/// The mask of the positions of those of the first `n` capabilities that are on.
pub open spec fn enabled_mask(en: Seq<bool>, ps: Seq<u32>, n: nat) -> u64
    decreases n,
{
    if n == 0 {
        0
    } else if en[n - 1] {
        enabled_mask(en, ps, (n - 1) as nat) | single(ps[n - 1])
    } else {
        enabled_mask(en, ps, (n - 1) as nat)
    }
}

/// `bits` has a bit at or beyond the width of the universe's integer.
pub open spec fn too_wide(bits: u64, u: Universe) -> bool {
    u.width < 64 && bits >> (u.width as u64) != 0
}

impl Universe {
    /// At most 64 bits wide; each position is below 64 and held by one capability.
    pub open spec fn wf(&self) -> bool {
        &&& self.width <= 64
        &&& forall|i: int| 0 <= i < self.positions@.len() ==> self.positions@[i] < 64
        &&& forall|i: int, j: int|
            0 <= i < self.positions@.len() && 0 <= j < self.positions@.len() && i != j
                ==> self.positions@[i] != self.positions@[j]
    }

    /// The bits that some capability of the universe claims.
    pub open spec fn mask(&self) -> u64 {
        known_mask(self.positions@, self.positions@.len())
    }

    /// The pallet's collection capabilities, in a 64-bit integer.
    pub fn collection_settings() -> (u: Universe)
        ensures
            u.wf(),
            u.width == 64,
            u.positions@ == seq![0u32, 1, 2, 3, 4],
    {
        let u = Universe { width: 64, positions: vec![0u32, 1, 2, 3, 4] };
        assert(u.positions@ == seq![0u32, 1, 2, 3, 4]);
        u
    }

    /// The pallet's item capabilities, in a 64-bit integer.
    pub fn item_settings() -> (u: Universe)
        ensures
            u.wf(),
            u.width == 64,
            u.positions@ == seq![0u32, 1, 2],
    {
        let u = Universe { width: 64, positions: vec![0u32, 1, 2] };
        assert(u.positions@ == seq![0u32, 1, 2]);
        u
    }
}

impl FlagSet {
    /// The set holds one entry per capability of `u`.
    pub open spec fn fits(&self, u: Universe) -> bool {
        self.enabled@.len() == u.positions@.len()
    }

    /// The set with every capability of `u` off and no extra bits.
    pub fn none_of(u: &Universe) -> (f: FlagSet)
        ensures
            f.fits(*u),
            forall|i: int| 0 <= i < f.enabled@.len() ==> !f.enabled@[i],
            f.extra == 0,
    {
        let mut enabled: Vec<bool> = Vec::new();
        let n = u.positions.len();
        let mut i: usize = 0;
        while i < n
            invariant
                i <= n,
                n == u.positions@.len(),
                enabled@.len() == i,
                forall|j: int| 0 <= j < i ==> !enabled@[j],
            decreases n - i,
        {
            enabled.push(false);
            i += 1;
        }
        FlagSet { enabled, extra: 0 }
    }

    /// The set with every capability of `u` on and no extra bits.
    pub fn all_of(u: &Universe) -> (f: FlagSet)
        ensures
            f.fits(*u),
            forall|i: int| 0 <= i < f.enabled@.len() ==> f.enabled@[i],
            f.extra == 0,
    {
        let mut enabled: Vec<bool> = Vec::new();
        let n = u.positions.len();
        let mut i: usize = 0;
        while i < n
            invariant
                i <= n,
                n == u.positions@.len(),
                enabled@.len() == i,
                forall|j: int| 0 <= j < i ==> enabled@[j],
            decreases n - i,
        {
            enabled.push(true);
            i += 1;
        }
        FlagSet { enabled, extra: 0 }
    }

    /// Turns the capability at `index` on or off; nothing else changes.
    pub fn set(&mut self, index: usize, on: bool)
        requires
            index < old(self).enabled@.len(),
        ensures
            final(self).enabled@ == old(self).enabled@.update(index as int, on),
            final(self).extra == old(self).extra,
    {
        self.enabled.set(index, on);
    }
}

/// Encoding `f` would put a bit at or beyond the width of `u`'s integer.
pub open spec fn overflows(f: FlagSet, u: Universe) -> bool {
    ||| exists|i: int|
        0 <= i < f.enabled@.len() && #[trigger] f.enabled@[i] && u.positions@[i] >= u.width
    ||| too_wide(f.extra, u)
}

/// What encoding `f` in `u` gives: the bit of each capability that is on,
/// together with the extra bits, unless a bit would not fit.
pub open spec fn encoding(f: FlagSet, u: Universe) -> Result<u64, CodecError> {
    if overflows(f, u) {
        Err(CodecError::EncodingOverflow)
    } else {
        Ok(enabled_mask(f.enabled@, u.positions@, u.positions@.len()) | f.extra)
    }
}

/// `f` is what decoding `bits` in `u` gives: each capability is on exactly
/// when its bit is set, and the bits that no capability claims are kept.
pub open spec fn decodes_to(bits: u64, u: Universe, f: FlagSet) -> bool {
    &&& f.fits(u)
    &&& forall|i: int|
        0 <= i < f.enabled@.len() ==> #[trigger] f.enabled@[i] == (bits & single(
            u.positions@[i],
        ) != 0)
    &&& f.extra == bits & !u.mask()
}

/// Encodes `f` as the integer of universe `u`.
pub fn encode(f: &FlagSet, u: &Universe) -> (r: Result<u64, CodecError>)
    requires
        u.wf(),
        f.fits(*u),
    ensures
        r == encoding(*f, *u),
        r matches Ok(bits) ==> !too_wide(bits, *u),
{
    proof {
        lemma_encoding_fits(*f, *u);
    }
    let n = u.positions.len();
    let mut acc: u64 = 0;
    let mut i: usize = 0;
    while i < n
        invariant
            u.wf(),
            f.fits(*u),
            n == u.positions@.len(),
            i <= n,
            acc == enabled_mask(f.enabled@, u.positions@, i as nat),
            forall|j: int| 0 <= j < i && #[trigger] f.enabled@[j] ==> u.positions@[j] < u.width,
        decreases n - i,
    {
        if f.enabled[i] {
            let p = u.positions[i];
            if p >= u.width {
                return Err(CodecError::EncodingOverflow);
            }
            acc = acc | (1u64 << (p as u64));
        }
        i += 1;
    }
    if u.width < 64 && (f.extra >> (u.width as u64)) != 0 {
        return Err(CodecError::EncodingOverflow);
    }
    Ok(acc | f.extra)
}

/// Decodes `bits` in universe `u`; bits that no capability claims are kept.
pub fn decode(bits: u64, u: &Universe) -> (r: Result<FlagSet, CodecError>)
    requires
        u.wf(),
    ensures
        r is Err <==> too_wide(bits, *u),
        r matches Ok(f) ==> decodes_to(bits, *u, f),
{
    if u.width < 64 && (bits >> (u.width as u64)) != 0 {
        return Err(CodecError::EncodingOverflow);
    }
    let n = u.positions.len();
    let mut enabled: Vec<bool> = Vec::new();
    let mut known: u64 = 0;
    let mut i: usize = 0;
    while i < n
        invariant
            u.wf(),
            n == u.positions@.len(),
            i <= n,
            enabled@.len() == i,
            known == known_mask(u.positions@, i as nat),
            forall|j: int|
                0 <= j < i ==> #[trigger] enabled@[j] == (bits & single(u.positions@[j]) != 0),
        decreases n - i,
    {
        let bit = 1u64 << (u.positions[i] as u64);
        enabled.push(bits & bit != 0);
        known = known | bit;
        i += 1;
    }
    Ok(FlagSet { enabled, extra: bits & !known })
}

/// Bit `ps[k]` is in the enabled mask of the first `n` capabilities exactly
/// when `k < n` and capability `k` is on.
proof fn lemma_enabled_bit(en: Seq<bool>, ps: Seq<u32>, n: nat, k: int)
    requires
        n <= ps.len(),
        n <= en.len(),
        0 <= k < ps.len(),
        forall|i: int| 0 <= i < ps.len() ==> ps[i] < 64,
        forall|i: int, j: int| 0 <= i < ps.len() && 0 <= j < ps.len() && i != j ==> ps[i] != ps[j],
    ensures
        (enabled_mask(en, ps, n) & single(ps[k]) != 0) == (k < n && en[k]),
    decreases n,
{
    if n == 0 {
        lemma_zero(single(ps[k]), 0);
    } else {
        lemma_enabled_bit(en, ps, (n - 1) as nat, k);
        if en[n - 1] {
            lemma_or_single_test(enabled_mask(en, ps, (n - 1) as nat), ps[k], ps[n - 1]);
        }
    }
}

/// Bit `ps[k]` is in the mask of the first `n` positions exactly when `k < n`.
proof fn lemma_known_bit(ps: Seq<u32>, n: nat, k: int)
    requires
        n <= ps.len(),
        0 <= k < ps.len(),
        forall|i: int| 0 <= i < ps.len() ==> ps[i] < 64,
        forall|i: int, j: int| 0 <= i < ps.len() && 0 <= j < ps.len() && i != j ==> ps[i] != ps[j],
    ensures
        (known_mask(ps, n) & single(ps[k]) != 0) == (k < n),
    decreases n,
{
    if n == 0 {
        lemma_zero(single(ps[k]), 0);
    } else {
        lemma_known_bit(ps, (n - 1) as nat, k);
        lemma_or_single_test(known_mask(ps, (n - 1) as nat), ps[k], ps[n - 1]);
    }
}

/// The enabled mask lies inside the mask of all positions.
proof fn lemma_enabled_within_known(en: Seq<bool>, ps: Seq<u32>, n: nat)
    requires
        n <= ps.len(),
        n <= en.len(),
        forall|i: int| 0 <= i < ps.len() ==> ps[i] < 64,
    ensures
        enabled_mask(en, ps, n) & !known_mask(ps, n) == 0,
    decreases n,
{
    if n == 0 {
        lemma_zero(0, 0);
    } else {
        lemma_enabled_within_known(en, ps, (n - 1) as nat);
        lemma_submask_or_single(
            enabled_mask(en, ps, (n - 1) as nat),
            known_mask(ps, (n - 1) as nat),
            ps[n - 1],
        );
    }
}

/// Where every capability that is on lies below `w`, so does the enabled mask.
proof fn lemma_enabled_below(en: Seq<bool>, ps: Seq<u32>, n: nat, w: u32)
    requires
        n <= ps.len(),
        n <= en.len(),
        w < 64,
        forall|i: int| 0 <= i < n && #[trigger] en[i] ==> ps[i] < w,
    ensures
        enabled_mask(en, ps, n) >> (w as u64) == 0,
    decreases n,
{
    if n == 0 {
        lemma_zero(0, w);
    } else {
        lemma_enabled_below(en, ps, (n - 1) as nat, w);
        if en[n - 1] {
            lemma_or_single_below(enabled_mask(en, ps, (n - 1) as nat), ps[n - 1], w);
        }
    }
}

/// Where each capability is on exactly when its bit is in `bits`, the enabled
/// mask is `bits` restricted to the positions.
proof fn lemma_mask_of_decoded(bits: u64, en: Seq<bool>, ps: Seq<u32>, n: nat)
    requires
        n <= ps.len(),
        n <= en.len(),
        forall|i: int| 0 <= i < ps.len() ==> ps[i] < 64,
        forall|i: int| 0 <= i < n ==> #[trigger] en[i] == (bits & single(ps[i]) != 0),
    ensures
        enabled_mask(en, ps, n) == bits & known_mask(ps, n),
    decreases n,
{
    if n == 0 {
        lemma_zero(bits, 0);
    } else {
        lemma_mask_of_decoded(bits, en, ps, (n - 1) as nat);
        lemma_and_or_single(bits, known_mask(ps, (n - 1) as nat), ps[n - 1]);
    }
}

/// Encoding a set and decoding the result gives the same set back: the same
/// capabilities on and the same extra bits, whenever the extra bits are ones
/// that no capability claims and the encoding succeeds.
pub proof fn lemma_round_trip(f: FlagSet, u: Universe)
    requires
        u.wf(),
        f.fits(u),
        f.extra & u.mask() == 0,
    ensures
        encoding(f, u) matches Ok(bits) ==> !too_wide(bits, u) && decodes_to(bits, u, f),
{
    if !overflows(f, u) {
        let ps = u.positions@;
        let en = f.enabled@;
        let n = ps.len();
        let em = enabled_mask(en, ps, n);
        let bits = em | f.extra;
        assert forall|i: int| 0 <= i < en.len() implies #[trigger] en[i] == (bits & single(
            ps[i],
        ) != 0) by {
            lemma_enabled_bit(en, ps, n, i);
            lemma_known_bit(ps, n, i);
            lemma_outside_no_bit(f.extra, u.mask(), ps[i]);
            lemma_or_own_bit(em, f.extra, ps[i]);
        }
        lemma_enabled_within_known(en, ps, n);
        lemma_outside_part(em, f.extra, u.mask());
        lemma_encoding_fits(f, u);
    }
}

/// A successful encoding has no bit at or beyond the width of the integer.
pub proof fn lemma_encoding_fits(f: FlagSet, u: Universe)
    requires
        u.wf(),
        f.fits(u),
    ensures
        encoding(f, u) matches Ok(bits) ==> !too_wide(bits, u),
{
    if !overflows(f, u) && u.width < 64 {
        let ps = u.positions@;
        let en = f.enabled@;
        assert forall|i: int| 0 <= i < ps.len() && #[trigger] en[i] implies ps[i] < u.width by {
            if ps[i] >= u.width {
                assert(overflows(f, u));
            }
        }
        lemma_enabled_below(en, ps, ps.len(), u.width);
        lemma_below_width(enabled_mask(en, ps, ps.len()), 0, f.extra, u.width, 0);
    }
}

/// Decoding an integer and encoding the result unchanged gives the same
/// integer back, bits that no capability claims included.
pub proof fn lemma_unknown_bits_kept(bits: u64, u: Universe, f: FlagSet)
    requires
        u.wf(),
        !too_wide(bits, u),
        decodes_to(bits, u, f),
    ensures
        encoding(f, u) == Ok::<u64, CodecError>(bits),
{
    let ps = u.positions@;
    let en = f.enabled@;
    let n = ps.len();
    if u.width < 64 {
        assert forall|i: int| 0 <= i < en.len() && #[trigger] en[i] implies ps[i] < u.width by {
            lemma_below_width(bits, 0, 0, u.width, ps[i]);
        }
        lemma_below_width(bits, !u.mask(), 0, u.width, 0);
    }
    assert(!overflows(f, u));
    lemma_mask_of_decoded(bits, en, ps, n);
    lemma_split(bits, u.mask());
}

} // verus!
