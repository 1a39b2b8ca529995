use nft_extrinsics::codec::{
    decode, encode, CodecError, FlagSet, Universe, DEPOSIT_REQUIRED, TRANSFERABLE_ITEMS,
    UNLOCKED_METADATA,
};

fn set_of(u: &Universe, on: &[usize], extra: u64) -> FlagSet {
    let mut f = FlagSet::none_of(u);
    for &i in on {
        f.set(i, true);
    }
    f.extra = extra;
    f
}

#[test]
fn round_trip_every_subset() {
    let u = Universe::collection_settings();
    let n = u.positions.len();
    for mask in 0u32..(1u32 << n) {
        let on: Vec<usize> = (0..n).filter(|i| mask & (1 << i) != 0).collect();
        let f = set_of(&u, &on, 0);
        let bits = encode(&f, &u).unwrap();
        assert_eq!(bits, mask as u64);
        let back = decode(bits, &u).unwrap();
        assert_eq!(back.enabled, f.enabled);
        assert_eq!(back.extra, 0);
    }
}

#[test]
fn round_trip_empty_and_full() {
    let u = Universe::item_settings();
    let empty = FlagSet::none_of(&u);
    assert_eq!(encode(&empty, &u), Ok(0));
    assert_eq!(decode(0, &u).unwrap().enabled, vec![false, false, false]);
    let full = FlagSet::all_of(&u);
    assert_eq!(encode(&full, &u), Ok(0b111));
    assert_eq!(decode(0b111, &u).unwrap().enabled, vec![true, true, true]);
}

#[test]
fn encode_uses_each_capability_position() {
    let u = Universe { width: 16, positions: vec![3, 0, 9] };
    let f = FlagSet { enabled: vec![true, false, true], extra: 0 };
    assert_eq!(encode(&f, &u), Ok((1 << 3) | (1 << 9)));
    let g = decode((1 << 0) | (1 << 9), &u).unwrap();
    assert_eq!(g.enabled, vec![false, true, true]);
    assert_eq!(g.extra, 0);
}

#[test]
fn unknown_bits_survive_decode_then_encode() {
    let u = Universe::collection_settings();
    let bits: u64 = 0b1000_0000_0101 | (1 << 63);
    let f = decode(bits, &u).unwrap();
    assert_eq!(f.enabled, vec![true, false, true, false, false]);
    assert_eq!(f.extra, 0b1000_0000_0000 | (1 << 63));
    assert_eq!(encode(&f, &u), Ok(bits));
}

#[test]
fn unknown_bits_kept_alongside_known_ones() {
    let u = Universe::collection_settings();
    let mut f = set_of(&u, &[TRANSFERABLE_ITEMS, DEPOSIT_REQUIRED], 1 << 40);
    assert_eq!(encode(&f, &u), Ok(1 | (1 << 4) | (1 << 40)));
    f.set(UNLOCKED_METADATA, true);
    let bits = encode(&f, &u).unwrap();
    assert_eq!(bits, 1 | 2 | (1 << 4) | (1 << 40));
    let back = decode(bits, &u).unwrap();
    assert_eq!(back.enabled, f.enabled);
    assert_eq!(back.extra, 1 << 40);
}

#[test]
fn encode_rejects_position_beyond_width() {
    let u = Universe { width: 8, positions: vec![0, 9] };
    let f = FlagSet { enabled: vec![false, true], extra: 0 };
    assert_eq!(encode(&f, &u), Err(CodecError::EncodingOverflow));
    let g = FlagSet { enabled: vec![true, false], extra: 0 };
    assert_eq!(encode(&g, &u), Ok(1));
}

#[test]
fn encode_rejects_extra_bits_beyond_width() {
    let u = Universe { width: 8, positions: vec![0, 1] };
    let f = FlagSet { enabled: vec![true, false], extra: 1 << 8 };
    assert_eq!(encode(&f, &u), Err(CodecError::EncodingOverflow));
    let g = FlagSet { enabled: vec![true, false], extra: 1 << 7 };
    assert_eq!(encode(&g, &u), Ok(1 | (1 << 7)));
}

#[test]
fn decode_rejects_pattern_wider_than_width() {
    let u = Universe { width: 8, positions: vec![0, 1] };
    assert!(matches!(decode(0x100, &u), Err(CodecError::EncodingOverflow)));
    assert_eq!(decode(0xff, &u).unwrap().extra, 0xfc);
}

#[test]
fn full_width_accepts_top_bit() {
    let u = Universe { width: 64, positions: vec![63] };
    let f = FlagSet { enabled: vec![true], extra: 0 };
    assert_eq!(encode(&f, &u), Ok(1 << 63));
    assert_eq!(decode(u64::MAX, &u).unwrap().extra, u64::MAX >> 1);
}
