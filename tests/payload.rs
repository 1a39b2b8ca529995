use nft_extrinsics::codec::{FlagSet, Universe, TRANSFERABLE_ITEMS, UNLOCKED_METADATA};
use nft_extrinsics::nfts::{
    create_collection_payload, create_method, lock_collection_method, lock_collection_payload,
    to_lock_settings,
};
use nft_extrinsics::payload::{
    build, encode_config, Arg, BuildError, CollectionConfig, MethodSchema, MintPolicy, MintType,
    ParamType, Schema, WireArg, WireConfig, WireMintPolicy,
};

fn schema(version: u32) -> Schema {
    Schema { version, methods: vec![create_method(), lock_collection_method()] }
}

fn tiered_config() -> CollectionConfig {
    let cu = Universe::collection_settings();
    let mut settings = FlagSet::none_of(&cu);
    settings.set(TRANSFERABLE_ITEMS, true);
    settings.set(UNLOCKED_METADATA, true);
    CollectionConfig {
        settings,
        max_supply: None,
        mint_policy: MintPolicy {
            mint_type: MintType::Tiered { holder_of: 1, min_balance: 1 },
            price: Some(100),
            start_block: None,
            end_block: Some(100),
            default_item_settings: FlagSet::all_of(&Universe::item_settings()),
        },
    }
}

#[test]
fn create_payload_carries_encoded_config() {
    let admin = [7u8; 32];
    let p = create_collection_payload(&schema(5), 5, admin, tiered_config()).unwrap();
    assert_eq!(p.version, 5);
    assert_eq!(p.pallet, "Nfts");
    assert_eq!(p.method, "create");
    assert_eq!(
        p.args,
        vec![
            WireArg::Account(admin),
            WireArg::Config(WireConfig {
                settings: 0b11,
                max_supply: None,
                mint_policy: WireMintPolicy {
                    mint_type: MintType::Tiered { holder_of: 1, min_balance: 1 },
                    price: Some(100),
                    start_block: None,
                    end_block: Some(100),
                    default_item_settings: 0b111,
                },
            }),
        ]
    );
}

#[test]
fn lock_collection_payload_encodes_settings() {
    let all = FlagSet::all_of(&Universe::collection_settings());
    let p = lock_collection_payload(&schema(1), 1, 0, all).unwrap();
    assert_eq!(p.method, "lock_collection");
    assert_eq!(p.args, vec![WireArg::U32(0), WireArg::Flags(0b11111)]);
}

#[test]
fn lock_settings_of_collection_capabilities() {
    let mut f = FlagSet::none_of(&Universe::collection_settings());
    assert_eq!(to_lock_settings(&f), Ok(0));
    f.set(UNLOCKED_METADATA, true);
    assert_eq!(to_lock_settings(&f), Ok(0b10));
    let short = FlagSet { enabled: vec![true], extra: 0 };
    assert_eq!(to_lock_settings(&short), Err(BuildError::ArgumentEncodingError));
}

#[test]
fn absent_method_is_schema_mismatch() {
    let args = vec![Arg::U32(3)];
    let r = build(&schema(1), 1, &"Nfts".to_string(), &"burn".to_string(), &args);
    assert!(matches!(r, Err(BuildError::SchemaMismatch)));
    let r = build(&schema(1), 1, &"Assets".to_string(), &"create".to_string(), &args);
    assert!(matches!(r, Err(BuildError::SchemaMismatch)));
    let empty = Schema { version: 1, methods: vec![] };
    let r = build(&empty, 1, &"Nfts".to_string(), &"create".to_string(), &args);
    assert!(matches!(r, Err(BuildError::SchemaMismatch)));
}

#[test]
fn wrong_arity_or_kind_is_schema_mismatch() {
    let one = vec![Arg::U32(0)];
    let r = build(&schema(1), 1, &"Nfts".to_string(), &"lock_collection".to_string(), &one);
    assert!(matches!(r, Err(BuildError::SchemaMismatch)));
    let swapped = vec![Arg::U128(0), Arg::U32(0)];
    let r = build(&schema(1), 1, &"Nfts".to_string(), &"lock_collection".to_string(), &swapped);
    assert!(matches!(r, Err(BuildError::SchemaMismatch)));
}

#[test]
fn stale_schema_is_rejected() {
    let r = create_collection_payload(&schema(4), 5, [0u8; 32], tiered_config());
    assert!(matches!(r, Err(BuildError::StaleSchema)));
}

#[test]
fn flag_set_of_wrong_size_is_argument_error() {
    let short = FlagSet { enabled: vec![true, false], extra: 0 };
    let r = lock_collection_payload(&schema(1), 1, 0, short);
    assert!(matches!(r, Err(BuildError::ArgumentEncodingError)));
}

#[test]
fn overflowing_flags_surface_as_encoding_overflow() {
    let narrow = Universe { width: 4, positions: vec![0, 5] };
    let m = MethodSchema {
        pallet: "Nfts".to_string(),
        method: "set_flags".to_string(),
        params: vec![ParamType::Flags(narrow)],
    };
    let s = Schema { version: 1, methods: vec![m] };
    let f = FlagSet { enabled: vec![false, true], extra: 0 };
    let r = build(&s, 1, &"Nfts".to_string(), &"set_flags".to_string(), &vec![Arg::Flags(f)]);
    assert!(matches!(r, Err(BuildError::EncodingOverflow)));
    let g = FlagSet { enabled: vec![true, false], extra: 0 };
    let p = build(&s, 1, &"Nfts".to_string(), &"set_flags".to_string(), &vec![Arg::Flags(g)]);
    assert_eq!(p.unwrap().args, vec![WireArg::Flags(1)]);
}

#[test]
fn malformed_universe_is_schema_mismatch() {
    let twice = Universe { width: 8, positions: vec![1, 1] };
    let cfg = tiered_config();
    let r = encode_config(&cfg, &twice, &Universe::item_settings());
    assert_eq!(r, Err(BuildError::SchemaMismatch));
    assert!(!twice.check());
    assert!(Universe::collection_settings().check());
    assert!(!Universe { width: 65, positions: vec![] }.check());
}

#[test]
fn first_failing_argument_decides_the_error() {
    let m = MethodSchema {
        pallet: "Nfts".to_string(),
        method: "pair".to_string(),
        params: vec![
            ParamType::Flags(Universe::item_settings()),
            ParamType::Account,
        ],
    };
    let s = Schema { version: 2, methods: vec![m] };
    let short = FlagSet { enabled: vec![true], extra: 0 };
    let args = vec![Arg::Flags(short), Arg::U32(1)];
    let r = build(&s, 2, &"Nfts".to_string(), &"pair".to_string(), &args);
    assert!(matches!(r, Err(BuildError::ArgumentEncodingError)));
}
