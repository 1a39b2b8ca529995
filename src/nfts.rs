//! The NFT pallet's calls: their declarations and their payloads.
use vstd::prelude::*;
use crate::codec::{FlagSet, Universe};
use crate::payload::{
    Arg, BuildError, CallPayload, CollectionConfig, MethodSchema, ParamType, Schema, build, built,
    encode_flags, flag_bits,
};

verus! {

/// `u` is the pallet's universe of collection capabilities.
pub open spec fn is_collection_universe(u: Universe) -> bool {
    u.width == 64 && u.positions@ == seq![0u32, 1, 2, 3, 4]
}

/// `u` is the pallet's universe of item capabilities.
pub open spec fn is_item_universe(u: Universe) -> bool {
    u.width == 64 && u.positions@ == seq![0u32, 1, 2]
}

/// The lock settings of a collection: its capability set as the bits of the
/// pallet's collection universe.
pub fn to_lock_settings(settings: &FlagSet) -> (r: Result<u64, BuildError>)
    ensures
        forall|u: Universe| #[trigger] is_collection_universe(u) ==> r == flag_bits(*settings, u),
{
    let u = Universe::collection_settings();
    let r = encode_flags(settings, &u);
    assert forall|v: Universe| #[trigger] is_collection_universe(v) implies r == flag_bits(
        *settings,
        v,
    ) by {
        assert(v.positions@ == u.positions@);
    }
    r
}

/// The pallet's declaration of `create(admin, config)`.
pub fn create_method() -> (m: MethodSchema)
    ensures
        m.pallet@ == "Nfts"@,
        m.method@ == "create"@,
        m.params@.len() == 2,
        m.params@[0] is Account,
        m.params@[1] matches ParamType::Config { collection, item } && is_collection_universe(
            collection,
        ) && is_item_universe(item),
{
    let params = vec![
        ParamType::Account,
        ParamType::Config {
            collection: Universe::collection_settings(),
            item: Universe::item_settings(),
        },
    ];
    MethodSchema { pallet: "Nfts".to_owned(), method: "create".to_owned(), params }
}

/// The pallet's declaration of `lock_collection(collection, lock_settings)`.
pub fn lock_collection_method() -> (m: MethodSchema)
    ensures
        m.pallet@ == "Nfts"@,
        m.method@ == "lock_collection"@,
        m.params@.len() == 2,
        m.params@[0] is U32,
        m.params@[1] matches ParamType::Flags(u) && is_collection_universe(u),
{
    let params = vec![ParamType::U32, ParamType::Flags(Universe::collection_settings())];
    MethodSchema { pallet: "Nfts".to_owned(), method: "lock_collection".to_owned(), params }
}

/// The payload of `Nfts::create(admin, config)`, built against `schema`.
pub fn create_collection_payload(
    schema: &Schema,
    current: u32,
    admin: [u8; 32],
    config: CollectionConfig,
) -> (r: Result<CallPayload, BuildError>)
    ensures
        match built(
            *schema,
            current,
            "Nfts"@,
            "create"@,
            seq![Arg::Account(admin), Arg::Config(config)],
        ) {
            Ok(ws) => r matches Ok(p) && p.version == current && p.pallet@ == "Nfts"@
                && p.method@ == "create"@ && p.args@ == ws,
            Err(e) => r == Err::<CallPayload, BuildError>(e),
        },
{
    let args = vec![Arg::Account(admin), Arg::Config(config)];
    build(schema, current, &"Nfts".to_owned(), &"create".to_owned(), &args)
}

/// The payload of `Nfts::lock_collection(collection, settings)`, built
/// against `schema`.
pub fn lock_collection_payload(
    schema: &Schema,
    current: u32,
    collection: u32,
    settings: FlagSet,
) -> (r: Result<CallPayload, BuildError>)
    ensures
        match built(
            *schema,
            current,
            "Nfts"@,
            "lock_collection"@,
            seq![Arg::U32(collection), Arg::Flags(settings)],
        ) {
            Ok(ws) => r matches Ok(p) && p.version == current && p.pallet@ == "Nfts"@
                && p.method@ == "lock_collection"@ && p.args@ == ws,
            Err(e) => r == Err::<CallPayload, BuildError>(e),
        },
{
    let args = vec![Arg::U32(collection), Arg::Flags(settings)];
    build(schema, current, &"Nfts".to_owned(), &"lock_collection".to_owned(), &args)
}

} // verus!
