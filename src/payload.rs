//! The transaction payload builder: domain arguments checked against a
//! versioned runtime schema and turned into their wire form.
use vstd::prelude::*;
use crate::codec::{CodecError, FlagSet, Universe, encode, encoding};

verus! {

/// Who may mint items of a collection.
#[derive(PartialEq, Eq, Debug, Clone, Copy)]
pub enum MintType {
    /// Only the collection's issuer.
    Issuer,
    /// Anyone.
    Public,
    /// Holders of an item of another collection, with a least balance.
    Tiered { holder_of: u32, min_balance: u128 },
}

/// The minting rules of a collection.
#[derive(Debug, Clone)]
pub struct MintPolicy {
    pub mint_type: MintType,
    pub price: Option<u128>,
    pub start_block: Option<u32>,
    pub end_block: Option<u32>,
    pub default_item_settings: FlagSet,
}

/// The configuration of a new collection.
#[derive(Debug, Clone)]
pub struct CollectionConfig {
    pub settings: FlagSet,
    pub max_supply: Option<u32>,
    pub mint_policy: MintPolicy,
}

/// A mint policy in wire form: its item capabilities as bits.
#[derive(PartialEq, Eq, Debug, Clone, Copy)]
pub struct WireMintPolicy {
    pub mint_type: MintType,
    pub price: Option<u128>,
    pub start_block: Option<u32>,
    pub end_block: Option<u32>,
    pub default_item_settings: u64,
}

/// A collection configuration in wire form: its capabilities as bits.
#[derive(PartialEq, Eq, Debug, Clone, Copy)]
pub struct WireConfig {
    pub settings: u64,
    pub max_supply: Option<u32>,
    pub mint_policy: WireMintPolicy,
}

/// A domain-level call argument.
#[derive(Debug, Clone)]
pub enum Arg {
    Account([u8; 32]),
    U32(u32),
    U128(u128),
    Flags(FlagSet),
    Config(CollectionConfig),
}

/// The type that a schema declares for a parameter.
#[derive(Debug, Clone)]
pub enum ParamType {
    Account,
    U32,
    U128,
    /// Capability bits of the given universe.
    Flags(Universe),
    /// A collection configuration, with the universes of its collection and
    /// item capabilities.
    Config { collection: Universe, item: Universe },
}

/// An argument in wire form.
#[derive(PartialEq, Eq, Debug, Clone, Copy)]
pub enum WireArg {
    Account([u8; 32]),
    U32(u32),
    U128(u128),
    Flags(u64),
    Config(WireConfig),
}

/// One callable method of a pallet, with the types of its parameters.
#[derive(Debug, Clone)]
pub struct MethodSchema {
    pub pallet: String,
    pub method: String,
    pub params: Vec<ParamType>,
}

/// The callable methods of a runtime, tagged with the runtime's schema version.
#[derive(Debug, Clone)]
pub struct Schema {
    pub version: u32,
    pub methods: Vec<MethodSchema>,
}

/// A call ready for signing: pallet, method and wire arguments, bound to the
/// schema version it was built against.
#[derive(Debug, Clone)]
pub struct CallPayload {
    pub version: u32,
    pub pallet: String,
    pub method: String,
    pub args: Vec<WireArg>,
}

/// Why a payload could not be built.
#[derive(PartialEq, Eq, Structural, Debug, Clone, Copy)]
pub enum BuildError {
    /// The schema declares no such method, or not with these argument types.
    SchemaMismatch,
    /// The schema is not the runtime's current one.
    StaleSchema,
    /// An argument does not fit the wire type the schema expects.
    ArgumentEncodingError,
    /// A capability set has a bit beyond the width of its integer.
    EncodingOverflow,
}

/// `m` is the method `method` of pallet `pallet`.
pub open spec fn declares(m: MethodSchema, pallet: Seq<char>, method: Seq<char>) -> bool {
    m.pallet@ == pallet && m.method@ == method
}

/// The index of the first of the first `n` methods that is `pallet::method`.
pub open spec fn first_match(ms: Seq<MethodSchema>, pallet: Seq<char>, method: Seq<char>, n: nat) -> Option<
    int,
>
    decreases n,
{
    if n == 0 {
        None
    } else {
        match first_match(ms, pallet, method, (n - 1) as nat) {
            Some(k) => Some(k),
            None => if declares(ms[n - 1], pallet, method) {
                Some(n - 1)
            } else {
                None
            },
        }
    }
}

/// The bits of capability set `f` in universe `u`, as the builder reports them.
pub open spec fn flag_bits(f: FlagSet, u: Universe) -> Result<u64, BuildError> {
    if !u.wf() {
        Err(BuildError::SchemaMismatch)
    } else if !f.fits(u) {
        Err(BuildError::ArgumentEncodingError)
    } else {
        match encoding(f, u) {
            Ok(v) => Ok(v),
            Err(_) => Err(BuildError::EncodingOverflow),
        }
    }
}

/// The wire form of configuration `c`: collection capabilities first, then
/// the default item capabilities.
pub open spec fn config_wire(c: CollectionConfig, cu: Universe, iu: Universe) -> Result<
    WireConfig,
    BuildError,
> {
    match flag_bits(c.settings, cu) {
        Err(e) => Err(e),
        Ok(s) => match flag_bits(c.mint_policy.default_item_settings, iu) {
            Err(e) => Err(e),
            Ok(d) => Ok(
                WireConfig {
                    settings: s,
                    max_supply: c.max_supply,
                    mint_policy: WireMintPolicy {
                        mint_type: c.mint_policy.mint_type,
                        price: c.mint_policy.price,
                        start_block: c.mint_policy.start_block,
                        end_block: c.mint_policy.end_block,
                        default_item_settings: d,
                    },
                },
            ),
        },
    }
}

/// The wire form of argument `a` for a parameter of type `t`; an argument of
/// another kind than the parameter is a schema mismatch.
pub open spec fn arg_wire(a: Arg, t: ParamType) -> Result<WireArg, BuildError> {
    match (a, t) {
        (Arg::Account(b), ParamType::Account) => Ok(WireArg::Account(b)),
        (Arg::U32(x), ParamType::U32) => Ok(WireArg::U32(x)),
        (Arg::U128(x), ParamType::U128) => Ok(WireArg::U128(x)),
        (Arg::Flags(f), ParamType::Flags(u)) => match flag_bits(f, u) {
            Ok(v) => Ok(WireArg::Flags(v)),
            Err(e) => Err(e),
        },
        (Arg::Config(c), ParamType::Config { collection, item }) => match config_wire(
            c,
            collection,
            item,
        ) {
            Ok(w) => Ok(WireArg::Config(w)),
            Err(e) => Err(e),
        },
        _ => Err(BuildError::SchemaMismatch),
    }
}

/// The wire forms of the first `n` arguments, or the error of the first that
/// has none.
pub open spec fn args_wire(args: Seq<Arg>, ts: Seq<ParamType>, n: nat) -> Result<
    Seq<WireArg>,
    BuildError,
>
    decreases n,
{
    if n == 0 {
        Ok(Seq::empty())
    } else {
        match args_wire(args, ts, (n - 1) as nat) {
            Err(e) => Err(e),
            Ok(s) => match arg_wire(args[n - 1], ts[n - 1]) {
                Err(e) => Err(e),
                Ok(w) => Ok(s.push(w)),
            },
        }
    }
}

/// What building `pallet::method(args)` against `schema` gives, when the
/// runtime's current schema version is `current`: the wire arguments, or the
/// first error met.
pub open spec fn built(
    schema: Schema,
    current: u32,
    pallet: Seq<char>,
    method: Seq<char>,
    args: Seq<Arg>,
) -> Result<Seq<WireArg>, BuildError> {
    match first_match(schema.methods@, pallet, method, schema.methods@.len()) {
        None => Err(BuildError::SchemaMismatch),
        Some(k) => if schema.version != current {
            Err(BuildError::StaleSchema)
        } else if schema.methods@[k].params@.len() != args.len() {
            Err(BuildError::SchemaMismatch)
        } else {
            args_wire(args, schema.methods@[k].params@, args.len())
        },
    }
}

impl Universe {
    /// Tells whether the universe is well formed.
    pub fn check(&self) -> (r: bool)
        ensures
            r == self.wf(),
    {
        if self.width > 64 {
            return false;
        }
        let n = self.positions.len();
        let mut i: usize = 0;
        while i < n
            invariant
                n == self.positions@.len(),
                i <= n,
                forall|a: int| 0 <= a < i ==> self.positions@[a] < 64,
                forall|a: int, b: int|
                    0 <= a < i && 0 <= b < n && a != b ==> self.positions@[a]
                        != self.positions@[b],
            decreases n - i,
        {
            if self.positions[i] >= 64 {
                return false;
            }
            let mut j: usize = 0;
            while j < n
                invariant
                    n == self.positions@.len(),
                    i < n,
                    j <= n,
                    forall|b: int| 0 <= b < j && i != b ==> self.positions@[i as int] != self.positions@[b],
                decreases n - j,
            {
                if j != i && self.positions[i] == self.positions[j] {
                    return false;
                }
                j += 1;
            }
            i += 1;
        }
        true
    }
}

/// Encodes capability set `f` for a parameter of universe `u`.
pub fn encode_flags(f: &FlagSet, u: &Universe) -> (r: Result<u64, BuildError>)
    ensures
        r == flag_bits(*f, *u),
{
    if !u.check() {
        return Err(BuildError::SchemaMismatch);
    }
    if f.enabled.len() != u.positions.len() {
        return Err(BuildError::ArgumentEncodingError);
    }
    match encode(f, u) {
        Ok(v) => Ok(v),
        Err(CodecError::EncodingOverflow) => Err(BuildError::EncodingOverflow),
    }
}

/// Turns a collection configuration into its wire form.
pub fn encode_config(c: &CollectionConfig, cu: &Universe, iu: &Universe) -> (r: Result<
    WireConfig,
    BuildError,
>)
    ensures
        r == config_wire(*c, *cu, *iu),
{
    let settings = match encode_flags(&c.settings, cu) {
        Ok(v) => v,
        Err(e) => return Err(e),
    };
    let items = match encode_flags(&c.mint_policy.default_item_settings, iu) {
        Ok(v) => v,
        Err(e) => return Err(e),
    };
    Ok(
        WireConfig {
            settings,
            max_supply: c.max_supply,
            mint_policy: WireMintPolicy {
                mint_type: c.mint_policy.mint_type,
                price: c.mint_policy.price,
                start_block: c.mint_policy.start_block,
                end_block: c.mint_policy.end_block,
                default_item_settings: items,
            },
        },
    )
}

/// Turns one argument into its wire form for a parameter of type `t`.
pub fn encode_arg(a: &Arg, t: &ParamType) -> (r: Result<WireArg, BuildError>)
    ensures
        r == arg_wire(*a, *t),
{
    match (a, t) {
        (Arg::Account(b), ParamType::Account) => Ok(WireArg::Account(*b)),
        (Arg::U32(x), ParamType::U32) => Ok(WireArg::U32(*x)),
        (Arg::U128(x), ParamType::U128) => Ok(WireArg::U128(*x)),
        (Arg::Flags(f), ParamType::Flags(u)) => match encode_flags(f, u) {
            Ok(v) => Ok(WireArg::Flags(v)),
            Err(e) => Err(e),
        },
        (Arg::Config(c), ParamType::Config { collection, item }) => match encode_config(
            c,
            collection,
            item,
        ) {
            Ok(w) => Ok(WireArg::Config(w)),
            Err(e) => Err(e),
        },
        _ => Err(BuildError::SchemaMismatch),
    }
}

/// The index of the first method of `schema` that is `pallet::method`.
pub fn find_method(schema: &Schema, pallet: &String, method: &String) -> (r: Option<usize>)
    ensures
        r matches Some(k) ==> k < schema.methods@.len(),
        r matches Some(k) ==> first_match(
            schema.methods@,
            pallet@,
            method@,
            schema.methods@.len(),
        ) == Some(k as int),
        r is None ==> first_match(schema.methods@, pallet@, method@, schema.methods@.len())
            is None,
{
    let n = schema.methods.len();
    let mut i: usize = 0;
    while i < n
        invariant
            n == schema.methods@.len(),
            i <= n,
            first_match(schema.methods@, pallet@, method@, i as nat) is None,
        decreases n - i,
    {
        let m = &schema.methods[i];
        if m.pallet == *pallet && m.method == *method {
            assert(first_match(schema.methods@, pallet@, method@, (i + 1) as nat) == Some(
                i as int,
            ));
            proof {
                lemma_first_match_stays(schema.methods@, pallet@, method@, (i + 1) as nat, n as nat);
            }
            return Some(i);
        }
        i += 1;
    }
    None
}

/// Once a match is found among the first `n` methods, looking further finds
/// the same one.
proof fn lemma_first_match_stays(ms: Seq<MethodSchema>, pallet: Seq<char>, method: Seq<char>, n: nat, m: nat)
    requires
        n <= m,
        first_match(ms, pallet, method, n) is Some,
    ensures
        first_match(ms, pallet, method, m) == first_match(ms, pallet, method, n),
    decreases m - n,
{
    if n < m {
        lemma_first_match_stays(ms, pallet, method, n, (m - 1) as nat);
    }
}

/// Builds the call `pallet::method(args)` against `schema`, whose version
/// must be `current`, the runtime's current schema version. The payload
/// holds the wire form of each argument, in order; on any error no payload
/// comes back.
pub fn build(schema: &Schema, current: u32, pallet: &String, method: &String, args: &Vec<Arg>) -> (r:
    Result<CallPayload, BuildError>)
    ensures
        match built(*schema, current, pallet@, method@, args@) {
            Ok(ws) => r matches Ok(p) && p.version == current && p.pallet@ == pallet@
                && p.method@ == method@ && p.args@ == ws,
            Err(e) => r == Err::<CallPayload, BuildError>(e),
        },
{
    let k = match find_method(schema, pallet, method) {
        Some(k) => k,
        None => return Err(BuildError::SchemaMismatch),
    };
    if schema.version != current {
        return Err(BuildError::StaleSchema);
    }
    let params = &schema.methods[k].params;
    if params.len() != args.len() {
        return Err(BuildError::SchemaMismatch);
    }
    let n = args.len();
    let mut wire: Vec<WireArg> = Vec::new();
    let mut i: usize = 0;
    while i < n
        invariant
            n == args@.len(),
            n == params@.len(),
            i <= n,
            k < schema.methods@.len(),
            first_match(schema.methods@, pallet@, method@, schema.methods@.len()) == Some(k as int),
            schema.version == current,
            *params == schema.methods@[k as int].params,
            args_wire(args@, params@, i as nat) == Ok::<Seq<WireArg>, BuildError>(wire@),
        decreases n - i,
    {
        match encode_arg(&args[i], &params[i]) {
            Ok(w) => {
                wire.push(w);
            },
            Err(e) => {
                assert(args_wire(args@, params@, (i + 1) as nat) == Err::<Seq<WireArg>, BuildError>(e));
                proof {
                    lemma_args_error_stays(args@, params@, (i + 1) as nat, n as nat);
                }
                return Err(e);
            },
        }
        i += 1;
    }
    Ok(CallPayload { version: current, pallet: pallet.clone(), method: method.clone(), args: wire })
}

/// Once one of the first `n` arguments fails, the first `m` fail with the
/// same error.
proof fn lemma_args_error_stays(args: Seq<Arg>, ts: Seq<ParamType>, n: nat, m: nat)
    requires
        n <= m,
        args_wire(args, ts, n) is Err,
    ensures
        args_wire(args, ts, m) == args_wire(args, ts, n),
    decreases m - n,
{
    if n < m {
        lemma_args_error_stays(args, ts, n, (m - 1) as nat);
    }
}

/// A method that the schema does not declare gives a schema mismatch, and
/// never a payload.
pub proof fn lemma_absent_method(
    schema: Schema,
    current: u32,
    pallet: Seq<char>,
    method: Seq<char>,
    args: Seq<Arg>,
)
    requires
        forall|k: int|
            0 <= k < schema.methods@.len() ==> !declares(#[trigger] schema.methods@[k], pallet, method),
    ensures
        built(schema, current, pallet, method, args) == Err::<Seq<WireArg>, BuildError>(
            BuildError::SchemaMismatch,
        ),
{
    lemma_no_match(schema.methods@, pallet, method, schema.methods@.len());
}

/// With no method `pallet::method` among the first `n`, there is no match.
proof fn lemma_no_match(ms: Seq<MethodSchema>, pallet: Seq<char>, method: Seq<char>, n: nat)
    requires
        n <= ms.len(),
        forall|k: int| 0 <= k < ms.len() ==> !declares(#[trigger] ms[k], pallet, method),
    ensures
        first_match(ms, pallet, method, n) is None,
    decreases n,
{
    if n > 0 {
        lemma_no_match(ms, pallet, method, (n - 1) as nat);
    }
}

} // verus!
