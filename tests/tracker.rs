use nft_extrinsics::codec::{FlagSet, Universe, TRANSFERABLE_ITEMS, UNLOCKED_METADATA};
use nft_extrinsics::nfts::{create_collection_payload, create_method};
use nft_extrinsics::payload::{CollectionConfig, MintPolicy, MintType, Schema};
use nft_extrinsics::submission::{start_tracking, SubmitError, SubmitReply};
use nft_extrinsics::tracker::{resolve, ChainEvent, EventData, Outcome, Status, Tracker};

fn emitted(index: Option<u32>, pallet: &str, name: &str) -> ChainEvent {
    ChainEvent {
        extrinsic_index: index,
        data: EventData::Emitted { pallet: pallet.to_string(), name: name.to_string() },
    }
}

fn failed(index: u32, code: u32) -> ChainEvent {
    ChainEvent {
        extrinsic_index: Some(index),
        data: EventData::ExtrinsicFailed { code, description: "BalanceLow".to_string() },
    }
}

fn names(o: &Outcome) -> Vec<String> {
    match o {
        Outcome::FinalizedSuccess { events } => events
            .iter()
            .map(|e| match &e.data {
                EventData::Emitted { name, .. } => name.clone(),
                EventData::ExtrinsicFailed { .. } => "ExtrinsicFailed".to_string(),
            })
            .collect(),
        _ => panic!("not a success: {:?}", o),
    }
}

#[test]
fn in_block_then_finalized_reaches_finalized() {
    let mut t = Tracker::new();
    t.on_status(Status::Pending);
    assert!(!t.is_terminal());
    t.on_status(Status::InBlock { extrinsic_index: 2 });
    assert!(!t.is_terminal());
    t.on_status(Status::Finalized { extrinsic_index: 2, events: vec![emitted(Some(2), "Nfts", "Created")] });
    assert!(t.is_terminal());
    assert_eq!(names(t.outcome().unwrap()), vec!["Created".to_string()]);
}

#[test]
fn stale_in_block_after_finalized_changes_nothing() {
    let mut t = Tracker::new();
    t.on_status(Status::InBlock { extrinsic_index: 1 });
    t.on_status(Status::Finalized { extrinsic_index: 1, events: vec![emitted(Some(1), "Nfts", "Created")] });
    t.on_status(Status::InBlock { extrinsic_index: 4 });
    t.on_status(Status::Dropped);
    assert_eq!(names(t.outcome().unwrap()), vec!["Created".to_string()]);
}

#[test]
fn finalized_without_in_block_still_resolves() {
    let mut t = Tracker::new();
    t.on_status(Status::Finalized { extrinsic_index: 0, events: vec![] });
    assert_eq!(names(t.outcome().unwrap()), Vec::<String>::new());
}

#[test]
fn reinclusion_moves_to_the_new_block() {
    let mut t = Tracker::new();
    t.on_status(Status::InBlock { extrinsic_index: 1 });
    t.on_status(Status::InBlock { extrinsic_index: 3 });
    assert!(matches!(t.state, nft_extrinsics::tracker::TrackState::InBlock { extrinsic_index: 3 }));
    assert!(t.outcome().is_none());
}

#[test]
fn dropped_invalid_and_lost_are_terminal() {
    let mut t = Tracker::new();
    t.on_status(Status::InBlock { extrinsic_index: 1 });
    t.on_status(Status::Dropped);
    assert!(matches!(t.outcome(), Some(Outcome::Dropped)));
    let mut t = Tracker::new();
    t.on_status(Status::Invalid { reason: "stale nonce".to_string() });
    assert!(matches!(t.outcome(), Some(Outcome::Invalid { reason }) if reason == "stale nonce"));
    let mut t = Tracker::new();
    t.on_status(Status::ConnectionLost);
    t.on_status(Status::Finalized { extrinsic_index: 0, events: vec![] });
    assert!(matches!(t.outcome(), Some(Outcome::ConnectionLost)));
}

#[test]
fn resolve_keeps_only_the_extrinsics_events() {
    let events = vec![
        emitted(None, "Timestamp", "Set"),
        emitted(Some(1), "Balances", "Withdraw"),
        emitted(Some(2), "Balances", "Withdraw"),
        emitted(Some(2), "Nfts", "Created"),
        failed(3, 9),
        emitted(Some(2), "System", "ExtrinsicSuccess"),
    ];
    let o = resolve(2, &events);
    assert_eq!(names(&o), vec!["Withdraw", "Created", "ExtrinsicSuccess"]);
}

#[test]
fn resolve_reports_first_runtime_error() {
    let events = vec![emitted(Some(1), "Balances", "Withdraw"), failed(1, 7), failed(1, 8)];
    match resolve(1, &events) {
        Outcome::FinalizedWithRuntimeError { code, description } => {
            assert_eq!(code, 7);
            assert_eq!(description, "BalanceLow");
        }
        o => panic!("unexpected {:?}", o),
    }
}

#[test]
fn create_collection_end_to_end() {
    let cu = Universe::collection_settings();
    let mut settings = FlagSet::none_of(&cu);
    settings.set(TRANSFERABLE_ITEMS, true);
    settings.set(UNLOCKED_METADATA, true);
    let config = CollectionConfig {
        settings,
        max_supply: None,
        mint_policy: MintPolicy {
            mint_type: MintType::Tiered { holder_of: 1, min_balance: 1 },
            price: Some(100),
            start_block: None,
            end_block: Some(100),
            default_item_settings: FlagSet::none_of(&Universe::item_settings()),
        },
    };
    let schema = Schema { version: 9, methods: vec![create_method()] };
    let payload = create_collection_payload(&schema, 9, [1u8; 32], config).unwrap();
    assert_eq!(payload.method, "create");
    let mut t = start_tracking(SubmitReply::Accepted).unwrap();
    t.on_status(Status::InBlock { extrinsic_index: 2 });
    t.on_status(Status::Finalized {
        extrinsic_index: 2,
        events: vec![
            emitted(Some(2), "Nfts", "Created"),
            emitted(Some(2), "System", "ExtrinsicSuccess"),
        ],
    });
    assert!(names(t.outcome().unwrap()).contains(&"Created".to_string()));
}

#[test]
fn insufficient_balance_never_reports_success() {
    let t = start_tracking(SubmitReply::Rejected { reason: "Inability to pay some fees".to_string() })
        .unwrap();
    assert!(matches!(t.outcome(), Some(Outcome::SignatureRejected { .. })));
    let mut t = start_tracking(SubmitReply::Accepted).unwrap();
    t.on_status(Status::InBlock { extrinsic_index: 5 });
    t.on_status(Status::Finalized { extrinsic_index: 5, events: vec![failed(5, 2)] });
    assert!(matches!(t.outcome(), Some(Outcome::FinalizedWithRuntimeError { code: 2, .. })));
}

#[test]
fn unreachable_endpoint_gives_transport_error() {
    assert!(matches!(start_tracking(SubmitReply::Unreachable), Err(SubmitError::TransportUnavailable)));
}
