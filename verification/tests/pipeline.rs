//! End-to-end exercises of the discovery pipeline's verified pieces.

use cw_indexer::discovery::{DiscoverySession, PAGE_SIZE};
use cw_indexer::parser::{
    contract_addresses, parse_initialized_contract_tx_result, EventAttribute, TxEvent,
    TxLogEntry, TxRecord,
};
use cw_indexer::records::{initial_cached_data, CachedData, ContractInfoDef};
use cw_indexer::resolver::{
    batch_contract_results, resolve_outcome, unreachable_batch, MetadataOutcome, ResolveError,
};

fn attr(key: &str, value: &str) -> EventAttribute {
    EventAttribute { key: key.to_owned(), value: value.to_owned() }
}

fn instantiate_event(attrs: Vec<EventAttribute>) -> TxEvent {
    TxEvent { event_type: "instantiate".to_owned(), attributes: attrs }
}

fn tx_with_events(events: Vec<TxEvent>) -> TxRecord {
    TxRecord { logs: vec![TxLogEntry { events }] }
}

fn record(code_id: u64, label: &str) -> ContractInfoDef {
    ContractInfoDef {
        code_id,
        creator: "creator1".to_owned(),
        admin: String::new(),
        label: label.to_owned(),
        created: None,
        ibc_port_id: String::new(),
        extension: None,
    }
}

#[test]
fn parse_extracts_address_and_code_id() {
    let tx = tx_with_events(vec![instantiate_event(vec![
        attr("_contract_address", "juno1abc"),
        attr("code_id", "42"),
    ])]);
    let mentions = parse_initialized_contract_tx_result(&tx);
    assert_eq!(mentions.len(), 1);
    assert_eq!(mentions[0].contract_address, "juno1abc");
    assert_eq!(mentions[0].code_id, "42");
}

#[test]
fn parse_missing_address_yields_empty_string() {
    let tx = tx_with_events(vec![instantiate_event(vec![attr("code_id", "7")])]);
    let mentions = parse_initialized_contract_tx_result(&tx);
    assert_eq!(mentions.len(), 1);
    assert_eq!(mentions[0].contract_address, "");
    assert_eq!(mentions[0].code_id, "7");
}

#[test]
fn parse_last_occurrence_of_key_wins() {
    let tx = tx_with_events(vec![instantiate_event(vec![
        attr("_contract_address", "first"),
        attr("_contract_address", "second"),
    ])]);
    let mentions = parse_initialized_contract_tx_result(&tx);
    assert_eq!(mentions.len(), 1);
    assert_eq!(mentions[0].contract_address, "second");
}

#[test]
fn parse_ignores_other_event_types() {
    let other = TxEvent {
        event_type: "transfer".to_owned(),
        attributes: vec![attr("_contract_address", "juno1abc")],
    };
    let tx = tx_with_events(vec![other]);
    let mentions = parse_initialized_contract_tx_result(&tx);
    assert!(mentions.is_empty());
}

#[test]
fn parse_flattens_all_logs_in_order() {
    let tx = TxRecord {
        logs: vec![
            TxLogEntry {
                events: vec![instantiate_event(vec![attr("_contract_address", "a")])],
            },
            TxLogEntry {
                events: vec![
                    instantiate_event(vec![attr("_contract_address", "b")]),
                    instantiate_event(vec![attr("_contract_address", "c")]),
                ],
            },
        ],
    };
    let mentions = parse_initialized_contract_tx_result(&tx);
    let addresses = contract_addresses(&mentions);
    assert_eq!(addresses, vec!["a".to_owned(), "b".to_owned(), "c".to_owned()]);
}

#[test]
fn resolve_outcome_maps_each_report() {
    let found = resolve_outcome(MetadataOutcome::Found(record(1, "x")));
    assert_eq!(found, Ok(record(1, "x")));
    let missing = resolve_outcome(MetadataOutcome::Missing);
    assert_eq!(missing, Err(ResolveError::NotFound));
    let failed = resolve_outcome(MetadataOutcome::Failed("status 13".to_owned()));
    assert_eq!(failed, Err(ResolveError::QueryFailed("status 13".to_owned())));
}

#[test]
fn batch_returns_one_outcome_per_address() {
    let outcomes = vec![
        MetadataOutcome::Found(record(1, "a")),
        MetadataOutcome::Missing,
        MetadataOutcome::Found(record(2, "b")),
        MetadataOutcome::Failed("boom".to_owned()),
    ];
    let results = batch_contract_results(4, Ok(outcomes));
    assert_eq!(results.len(), 4);
    assert_eq!(results[0], Ok(record(1, "a")));
    assert_eq!(results[1], Err(ResolveError::NotFound));
    assert_eq!(results[2], Ok(record(2, "b")));
    assert_eq!(results[3], Err(ResolveError::QueryFailed("boom".to_owned())));
}

#[test]
fn unreachable_service_fails_whole_batch_alike() {
    let results = unreachable_batch(3, &"connect refused".to_owned());
    assert_eq!(results.len(), 3);
    for r in &results {
        assert_eq!(*r, Err(ResolveError::Unreachable("connect refused".to_owned())));
    }
    let via_batch = batch_contract_results(3, Err("connect refused".to_owned()));
    assert_eq!(via_batch, results);
}

#[test]
fn resumption_keeps_loaded_checkpoint_intact() {
    let checkpoint = CachedData { last_page: 5, data: vec![record(9, "kept")] };
    let session = DiscoverySession::begin(checkpoint.clone());
    assert_eq!(session.checkpoint, checkpoint);
    assert_eq!(session.current_page, 5);
    assert!(session.has_more());
}

#[test]
fn merge_advances_page_and_appends_only() {
    let checkpoint = CachedData { last_page: 2, data: vec![record(1, "old")] };
    let mut session = DiscoverySession::begin(checkpoint);
    let page = vec![tx_with_events(vec![instantiate_event(vec![attr(
        "_contract_address",
        "juno1new",
    )])])];
    let addresses = session.on_page(&page, 1000).expect("page is nonempty");
    assert_eq!(addresses, vec!["juno1new".to_owned()]);
    assert_eq!(session.current_page, 3);
    session.on_resolved(vec![
        Ok(record(2, "new")),
        Err(ResolveError::NotFound),
    ]);
    assert_eq!(session.checkpoint.last_page, 3);
    assert_eq!(session.checkpoint.data, vec![record(1, "old"), record(2, "new")]);
}

#[test]
fn loop_fetches_three_pages_for_250_matches() {
    assert_eq!(PAGE_SIZE, 100);
    let mut session = DiscoverySession::begin(initial_cached_data());
    let mut fetched_pages: Vec<u64> = Vec::new();
    while session.has_more() {
        let request = session.next_page_request();
        assert_eq!(
            request.filter,
            "message.action='/cosmwasm.wasm.v1.MsgInstantiateContract'"
        );
        assert_eq!(request.limit, 100);
        fetched_pages.push(request.page);
        let page = vec![tx_with_events(vec![instantiate_event(vec![attr(
            "_contract_address",
            "juno1page",
        )])])];
        match session.on_page(&page, 250) {
            Some(addresses) => {
                let results = batch_contract_results(
                    addresses.len(),
                    Ok(vec![MetadataOutcome::Found(record(1, "r"))]),
                );
                session.on_resolved(results);
            }
            None => break,
        }
    }
    assert_eq!(fetched_pages, vec![0, 1, 2]);
    assert_eq!(session.checkpoint.last_page, 3);
    assert_eq!(session.checkpoint.data.len(), 3);
}

#[test]
fn empty_page_stops_without_checkpoint_change() {
    let mut session = DiscoverySession::begin(initial_cached_data());
    let outcome = session.on_page(&Vec::new(), 0);
    assert!(outcome.is_none());
    assert!(!session.has_more());
    assert_eq!(session.checkpoint.last_page, 0);
    assert!(session.checkpoint.data.is_empty());
    assert_eq!(session.current_page, 0);
}

#[test]
fn exact_page_boundary_stops_after_last_full_page() {
    let mut session = DiscoverySession::begin(initial_cached_data());
    let page = vec![tx_with_events(vec![instantiate_event(vec![attr(
        "_contract_address",
        "juno1x",
    )])])];
    let mut fetched: u64 = 0;
    while session.has_more() {
        fetched += 1;
        match session.on_page(&page, 100) {
            Some(addresses) => {
                let results =
                    batch_contract_results(addresses.len(), Err("down".to_owned()));
                session.on_resolved(results);
            }
            None => break,
        }
    }
    assert_eq!(fetched, 1);
    assert_eq!(session.checkpoint.last_page, 1);
    assert!(session.checkpoint.data.is_empty());
}
