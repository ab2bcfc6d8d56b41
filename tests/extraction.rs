use events_extractor::{
    extract_transaction, gather, missing_payload_versions, EventModel, EventsExtractor,
    ExtractError, RawEvent, Transaction, TransactionContext, TxnData, UserTransaction,
};

const NEW_POOL: &str =
    "0x02a9d1afd0f2053e1eb569fde03b8407ff9d9eb0e6d76d88c19ec3d5424eafa9::events::NewPool";
const OTHER: &str = "addr::mod::Other";

#[derive(Debug, Clone, PartialEq)]
struct Meta {
    start_version: u64,
    end_version: u64,
    label: String,
}

fn meta() -> Meta {
    Meta { start_version: 100, end_version: 101, label: "chunk-7".to_string() }
}

fn ev(tag: &str, data: &str) -> RawEvent {
    RawEvent { type_str: tag.to_string(), data: data.to_string() }
}

fn user(version: u64, block_height: u64, events: Vec<RawEvent>) -> Transaction {
    Transaction {
        version,
        block_height,
        txn_data: Some(TxnData::User(UserTransaction { events })),
    }
}

fn absent(version: u64, block_height: u64) -> Transaction {
    Transaction { version, block_height, txn_data: None }
}

fn run(txns: Vec<Transaction>) -> Result<TransactionContext<Vec<EventModel>, Meta>, ExtractError> {
    let mut stage = EventsExtractor::new();
    stage.process(TransactionContext { data: txns, metadata: meta() })
}

fn summary(ms: &[EventModel]) -> Vec<(i64, i64, String)> {
    ms.iter().map(|m| (m.transaction_version, m.block_height, m.type_str.clone())).collect()
}

#[test]
fn scenario_one_new_pool_record() {
    let txns = vec![
        user(100, 10, vec![ev(NEW_POOL, r#"{"pool":"0x1"}"#), ev(OTHER, r#"{"x":1}"#)]),
        absent(101, 10),
    ];
    let out = run(txns).expect("batch succeeds");
    assert_eq!(summary(&out.data), vec![(100, 10, NEW_POOL.to_string())]);
    assert_eq!(out.metadata, meta());
}

#[test]
fn decoded_payload_is_kept() {
    let out = run(vec![user(5, 1, vec![ev(NEW_POOL, r#"{"pool":"0x1","fee":30}"#)])]).unwrap();
    assert_eq!(out.data.len(), 1);
    let data = &out.data[0].data;
    assert_eq!(data.get("pool").and_then(|v| v.as_str()), Some("0x1"));
    assert_eq!(data.get("fee").and_then(|v| v.as_u64()), Some(30));
}

#[test]
fn scenario_decode_failure_fails_batch() {
    let txns = vec![
        user(100, 10, vec![ev(NEW_POOL, r#"{"pool":"0x1"}"#)]),
        user(101, 11, vec![ev(NEW_POOL, "not json")]),
        user(102, 12, vec![ev(NEW_POOL, r#"{"pool":"0x2"}"#)]),
    ];
    match run(txns) {
        Err(ExtractError::DecodeFailure { transaction_version, type_str }) => {
            assert_eq!(transaction_version, 101);
            assert_eq!(type_str, NEW_POOL);
        }
        Ok(_) => panic!("expected a decode failure"),
    }
}

#[test]
fn first_failure_in_batch_order_is_reported() {
    let txns = vec![
        user(7, 1, vec![ev(OTHER, "garbage"), ev(NEW_POOL, "{")]),
        user(8, 1, vec![ev(NEW_POOL, "]")]),
    ];
    let err = run(txns).err().expect("batch fails");
    assert_eq!(
        err,
        ExtractError::DecodeFailure { transaction_version: 7, type_str: NEW_POOL.to_string() }
    );
}

#[test]
fn undecodable_unrecognized_event_is_ignored() {
    let out = run(vec![user(3, 2, vec![ev(OTHER, "not json at all")])]).unwrap();
    assert!(out.data.is_empty());
}

#[test]
fn metadata_passes_unchanged() {
    let out = run(vec![]).unwrap();
    assert!(out.data.is_empty());
    assert_eq!(out.metadata, meta());
    let out = run(vec![user(1, 1, vec![ev(NEW_POOL, "{}")]), absent(2, 1)]).unwrap();
    assert_eq!(out.metadata, meta());
}

#[test]
fn order_preserved_across_and_within_transactions() {
    let mut txns = Vec::new();
    for v in 0..200u64 {
        let n = (v % 4) as usize;
        let mut events = Vec::new();
        for k in 0..n {
            events.push(ev(OTHER, "{}"));
            events.push(ev(NEW_POOL, &format!("{{\"k\":{}}}", k)));
        }
        txns.push(user(1000 + v, v / 3, events));
    }
    let out = run(txns).unwrap();
    let mut expected = Vec::new();
    for v in 0..200u64 {
        for k in 0..(v % 4) {
            expected.push((1000 + v as i64, (v / 3) as i64, k));
        }
    }
    let got: Vec<(i64, i64, u64)> = out
        .data
        .iter()
        .map(|m| (m.transaction_version, m.block_height, m.data["k"].as_u64().unwrap()))
        .collect();
    assert_eq!(got, expected);
}

#[test]
fn repeated_calls_agree() {
    let make = || {
        (0..50u64)
            .map(|v| {
                if v % 5 == 0 {
                    absent(v, v)
                } else {
                    user(v, v, vec![ev(NEW_POOL, &format!("[{}]", v)), ev(OTHER, "1")])
                }
            })
            .collect::<Vec<_>>()
    };
    let a = run(make()).unwrap();
    let b = run(make()).unwrap();
    assert_eq!(summary(&a.data), summary(&b.data));
    let da: Vec<_> = a.data.iter().map(|m| m.data.clone()).collect();
    let db: Vec<_> = b.data.iter().map(|m| m.data.clone()).collect();
    assert_eq!(da, db);
    assert_eq!(a.data.len(), 40);
}

#[test]
fn missing_payload_contributes_nothing() {
    let out = run(vec![absent(9, 9)]).unwrap();
    assert!(out.data.is_empty());
    let with = run(vec![user(1, 1, vec![ev(NEW_POOL, "{}")]), absent(2, 1), user(3, 2, vec![ev(NEW_POOL, "{}")])]).unwrap();
    assert_eq!(
        summary(&with.data),
        vec![(1, 1, NEW_POOL.to_string()), (3, 2, NEW_POOL.to_string())]
    );
}

#[test]
fn missing_payload_versions_are_reported() {
    let txns = vec![absent(100, 1), user(101, 1, vec![]), absent(102, 2)];
    assert_eq!(missing_payload_versions(&txns), vec![100, 102]);
    assert_eq!(missing_payload_versions(&vec![]), Vec::<i64>::new());
}

#[test]
fn other_payload_kinds_carry_no_events() {
    let kinds = vec![
        TxnData::BlockMetadata,
        TxnData::Genesis,
        TxnData::StateCheckpoint,
        TxnData::Validator,
        TxnData::BlockEpilogue,
    ];
    for k in kinds {
        let t = Transaction { version: 4, block_height: 4, txn_data: Some(k) };
        assert!(t.raw_events().is_empty());
        assert!(!t.payload_missing());
        assert!(extract_transaction(&t).unwrap().is_empty());
    }
}

#[test]
fn version_and_height_cast_to_signed() {
    let t = user(u64::MAX, (i64::MAX as u64) + 1, vec![ev(NEW_POOL, "null")]);
    let ms = extract_transaction(&t).unwrap();
    assert_eq!(ms.len(), 1);
    assert_eq!(ms[0].transaction_version, -1);
    assert_eq!(ms[0].block_height, i64::MIN);
}

#[test]
fn gather_concatenates_in_index_order() {
    let a = extract_transaction(&user(1, 1, vec![ev(NEW_POOL, "1"), ev(NEW_POOL, "2")])).unwrap();
    let b = extract_transaction(&user(2, 1, vec![ev(NEW_POOL, "3")])).unwrap();
    let out = gather(vec![Ok(a), Ok(vec![]), Ok(b)]).unwrap();
    let got: Vec<(i64, u64)> =
        out.iter().map(|m| (m.transaction_version, m.data.as_u64().unwrap())).collect();
    assert_eq!(got, vec![(1, 1), (1, 2), (2, 3)]);
}

#[test]
fn gather_stops_at_first_failure() {
    let e1 = ExtractError::DecodeFailure { transaction_version: 1, type_str: "a".to_string() };
    let e2 = ExtractError::DecodeFailure { transaction_version: 2, type_str: "b".to_string() };
    assert_eq!(gather(vec![Ok(vec![]), Err(e1.clone()), Err(e2)]).err(), Some(e1));
}

#[test]
fn stage_name() {
    assert_eq!(EventsExtractor::new().name(), "EventsExtractor");
}
