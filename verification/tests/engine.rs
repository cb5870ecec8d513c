use weld::engine::{
    BatchFailure, Engine, EngineError, EthMethod, FailureReason, MineRequest, QueryRoute, ReplyKind,
    RunLog, StoreRead, WorkerMessage,
};
use weld::types::RpcRequest;

fn stored_batch(txs: Vec<Vec<u8>>) -> Vec<u8> {
    bincode::serialize(&(0u32, txs)).unwrap()
}

fn request(method: &str, params: &str) -> RpcRequest {
    RpcRequest { method: method.to_string(), params: params.to_string() }
}

#[test]
fn worker_db_appends_worker_id() {
    let engine = Engine::new("db-0");
    assert_eq!(engine.worker_db(0), "db-0-0");
    assert_eq!(engine.worker_db(1), "db-0-1");
    assert_eq!(engine.worker_db(42), "db-0-42");
    assert_eq!(engine.worker_db(u32::MAX), "db-0-4294967295");
}

#[test]
fn worker_dbs_of_different_workers_differ() {
    let engine = Engine::new(".db-primary");
    assert_ne!(engine.worker_db(1), engine.worker_db(10));
    assert_ne!(engine.worker_db(12), engine.worker_db(21));
}

#[test]
fn provider_url_prefixes_http() {
    assert_eq!(Engine::provider_url("127.0.0.1:26658"), "http://127.0.0.1:26658");
}

#[test]
fn decode_reads_a_worker_batch() {
    let bytes = stored_batch(vec![vec![1, 2, 3], vec![], vec![9]]);
    match WorkerMessage::decode(&bytes) {
        Some(WorkerMessage::Batch(txs)) => assert_eq!(txs, vec![vec![1, 2, 3], vec![], vec![9]]),
        None => panic!("batch not decoded"),
    }
}

#[test]
fn decode_accepts_trailing_bytes() {
    let mut bytes = stored_batch(vec![vec![7]]);
    bytes.extend_from_slice(&[0xff, 0xee]);
    assert!(matches!(WorkerMessage::decode(&bytes), Some(WorkerMessage::Batch(txs)) if txs == vec![vec![7]]));
}

#[test]
fn decode_refuses_other_variants_and_garbage() {
    let other_variant = bincode::serialize(&(1u32, vec![vec![1u8]])).unwrap();
    assert!(WorkerMessage::decode(&other_variant).is_none());
    assert!(WorkerMessage::decode(&[0, 0, 0]).is_none());
    assert!(WorkerMessage::decode(&[]).is_none());
    // a batch that claims more transactions than the bytes hold
    assert!(WorkerMessage::decode(&[0, 0, 0, 0, 5, 0, 0, 0, 0, 0, 0, 0]).is_none());
}

#[test]
fn store_lookup_is_classified() {
    assert!(matches!(StoreRead::from_lookup(Ok(Some(vec![1]))), StoreRead::Found(b) if b == vec![1]));
    assert!(matches!(StoreRead::from_lookup(Ok(None)), StoreRead::Missing));
    assert!(matches!(StoreRead::from_lookup(Err("io".to_string())), StoreRead::Failed(m) if m == "io"));
}

#[test]
fn plan_delivers_all_batches_in_order() {
    let reads = vec![
        StoreRead::Found(stored_batch(vec![vec![1], vec![2]])),
        StoreRead::Found(stored_batch(vec![])),
        StoreRead::Found(stored_batch(vec![vec![3]])),
    ];
    let plan = Engine::plan_certificate(&reads);
    assert_eq!(plan.txs, vec![vec![1], vec![2], vec![3]]);
    assert_eq!(plan.outcome, Ok(3));
}

#[test]
fn plan_of_empty_certificate_mines_empty_block() {
    let plan = Engine::plan_certificate(&vec![]);
    assert!(plan.txs.is_empty());
    assert_eq!(plan.outcome, Ok(0));
}

#[test]
fn plan_stops_at_missing_batch() {
    let reads = vec![
        StoreRead::Found(stored_batch(vec![vec![1]])),
        StoreRead::Missing,
        StoreRead::Found(stored_batch(vec![vec![2]])),
    ];
    let plan = Engine::plan_certificate(&reads);
    assert_eq!(plan.txs, vec![vec![1]]);
    assert_eq!(plan.outcome, Err(BatchFailure { index: 1, reason: FailureReason::NotFound }));
}

#[test]
fn plan_stops_at_store_failure() {
    let reads = vec![StoreRead::Failed("corruption".to_string()), StoreRead::Missing];
    let plan = Engine::plan_certificate(&reads);
    assert!(plan.txs.is_empty());
    assert_eq!(plan.outcome, Err(BatchFailure { index: 0, reason: FailureReason::Store }));
}

#[test]
fn plan_stops_at_unrecognized_batch() {
    let reads = vec![
        StoreRead::Found(stored_batch(vec![vec![1], vec![2]])),
        StoreRead::Found(stored_batch(vec![vec![3]])),
        StoreRead::Found(vec![1, 2, 3]),
    ];
    let plan = Engine::plan_certificate(&reads);
    assert_eq!(plan.txs, vec![vec![1], vec![2], vec![3]]);
    assert_eq!(plan.outcome, Err(BatchFailure { index: 2, reason: FailureReason::UnrecognizedFormat }));
}

#[test]
fn same_batches_give_same_plan() {
    let make = || vec![StoreRead::Found(stored_batch(vec![vec![5, 5], vec![6]])), StoreRead::Missing];
    let a = Engine::plan_certificate(&make());
    let b = Engine::plan_certificate(&make());
    assert_eq!(a.txs, b.txs);
    assert_eq!(a.outcome, b.outcome);
}

#[test]
fn mine_request_mines_one_block() {
    assert_eq!(Engine::mine_request(), MineRequest { blocks: 1, interval: 0 });
}

#[test]
fn query_params_reads_string_array() {
    let req = request("eth_getBalance", r#"["0xf39fd6e51aad88f6f4ce6ab8827279cfffb92266","latest"]"#);
    assert_eq!(
        Engine::query_params(&req),
        Ok(vec!["0xf39fd6e51aad88f6f4ce6ab8827279cfffb92266".to_string(), "latest".to_string()])
    );
    assert_eq!(Engine::query_params(&request("eth_accounts", "[]")), Ok(vec![]));
}

#[test]
fn query_params_refuses_other_json() {
    assert_eq!(Engine::query_params(&request("eth_accounts", "")), Err(EngineError::MalformedParams));
    assert_eq!(Engine::query_params(&request("eth_accounts", "[1]")), Err(EngineError::MalformedParams));
    assert_eq!(Engine::query_params(&request("eth_accounts", "{}")), Err(EngineError::MalformedParams));
}

#[test]
fn supported_methods_are_forwarded_unchanged() {
    let cases = [
        (EthMethod::GetBalance, ReplyKind::Quantity),
        (EthMethod::Accounts, ReplyKind::Addresses),
        (EthMethod::BlockNumber, ReplyKind::Quantity),
        (EthMethod::GasPrice, ReplyKind::Quantity),
        (EthMethod::Sign, ReplyKind::Signature),
        (EthMethod::GetTransactionCount, ReplyKind::Quantity),
        (EthMethod::GetUncleCountByNumber, ReplyKind::Quantity),
        (EthMethod::GetUncleCountByHash, ReplyKind::Quantity),
    ];
    for (method, kind) in cases {
        let req = request("eth_x", r#"["a"]"#);
        match Engine::route_query(&req, vec!["a".to_string()], Some(method)) {
            QueryRoute::Forward { method, params, reply } => {
                assert_eq!(method, "eth_x");
                assert_eq!(params, vec!["a".to_string()]);
                assert_eq!(reply, kind);
            }
            _ => panic!("not forwarded"),
        }
    }
}

#[test]
fn unknown_request_gets_no_reply() {
    let req = request("eth_nonsense", "[]");
    assert!(matches!(Engine::route_query(&req, vec![], None), QueryRoute::NoReply));
}

#[test]
fn other_evm_methods_are_forwarded_as_json() {
    let req = request("eth_chainId", "[]");
    match Engine::route_query(&req, vec![], Some(EthMethod::Other)) {
        QueryRoute::Forward { method, params, reply } => {
            assert_eq!(method, "eth_chainId");
            assert!(params.is_empty());
            assert_eq!(reply, ReplyKind::Json);
        }
        _ => panic!("not forwarded"),
    }
}

#[test]
fn state_changing_methods_are_refused() {
    for method in [
        "eth_sendTransaction",
        "eth_sendRawTransaction",
        "eth_sendUnsignedTransaction",
        "anvil_mine",
        "anvil_setBalance",
        "evm_mine",
        "evm_snapshot",
        "hardhat_impersonateAccount",
        "miner_start",
    ] {
        let req = request(method, "[]");
        assert!(matches!(Engine::route_query(&req, vec![], Some(EthMethod::Other)), QueryRoute::Refused), "{}", method);
    }
}

#[test]
fn read_only_look_alikes_are_forwarded() {
    for method in ["eth_sendTransactionX", "eth_call", "eth_getCode", "anvil", "evm"] {
        let req = request(method, "[]");
        assert!(matches!(Engine::route_query(&req, vec![], Some(EthMethod::Other)), QueryRoute::Forward { .. }), "{}", method);
    }
}

#[test]
fn rpc_request_clone_keeps_fields() {
    let req = request("m", "p");
    let copy = req.clone();
    assert_eq!(copy.method, "m");
    assert_eq!(copy.params, "p");
}

#[test]
fn from_tagged_accepts_only_the_batch_variant() {
    assert!(matches!(WorkerMessage::from_tagged(0, vec![vec![1]]), Some(WorkerMessage::Batch(t)) if t == vec![vec![1]]));
    assert!(WorkerMessage::from_tagged(1, vec![vec![1]]).is_none());
    assert!(WorkerMessage::from_tagged(u32::MAX, vec![]).is_none());
}

#[test]
fn store_read_content() {
    assert_eq!(StoreRead::Found(stored_batch(vec![vec![4]])).content(), Ok(vec![vec![4]]));
    assert_eq!(StoreRead::Found(vec![9]).content(), Err(FailureReason::UnrecognizedFormat));
    assert_eq!(StoreRead::Missing.content(), Err(FailureReason::NotFound));
    assert_eq!(StoreRead::Failed("x".to_string()).content(), Err(FailureReason::Store));
}

#[test]
fn plan_batches_concatenates_until_first_failure() {
    let plan = Engine::plan_batches(vec![
        Ok(vec![vec![1], vec![2]]),
        Ok(vec![vec![3]]),
        Err(FailureReason::Store),
        Ok(vec![vec![4]]),
        Err(FailureReason::NotFound),
    ]);
    assert_eq!(plan.txs, vec![vec![1], vec![2], vec![3]]);
    assert_eq!(plan.outcome, Err(BatchFailure { index: 2, reason: FailureReason::Store }));
}

#[test]
fn plan_batches_counts_every_transaction() {
    let plan = Engine::plan_batches(vec![Ok(vec![vec![1]; 5]), Ok(vec![]), Ok(vec![vec![2]; 3])]);
    assert_eq!(plan.txs.len(), 8);
    assert_eq!(plan.outcome, Ok(8));
}

#[test]
fn decode_reads_the_fixed_width_layout() {
    // tag 0, two byte strings: [0xaa] and []
    let bytes = [0, 0, 0, 0, 2, 0, 0, 0, 0, 0, 0, 0, 1, 0, 0, 0, 0, 0, 0, 0, 0xaa, 0, 0, 0, 0, 0, 0, 0, 0];
    assert!(matches!(WorkerMessage::decode(&bytes), Some(WorkerMessage::Batch(t)) if t == vec![vec![0xaa], vec![]]));
    assert!(matches!(WorkerMessage::decode(&[0u8; 12]), Some(WorkerMessage::Batch(t)) if t.is_empty()));
    // one byte short of the second string's length
    assert!(WorkerMessage::decode(&bytes[..bytes.len() - 1]).is_none());
}

#[test]
fn transaction_request_reads_delivered_json() {
    let tx = br#"{"from":"0xf39fd6e51aad88f6f4ce6ab8827279cfffb92266","to":"0x70997970c51812dc3a010c7d01b50e0d17dc79c8","value":"0xde0b6b3a7640000","gas":"0x5208"}"#.to_vec();
    let request = Engine::transaction_request(&tx).unwrap();
    assert_eq!(request.gas, Some(21000u64.into()));
    assert!(Engine::transaction_request(&b"not json".to_vec()).is_none());
    assert!(Engine::transaction_request(&b"[1,2]".to_vec()).is_none());
}

#[test]
fn run_log_follows_certificates_and_queries() {
    let mut log = RunLog::new();
    let plan = log.on_certificate(&vec![StoreRead::Found(stored_batch(vec![vec![1], vec![2]]))]);
    assert_eq!(plan.txs, vec![vec![1], vec![2]]);
    assert_eq!(plan.outcome, Ok(2));
    assert!(!log.stopped);
    let route = log.on_query(&request("eth_sendRawTransaction", "[]"), vec![], Some(EthMethod::Other));
    assert!(matches!(route, QueryRoute::Refused));
    log.on_malformed_query(&request("eth_call", "{"));
    assert!(matches!(log.on_query(&request("eth_blockNumber", "[]"), vec![], Some(EthMethod::BlockNumber)),
        QueryRoute::Forward { reply: ReplyKind::Quantity, .. }));
    let failed = log.on_certificate(&vec![StoreRead::Missing]);
    assert_eq!(failed.outcome, Err(BatchFailure { index: 0, reason: FailureReason::NotFound }));
    assert!(log.stopped);
}
