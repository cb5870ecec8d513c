use weld::client::{
    accounts_from_reply, accounts_reply, balance_from_reply, quantity_reply, transfer_text, transfer_text_with_nonce,
};
use weld::units::Wei;

#[test]
fn balance_reads_a_hex_quantity() {
    assert_eq!(balance_from_reply(b"\"0x14d1120d7b160000\"").unwrap().limbs, [1_500_000_000_000_000_000, 0, 0, 0]);
    assert_eq!(balance_from_reply(b"\"0x0\"").unwrap().limbs, [0, 0, 0, 0]);
    assert_eq!(
        balance_from_reply(b"\"0x10000000000000000\"").unwrap().limbs,
        [0, 1, 0, 0]
    );
}

#[test]
fn balance_refuses_other_bodies() {
    assert!(balance_from_reply(b"").is_none());
    assert!(balance_from_reply(b"[\"0x1\"]").is_none());
    assert!(balance_from_reply(b"\"hello\"").is_none());
}

#[test]
fn accounts_read_a_list_of_addresses() {
    let body = br#"["0xf39fd6e51aad88f6f4ce6ab8827279cfffb92266","0x70997970c51812dc3a010c7d01b50e0d17dc79c8"]"#;
    let accounts = accounts_from_reply(body).unwrap();
    assert_eq!(accounts.len(), 2);
    assert_eq!(accounts[0][0], 0xf3);
    assert_eq!(accounts[0][19], 0x66);
    assert_eq!(accounts[1][..2], [0x70, 0x99]);
    assert_eq!(accounts_from_reply(b"[]").unwrap(), Vec::<[u8; 20]>::new());
}

#[test]
fn accounts_refuse_other_bodies() {
    assert!(accounts_from_reply(b"{}").is_none());
    assert!(accounts_from_reply(b"[\"0x12\"]").is_none());
}

fn addr(first: u8) -> [u8; 20] {
    let mut a = [0u8; 20];
    a[0] = first;
    a[19] = 0x01;
    a
}

#[test]
fn transfer_text_is_a_plain_transfer() {
    let text = transfer_text(addr(0xf3), addr(0x70), &Wei { limbs: [1_000_000_000_000_000_000, 0, 0, 0] });
    let v: serde_json::Value = serde_json::from_str(&text).unwrap();
    assert_eq!(v["from"], "0xf300000000000000000000000000000000000001");
    assert_eq!(v["to"], "0x7000000000000000000000000000000000000001");
    assert_eq!(v["value"], "0xde0b6b3a7640000");
    assert_eq!(v["gas"], "0x5208");
    assert!(v.get("nonce").is_none());
}

#[test]
fn transfer_text_with_nonce_carries_gas_and_nonce() {
    let text = transfer_text_with_nonce(addr(1), addr(2), &Wei { limbs: [30, 0, 0, 0] }, 21_005, 5);
    let v: serde_json::Value = serde_json::from_str(&text).unwrap();
    assert_eq!(v["value"], "0x1e");
    assert_eq!(v["gas"], "0x520d");
    assert_eq!(v["nonce"], "0x5");
}

#[test]
fn quantity_reply_reads_back() {
    for limbs in [[0, 0, 0, 0], [1_500_000_000_000_000_000, 0, 0, 0], [0, 1, 0, 0], [u64::MAX; 4]] {
        let body = quantity_reply(&Wei { limbs });
        assert_eq!(balance_from_reply(&body).unwrap().limbs, limbs);
    }
    assert_eq!(quantity_reply(&Wei { limbs: [0, 0, 0, 0] }), b"\"0x0\"".to_vec());
}

#[test]
fn accounts_reply_reads_back_in_order() {
    let accounts = vec![addr(0xf3), addr(0x70), [0u8; 20], [0xff; 20]];
    let body = accounts_reply(&accounts);
    assert_eq!(accounts_from_reply(&body).unwrap(), accounts);
    assert_eq!(accounts_from_reply(&accounts_reply(&vec![])).unwrap(), Vec::<[u8; 20]>::new());
}

#[test]
fn balance_params_list_address_and_latest() {
    let text = weld::client::latest_balance_params(addr(0xab));
    assert_eq!(text, "[\"0xab00000000000000000000000000000000000001\",\"latest\"]");
    let req = weld::types::RpcRequest { method: "eth_getBalance".to_string(), params: text };
    assert_eq!(
        weld::engine::Engine::query_params(&req).unwrap(),
        vec!["0xab00000000000000000000000000000000000001".to_string(), "latest".to_string()]
    );
}

#[test]
fn accounts_params_are_empty() {
    assert_eq!(weld::client::accounts_params(), "[]");
}

#[test]
fn balance_params_take_the_block_tag() {
    assert_eq!(
        weld::client::balance_params([0u8; 20], "earliest"),
        "[\"0x0000000000000000000000000000000000000000\",\"earliest\"]"
    );
}

#[test]
fn signature_reply_is_hex() {
    let mut sig = [0u8; 65];
    sig[0] = 0xab;
    sig[64] = 0x1b;
    let body = weld::client::signature_reply(&sig);
    let text = String::from_utf8(body).unwrap();
    assert_eq!(text.len(), 2 + 2 + 130);
    assert!(text.starts_with("\"0xab"));
    assert!(text.ends_with("1b\""));
}

#[test]
fn transfer_text_is_accepted_by_the_engine() {
    let text = transfer_text(addr(0xf3), addr(0x70), &Wei { limbs: [5, 0, 0, 0] });
    let request = weld::engine::Engine::transaction_request(&text.as_bytes().to_vec()).unwrap();
    assert_eq!(request.value, Some(5u64.into()));
    assert_eq!(request.gas, Some(21000u64.into()));
    assert_eq!(request.nonce, None);
    assert_eq!(request.from, Some(ethereum_types::H160(addr(0xf3))));
}

#[test]
fn transfers_with_different_nonces_differ() {
    let a = transfer_text_with_nonce(addr(1), addr(2), &Wei { limbs: [7, 0, 0, 0] }, 21_000, 0);
    let b = transfer_text_with_nonce(addr(1), addr(2), &Wei { limbs: [7, 0, 0, 0] }, 21_000, 1);
    assert_ne!(a, b);
}
