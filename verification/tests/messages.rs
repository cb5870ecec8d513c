use tokio_util::codec::Decoder;
use weld::messages::{compose_reply, BroadcastTxQuery};

fn query(tx: &str) -> BroadcastTxQuery {
    BroadcastTxQuery { tx: tx.to_string() }
}

#[test]
fn frame_prefixes_big_endian_length() {
    let frame = query("abc").frame().unwrap();
    assert_eq!(frame, vec![0, 0, 0, 3, b'a', b'b', b'c']);
}

#[test]
fn frame_counts_utf8_bytes() {
    let frame = query("é").frame().unwrap();
    assert_eq!(frame, vec![0, 0, 0, 2, 0xc3, 0xa9]);
}

#[test]
fn frame_of_empty_transaction() {
    assert_eq!(query("").frame().unwrap(), vec![0, 0, 0, 0]);
}

#[test]
fn frame_at_the_limit_is_accepted() {
    let tx = "x".repeat(8 * 1024 * 1024);
    let frame = query(&tx).frame().unwrap();
    assert_eq!(&frame[..4], &[0, 0x80, 0, 0]);
    assert_eq!(frame.len(), 4 + 8 * 1024 * 1024);
}

#[test]
fn frame_over_the_limit_is_refused() {
    let tx = "x".repeat(8 * 1024 * 1024 + 1);
    let err = query(&tx).frame().unwrap_err();
    assert_eq!(err.message, "frame size too big");
}

#[test]
fn reply_after_send() {
    assert_eq!(query("abc").reply(Ok(())), "broadcast_tx: BroadcastTxQuery { tx: \"abc\" }");
}

#[test]
fn reply_after_failed_send() {
    assert_eq!(
        query("abc").reply(Err("broken pipe")),
        "ERROR IN: broadcast_tx: BroadcastTxQuery { tx: \"abc\" }. Err: broken pipe"
    );
}

#[test]
fn reply_escapes_the_transaction() {
    assert_eq!(
        query("{\"to\":\"0x1\"}\n").reply(Ok(())),
        "broadcast_tx: BroadcastTxQuery { tx: \"{\\\"to\\\":\\\"0x1\\\"}\\n\" }"
    );
}

#[test]
fn reply_matches_derived_debug() {
    let q = query("tab\there");
    assert_eq!(q.reply(Ok(())), format!("broadcast_tx: {:?}", q));
}

#[test]
fn frame_reads_back_with_the_mempool_codec() {
    let tx = "{\"from\":\"0xf39f\",\"value\":\"0x1\"}";
    let frame = query(tx).frame().unwrap();
    let mut buf = bytes::BytesMut::from(&frame[..]);
    let mut codec = tokio_util::codec::LengthDelimitedCodec::new();
    let payload = codec.decode(&mut buf).unwrap().unwrap();
    assert_eq!(&payload[..], tx.as_bytes());
    assert!(buf.is_empty());
}

#[test]
fn compose_reply_places_the_quoted_transaction() {
    assert_eq!(compose_reply("\"t\"", Ok(())), "broadcast_tx: BroadcastTxQuery { tx: \"t\" }");
    assert_eq!(
        compose_reply("\"t\"", Err("refused")),
        "ERROR IN: broadcast_tx: BroadcastTxQuery { tx: \"t\" }. Err: refused"
    );
}
