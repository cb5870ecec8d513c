//! The queries of the RPC shim's HTTP routes, and what the `broadcast_tx` route sends and answers.
use vstd::prelude::*;
use vstd::utf8::encode_utf8;

verus! {

/// The query of the `broadcast_tx` route: a transaction to hand to the mempool.
#[derive(Debug)]
pub struct BroadcastTxQuery {
    pub tx: String,
}

/// The query of an ABCI `abci_query` request.
#[derive(Debug)]
pub struct AbciQueryQuery {
    pub path: String,
    pub data: String,
    pub height: Option<usize>,
    pub prove: Option<bool>,
}

/// A transaction could not be framed for the mempool; `message` is the codec's error text.
#[derive(Debug)]
pub struct FrameError {
    pub message: String,
}

/// The largest payload the mempool's length-delimited framing accepts (8 MiB).
pub open spec fn max_frame_len() -> nat {
    8 * 1024 * 1024
}

/// The four big-endian bytes of a length below 2^32.
pub open spec fn be_u32_bytes(n: nat) -> Seq<u8> {
    seq![
        ((n / 0x100_0000) % 0x100) as u8,
        ((n / 0x1_0000) % 0x100) as u8,
        ((n / 0x100) % 0x100) as u8,
        (n % 0x100) as u8,
    ]
}

/// A length-delimited frame: the payload's length in four big-endian bytes, then the payload.
pub open spec fn frame_of(payload: Seq<u8>) -> Seq<u8> {
    be_u32_bytes(payload.len()) + payload
}

/// The length that four big-endian bytes carry.
pub open spec fn be_u32_value(b: Seq<u8>) -> nat {
    (b[0] * 0x100_0000 + b[1] * 0x1_0000 + b[2] * 0x100 + b[3]) as nat
}

/// A receiver of a frame gets the payload back: the first four bytes carry the payload's
/// length and the rest is the payload.
pub proof fn lemma_frame_reads_back(payload: Seq<u8>)
    requires
        payload.len() <= max_frame_len(),
    ensures
        be_u32_value(frame_of(payload).subrange(0, 4)) == payload.len(),
        frame_of(payload).subrange(4, frame_of(payload).len() as int) == payload,
{
    let f = frame_of(payload);
    let x = payload.len() as u32;
    assert(f.subrange(4, f.len() as int) =~= payload);
    assert(f.subrange(0, 4) =~= be_u32_bytes(payload.len()));
    assert(((x / 0x100_0000) % 0x100) * 0x100_0000 + ((x / 0x1_0000) % 0x100) * 0x1_0000
        + ((x / 0x100) % 0x100) * 0x100 + x % 0x100 == x) by (bit_vector);
}

/// Names what `format!("{:?}", s)` writes for a string `s`: the quoted, escaped string.
pub uninterp spec fn str_debug(s: Seq<char>) -> Seq<char>;

/// What the derived `Debug` writes for a broadcast query.
pub open spec fn broadcast_debug(tx: Seq<char>) -> Seq<char> {
    "BroadcastTxQuery { tx: "@ + str_debug(tx) + " }"@
}

/// The `broadcast_tx` route's answer: the query, and the error if sending failed.
pub open spec fn broadcast_reply_text(tx: Seq<char>, sent: Result<(), Seq<char>>) -> Seq<char> {
    match sent {
        Ok(()) => "broadcast_tx: "@ + broadcast_debug(tx),
        Err(e) => "ERROR IN: broadcast_tx: "@ + broadcast_debug(tx) + ". Err: "@ + e,
    }
}

/// Calls `Encoder::<&[u8]>::encode` of `tokio_util::codec::LengthDelimitedCodec::new()` and
/// hands out the error's `Display` text. `LengthDelimitedCodec::encode` refuses payloads
/// longer than its default maximum of 8 MiB with an `io::Error` wrapping
/// `LengthDelimitedCodecError`, whose text is "frame size too big" (with no length adjustment
/// it has no other error); otherwise it writes the length in 4 big-endian bytes followed by
/// the payload.
#[verifier::external_body]
fn length_delimited_encode(data: &[u8]) -> (r: Result<Vec<u8>, String>)
    ensures
        (r is Ok) == (data@.len() <= max_frame_len()),
        r is Ok ==> r->Ok_0@ == frame_of(data@),
        r is Err ==> r->Err_0@ == "frame size too big"@,
{
    let mut codec = tokio_util::codec::LengthDelimitedCodec::new();
    let mut dst = bytes::BytesMut::new();
    match tokio_util::codec::Encoder::<&[u8]>::encode(&mut codec, data, &mut dst) {
        Ok(()) => Ok(dst.to_vec()),
        Err(e) => Err(e.to_string()),
    }
}

/// Calls `format!("{:?}", s)` on a string.
#[verifier::external_body]
fn debug_str(s: &str) -> (r: String)
    ensures
        r@ == str_debug(s@),
{
    format!("{:?}", s)
}

impl BroadcastTxQuery {
    /// The bytes sent to the mempool for this transaction: its UTF-8 text in one
    /// length-delimited frame, or the codec's error ("frame size too big") where the text is
    /// longer than 8 MiB.
    pub fn frame(&self) -> (r: Result<Vec<u8>, FrameError>)
        ensures
            (r is Ok) == (encode_utf8(self.tx@).len() <= max_frame_len()),
            r matches Ok(bytes) ==> bytes@ == frame_of(encode_utf8(self.tx@)),
            r matches Err(e) ==> e.message@ == "frame size too big"@,
    {
        match length_delimited_encode(self.tx.as_str().as_bytes()) {
            Ok(bytes) => Ok(bytes),
            Err(message) => Err(FrameError { message }),
        }
    }

    /// The route's answer once the transaction was sent (`Ok`) or failed to send (`Err`,
    /// with the error's text).
    pub fn reply(&self, sent: Result<(), &str>) -> (r: String)
        ensures
            r@ == broadcast_reply_text(self.tx@, match sent { Ok(()) => Ok(()), Err(e) => Err(e@) }),
    {
        let quoted = debug_str(self.tx.as_str());
        compose_reply(quoted.as_str(), sent)
    }
}

/// The `broadcast_tx` answer for a query whose transaction is written `quoted` (quoted and
/// escaped), once sent (`Ok`) or failed to send (`Err`, with the error's text).
pub fn compose_reply(quoted: &str, sent: Result<(), &str>) -> (r: String)
    ensures
        r@ == match sent {
            Ok(()) => "broadcast_tx: "@ + "BroadcastTxQuery { tx: "@ + quoted@ + " }"@,
            Err(e) => "ERROR IN: broadcast_tx: "@ + "BroadcastTxQuery { tx: "@ + quoted@ + " }"@ + ". Err: "@ + e@,
        },
{
    let mut text = match sent {
        Ok(()) => String::from_str("broadcast_tx: "),
        Err(_) => String::from_str("ERROR IN: broadcast_tx: "),
    };
    text.append("BroadcastTxQuery { tx: ");
    text.append(quoted);
    text.append(" }");
    if let Err(e) = sent {
        text.append(". Err: ");
        text.append(e);
    }
    text
}

} // verus!
