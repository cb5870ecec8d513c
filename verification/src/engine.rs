//! The engine's decisions: where a worker's batches are stored, how a certificate's
//! batches become transactions and a block, and how a query is answered.
use vstd::prelude::*;
use crate::decimal::{decimal, decimal_value, is_digit, push_decimal};
use crate::types::RpcRequest;
use crate::methods::{changes_state, method_changes_state};

verus! {

/// A transaction as the workers store it: opaque bytes.
pub type Transaction = Vec<u8>;

/// A batch of transactions.
pub type Batch = Vec<Transaction>;

/// The message a worker stores under a batch's digest.
pub enum WorkerMessage {
    Batch(Batch),
}

/// Why a batch of a certificate could not be delivered.
#[derive(Clone, Copy, Debug, PartialEq, Eq, Structural)]
pub enum FailureReason {
    /// The worker's store holds nothing under the batch's digest.
    NotFound,
    /// The worker's store could not be opened or read.
    Store,
    /// The stored bytes are not a worker batch.
    UnrecognizedFormat,
}

/// The first batch of a certificate that could not be delivered, by its position in the payload.
#[derive(Clone, Copy, Debug, PartialEq, Eq, Structural)]
pub struct BatchFailure {
    pub index: usize,
    pub reason: FailureReason,
}

/// What reading a batch from its worker's store gave.
pub enum StoreRead {
    /// The bytes stored under the digest.
    Found(Vec<u8>),
    /// Nothing is stored under the digest.
    Missing,
    /// The store failed, with its message.
    Failed(String),
}

/// What the engine does with a certificate: deliver `txs` in order, then mine one block
/// holding them (`outcome` counts them), or stop with the failure.
pub struct CertificatePlan {
    pub txs: Vec<Transaction>,
    pub outcome: Result<usize, BatchFailure>,
}

/// Why a query is not answered.
#[derive(Clone, Copy, Debug, PartialEq, Eq, Structural)]
pub enum EngineError {
    /// A query's `params` is not a JSON array of strings.
    MalformedParams,
}

/// The methods a query may name, as the EVM's request type recognised them.
#[derive(Clone, Copy, Debug, PartialEq, Eq, Structural)]
pub enum EthMethod {
    GetBalance,
    Accounts,
    BlockNumber,
    GasPrice,
    Sign,
    GetTransactionCount,
    GetUncleCountByNumber,
    GetUncleCountByHash,
    /// Any other method of the EVM's interface.
    Other,
}

/// The type of the EVM's answer to a forwarded query.
#[derive(Clone, Copy, Debug, PartialEq, Eq, Structural)]
pub enum ReplyKind {
    /// A 256-bit quantity.
    Quantity,
    /// A list of addresses.
    Addresses,
    /// A signature.
    Signature,
    /// Any JSON value, passed back as the EVM wrote it.
    Json,
}

/// What the engine does with a query.
pub enum QueryRoute {
    /// Ask the EVM `method` with `params` and send back its answer, read as `reply`.
    Forward { method: String, params: Vec<String>, reply: ReplyKind },
    /// Send nothing back: the request is not one the EVM understands.
    NoReply,
    /// Send nothing back and ask the EVM nothing: the method would change the EVM's state
    /// outside consensus.
    Refused,
}

/// The store path and the decisions of the engine.
pub struct Engine {
    pub store_path: String,
}

/// The database path of worker `id` of the primary whose store is at `store_path`.
pub open spec fn worker_db_path(store_path: Seq<char>, id: nat) -> Seq<char> {
    store_path + seq!['-'] + decimal(id)
}

/// The little-endian unsigned integer of the `n` bytes at `pos`.
pub open spec fn le_uint(b: Seq<u8>, pos: int, n: nat) -> nat
    decreases n,
{
    if n == 0 {
        0
    } else {
        (b[pos] + 256 * le_uint(b, pos + 1, (n - 1) as nat)) as nat
    }
}

/// `count` byte strings in bincode's fixed-width layout from `pos` on: each is its length as
/// a little-endian `u64`, then its bytes; `None` where the bytes run out.
pub open spec fn bincode_byte_strings(b: Seq<u8>, pos: int, count: nat) -> Option<Seq<Seq<u8>>>
    decreases count,
{
    if count == 0 {
        Some(seq![])
    } else if pos + 8 > b.len() {
        None
    } else {
        let len = le_uint(b, pos, 8);
        if pos + 8 + len > b.len() {
            None
        } else {
            match bincode_byte_strings(b, pos + 8 + len, (count - 1) as nat) {
                Some(rest) => Some(seq![b.subrange(pos + 8, pos + 8 + len)] + rest),
                None => None,
            }
        }
    }
}

/// What `bincode::deserialize::<(u32, Vec<Vec<u8>>)>` reads from `bytes`: a little-endian
/// `u32`, then the number of byte strings as a little-endian `u64`, then the byte strings;
/// bytes after them are ignored.
pub open spec fn bincode_tagged_batch(bytes: Seq<u8>) -> Option<(u32, Seq<Seq<u8>>)> {
    if bytes.len() < 12 {
        None
    } else {
        match bincode_byte_strings(bytes, 12, le_uint(bytes, 4, 8)) {
            Some(items) => Some((le_uint(bytes, 0, 4) as u32, items)),
            None => None,
        }
    }
}

/// Names what `serde_json::from_str::<Vec<String>>` returns on `text`.
pub uninterp spec fn json_string_array(text: Seq<char>) -> Option<Seq<Seq<char>>>;

/// The transactions of a stored worker message: a bincode variant index, which must be
/// that of `WorkerMessage::Batch`, followed by the batch.
pub open spec fn worker_batch(bytes: Seq<u8>) -> Option<Seq<Seq<u8>>> {
    match bincode_tagged_batch(bytes) {
        Some(decoded) => if decoded.0 == 0 { Some(decoded.1) } else { None },
        None => None,
    }
}

/// What a batch read gives: its transactions, or why there are none.
pub open spec fn read_content(r: StoreRead) -> Result<Seq<Seq<u8>>, FailureReason> {
    match r {
        StoreRead::Found(bytes) => match worker_batch(bytes@) {
            Some(txs) => Ok(txs),
            None => Err(FailureReason::UnrecognizedFormat),
        },
        StoreRead::Missing => Err(FailureReason::NotFound),
        StoreRead::Failed(_) => Err(FailureReason::Store),
    }
}

/// A batch's content as values.
pub open spec fn content_view(c: Result<Batch, FailureReason>) -> Result<Seq<Seq<u8>>, FailureReason> {
    match c {
        Ok(b) => Ok(b.deep_view()),
        Err(f) => Err(f),
    }
}

/// The plan for the batches from position `i` on: the transactions to deliver, and the
/// first failure, if any.
pub open spec fn plan_from(contents: Seq<Result<Seq<Seq<u8>>, FailureReason>>, i: int) -> (Seq<Seq<u8>>, Option<BatchFailure>)
    decreases contents.len() - i,
{
    if i < 0 || i >= contents.len() {
        (seq![], None)
    } else {
        match contents[i] {
            Err(reason) => (seq![], Some(BatchFailure { index: i as usize, reason })),
            Ok(txs) => {
                let rest = plan_from(contents, i + 1);
                (txs + rest.0, rest.1)
            },
        }
    }
}

/// The plan for a certificate whose batches hold `contents`, in payload order.
pub open spec fn batches_plan(contents: Seq<Result<Seq<Seq<u8>>, FailureReason>>) -> (Seq<Seq<u8>>, Option<BatchFailure>) {
    plan_from(contents, 0)
}

/// The plan for a certificate whose batches were read as `reads`, in payload order.
pub open spec fn certificate_plan(reads: Seq<StoreRead>) -> (Seq<Seq<u8>>, Option<BatchFailure>) {
    batches_plan(reads.map_values(|r: StoreRead| read_content(r)))
}

/// The transactions of the first `k` batches, concatenated.
pub open spec fn txs_before(contents: Seq<Result<Seq<Seq<u8>>, FailureReason>>, k: int) -> Seq<Seq<u8>>
    decreases k,
{
    if k <= 0 || k > contents.len() {
        seq![]
    } else {
        txs_before(contents, k - 1) + contents[k - 1]->Ok_0
    }
}

/// Calls `bincode::deserialize::<(u32, Vec<Vec<u8>>)>`. `bincode::deserialize` uses fixed-width
/// little-endian integers and allows trailing bytes; a sequence is its length as a `u64` then
/// its items. This pair is laid out as `WorkerMessage::Batch` is: the variant index as a
/// `u32`, then the batch.
#[verifier::external_body]
fn bincode_deserialize_tagged_batch(bytes: &[u8]) -> (r: Result<(u32, Vec<Vec<u8>>), Box<bincode::ErrorKind>>)
    ensures
        (r is Ok) == (bincode_tagged_batch(bytes@) is Some),
        r is Ok ==> bincode_tagged_batch(bytes@) == Some((r->Ok_0.0, r->Ok_0.1.deep_view())),
{
    bincode::deserialize::<(u32, Vec<Vec<u8>>)>(bytes)
}

/// Calls `serde_json::from_str::<Vec<String>>`.
#[verifier::external_body]
fn json_from_str_string_array(text: &str) -> (r: Result<Vec<String>, serde_json::Error>)
    ensures
        (r is Ok) == (json_string_array(text@) is Some),
        r is Ok ==> json_string_array(text@) == Some(r->Ok_0.deep_view()),
{
    serde_json::from_str::<Vec<String>>(text)
}

/// Names whether `serde_json::from_slice::<TransactionRequest>` accepts `bytes`.
pub uninterp spec fn json_transaction_ok(bytes: Seq<u8>) -> bool;

/// Names the transaction request that `serde_json::from_slice::<TransactionRequest>` reads
/// from `bytes` where it accepts them.
pub uninterp spec fn json_transaction(bytes: Seq<u8>) -> ethers_core::types::TransactionRequest;

/// Calls `serde_json::from_slice::<ethers_core::types::TransactionRequest>`.
#[verifier::external_body]
fn json_from_slice_transaction_request(bytes: &[u8]) -> (r: Result<ethers_core::types::TransactionRequest, serde_json::Error>)
    ensures
        (r is Ok) == json_transaction_ok(bytes@),
        r is Ok ==> r->Ok_0 == json_transaction(bytes@),
{
    serde_json::from_slice::<ethers_core::types::TransactionRequest>(bytes)
}

impl StoreRead {
    /// Classifies a lookup in a worker's store: the stored bytes, nothing, or the store's error.
    pub fn from_lookup(lookup: Result<Option<Vec<u8>>, String>) -> (r: StoreRead)
        ensures
            match lookup {
                Ok(Some(bytes)) => r matches StoreRead::Found(b) && b@ == bytes@,
                Ok(None) => r is Missing,
                Err(e) => r matches StoreRead::Failed(m) && m@ == e@,
            },
    {
        match lookup {
            Ok(Some(bytes)) => StoreRead::Found(bytes),
            Ok(None) => StoreRead::Missing,
            Err(e) => StoreRead::Failed(e),
        }
    }

    /// The transactions of the batch read, or why there are none.
    pub fn content(&self) -> (c: Result<Batch, FailureReason>)
        ensures
            content_view(c) == read_content(*self),
    {
        match self {
            StoreRead::Found(bytes) => match WorkerMessage::decode(bytes.as_slice()) {
                Some(WorkerMessage::Batch(txs)) => Ok(txs),
                None => Err(FailureReason::UnrecognizedFormat),
            },
            StoreRead::Missing => Err(FailureReason::NotFound),
            StoreRead::Failed(_) => Err(FailureReason::Store),
        }
    }
}

impl WorkerMessage {
    /// The worker message with bincode variant index `tag` and contents `txs`: `Batch` has
    /// index 0 and is the only variant.
    pub fn from_tagged(tag: u32, txs: Batch) -> (r: Option<WorkerMessage>)
        ensures
            (r is Some) == (tag == 0),
            r matches Some(WorkerMessage::Batch(b)) ==> b@ == txs@,
    {
        if tag == 0 {
            Some(WorkerMessage::Batch(txs))
        } else {
            None
        }
    }

    /// Decodes a stored worker message; `None` where the bytes are not one.
    pub fn decode(bytes: &[u8]) -> (r: Option<WorkerMessage>)
        ensures
            (r is Some) == (worker_batch(bytes@) is Some),
            r matches Some(WorkerMessage::Batch(txs)) ==> worker_batch(bytes@) == Some(txs.deep_view()),
    {
        match bincode_deserialize_tagged_batch(bytes) {
            Ok(decoded) => {
                let (tag, txs) = decoded;
                Self::from_tagged(tag, txs)
            },
            Err(_) => None,
        }
    }
}

/// The request that commits a certificate: the number of blocks to mine (one, holding all
/// the transactions delivered for the certificate) and the interval between them.
#[derive(Clone, Copy, Debug, PartialEq, Eq, Structural)]
pub struct MineRequest {
    pub blocks: usize,
    pub interval: usize,
}

/// The request type that the EVM's answer to a forwarded method is read as.
pub open spec fn spec_reply_kind(m: EthMethod) -> ReplyKind {
    match m {
        EthMethod::Accounts => ReplyKind::Addresses,
        EthMethod::Sign => ReplyKind::Signature,
        EthMethod::Other => ReplyKind::Json,
        _ => ReplyKind::Quantity,
    }
}

proof fn lemma_plan_prefix(contents: Seq<Result<Seq<Seq<u8>>, FailureReason>>, i: int)
    requires
        0 <= i <= contents.len(),
        forall|j: int| 0 <= j < i ==> #[trigger] contents[j] is Ok,
    ensures
        batches_plan(contents) == (txs_before(contents, i) + plan_from(contents, i).0, plan_from(contents, i).1),
    decreases i,
{
    if i == 0 {
        assert(seq![] + plan_from(contents, 0).0 =~= plan_from(contents, 0).0);
    } else {
        lemma_plan_prefix(contents, i - 1);
        let t = contents[i - 1]->Ok_0;
        assert(txs_before(contents, i - 1) + (t + plan_from(contents, i).0)
            =~= (txs_before(contents, i - 1) + t) + plan_from(contents, i).0);
    }
}

proof fn lemma_plan_failure(contents: Seq<Result<Seq<Seq<u8>>, FailureReason>>, i: int)
    requires
        0 <= i <= contents.len(),
        contents.len() <= usize::MAX,
    ensures
        plan_from(contents, i).1 is None ==> forall|j: int| i <= j < contents.len() ==> #[trigger] contents[j] is Ok,
        plan_from(contents, i).1 matches Some(f) ==> {
            &&& i <= f.index < contents.len()
            &&& contents[f.index as int] == Err::<Seq<Seq<u8>>, FailureReason>(f.reason)
            &&& forall|j: int| i <= j < f.index ==> #[trigger] contents[j] is Ok
        },
    decreases contents.len() - i,
{
    if i < contents.len() {
        lemma_plan_failure(contents, i + 1);
    }
}

/// A certificate's plan delivers the transactions of its batches in payload order, up to the
/// first batch that cannot be read or decoded, and reports that batch; it is committed
/// (one block mined) exactly when no batch fails, and then delivers the transactions of every batch.
pub proof fn lemma_plan_stops_at_first_failure(contents: Seq<Result<Seq<Seq<u8>>, FailureReason>>)
    requires
        contents.len() <= usize::MAX,
    ensures
        batches_plan(contents).1 is None <==> forall|j: int| 0 <= j < contents.len() ==> #[trigger] contents[j] is Ok,
        batches_plan(contents).1 is None ==> batches_plan(contents).0 == txs_before(contents, contents.len() as int),
        batches_plan(contents).1 matches Some(f) ==> {
            &&& f.index < contents.len()
            &&& contents[f.index as int] == Err::<Seq<Seq<u8>>, FailureReason>(f.reason)
            &&& (forall|j: int| 0 <= j < f.index ==> #[trigger] contents[j] is Ok)
            &&& batches_plan(contents).0 == txs_before(contents, f.index as int)
        },
{
    lemma_plan_failure(contents, 0);
    match batches_plan(contents).1 {
        None => {
            lemma_plan_prefix(contents, contents.len() as int);
            assert(txs_before(contents, contents.len() as int) + seq![] =~= txs_before(contents, contents.len() as int));
        },
        Some(f) => {
            lemma_plan_prefix(contents, f.index as int);
            assert(txs_before(contents, f.index as int) + seq![] =~= txs_before(contents, f.index as int));
            assert(!(contents[f.index as int] is Ok));
        },
    }
}

/// Engines that read batches with the same contents for a certificate deliver the same
/// transactions and mine the same block, or stop at the same failure: the ledger advances
/// in lockstep on every node.
pub proof fn lemma_same_contents_same_plan(a: Seq<StoreRead>, b: Seq<StoreRead>)
    requires
        a.len() == b.len(),
        forall|j: int| 0 <= j < a.len() ==> read_content(#[trigger] a[j]) == read_content(b[j]),
    ensures
        certificate_plan(a) == certificate_plan(b),
{
    assert(a.map_values(|r: StoreRead| read_content(r)) =~= b.map_values(|r: StoreRead| read_content(r)));
}

/// What the engine sends the EVM for certificates: a delivered transaction, or a commit.
pub enum EngineAction {
    Deliver(Seq<u8>),
    Mine(MineRequest),
}

/// What the engine sends the EVM for one certificate whose batches were read as `reads`:
/// each planned transaction, then the commit if no batch failed.
pub open spec fn certificate_actions(reads: Seq<StoreRead>) -> Seq<EngineAction> {
    let plan = certificate_plan(reads);
    plan.0.map_values(|t: Seq<u8>| EngineAction::Deliver(t)) + if plan.1 is None {
        seq![EngineAction::Mine(MineRequest { blocks: 1, interval: 0 })]
    } else {
        seq![]
    }
}

/// What the engine sends the EVM over a run on certificates whose batches were read as
/// `certs`, in order: the run stops after the first certificate with a failed batch.
pub open spec fn run_actions(certs: Seq<Seq<StoreRead>>) -> Seq<EngineAction>
    decreases certs.len(),
{
    if certs.len() == 0 {
        seq![]
    } else if certificate_plan(certs[0]).1 is None {
        certificate_actions(certs[0]) + run_actions(certs.drop_first())
    } else {
        certificate_actions(certs[0])
    }
}

/// Engines whose workers' stores hold the same contents for every batch of the same
/// sequence of certificates send their EVMs the same transactions and commits, in the same
/// order: nodes that start in the same state stay in lockstep.
pub proof fn lemma_run_in_lockstep(a: Seq<Seq<StoreRead>>, b: Seq<Seq<StoreRead>>)
    requires
        a.len() == b.len(),
        forall|k: int| 0 <= k < a.len() ==> (#[trigger] a[k]).len() == b[k].len(),
        forall|k: int, j: int| 0 <= k < a.len() && 0 <= j < a[k].len()
            ==> read_content(#[trigger] a[k][j]) == read_content(b[k][j]),
    ensures
        run_actions(a) == run_actions(b),
    decreases a.len(),
{
    if a.len() > 0 {
        assert forall|j: int| 0 <= j < a[0].len() implies read_content(#[trigger] a[0][j]) == read_content(b[0][j]) by {
            assert(read_content(a[0][j]) == read_content(b[0][j]));
        }
        lemma_same_contents_same_plan(a[0], b[0]);
        let a1 = a.drop_first();
        let b1 = b.drop_first();
        assert forall|k: int, j: int| 0 <= k < a1.len() && 0 <= j < a1[k].len()
            implies read_content(#[trigger] a1[k][j]) == read_content(b1[k][j]) by {
            assert(a1[k] == a[k + 1]);
            assert(b1[k] == b[k + 1]);
            assert(read_content(a[k + 1][j]) == read_content(b[k + 1][j]));
        }
        assert forall|k: int| 0 <= k < a1.len() implies (#[trigger] a1[k]).len() == b1[k].len() by {
            assert(a1[k] == a[k + 1]);
        }
        lemma_run_in_lockstep(a1, b1);
    }
}

/// An input of the engine's run.
pub enum RunEvent {
    /// A certificate whose batches were read as these reads.
    Certificate(Seq<StoreRead>),
    /// A query naming a method, with how the EVM's request type recognised it.
    Query(Seq<char>, Option<EthMethod>),
}

/// What the engine asks the EVM: a delivered transaction, a commit, or a forwarded query's
/// method.
pub enum EvmCall {
    Deliver(Seq<u8>),
    Mine(MineRequest),
    Read(Seq<char>),
}

/// Whether `route_query` forwards a query naming `method` to the EVM.
pub open spec fn query_forwarded(method: Seq<char>, recognised: Option<EthMethod>) -> bool {
    recognised is Some && !changes_state(method)
}

/// The calls for one certificate's actions.
pub open spec fn action_call(a: EngineAction) -> EvmCall {
    match a {
        EngineAction::Deliver(t) => EvmCall::Deliver(t),
        EngineAction::Mine(m) => EvmCall::Mine(m),
    }
}

/// What the engine asks the EVM over a run on `events`, in order: each certificate's
/// transactions and commit, and each forwarded query's method; the run stops after the
/// first certificate with a failed batch.
pub open spec fn run_calls(events: Seq<RunEvent>) -> Seq<EvmCall>
    decreases events.len(),
{
    if events.len() == 0 {
        seq![]
    } else {
        match events[0] {
            RunEvent::Certificate(reads) => {
                let calls = certificate_actions(reads).map_values(|a: EngineAction| action_call(a));
                if certificate_plan(reads).1 is None {
                    calls + run_calls(events.drop_first())
                } else {
                    calls
                }
            },
            RunEvent::Query(method, recognised) => {
                if query_forwarded(method, recognised) {
                    seq![EvmCall::Read(method)] + run_calls(events.drop_first())
                } else {
                    run_calls(events.drop_first())
                }
            },
        }
    }
}

/// The calls that change the EVM's state: deliveries and commits, in order.
pub open spec fn state_calls(calls: Seq<EvmCall>) -> Seq<EvmCall>
    decreases calls.len(),
{
    if calls.len() == 0 {
        seq![]
    } else if calls[0] is Read {
        state_calls(calls.drop_first())
    } else {
        seq![calls[0]] + state_calls(calls.drop_first())
    }
}

proof fn lemma_state_calls_add(a: Seq<EvmCall>, b: Seq<EvmCall>)
    ensures
        state_calls(a + b) == state_calls(a) + state_calls(b),
    decreases a.len(),
{
    if a.len() == 0 {
        assert(a + b =~= b);
        assert(seq![] + state_calls(b) =~= state_calls(b));
    } else {
        assert((a + b).drop_first() =~= a.drop_first() + b);
        lemma_state_calls_add(a.drop_first(), b);
        assert((a + b)[0] == a[0]);
        if !(a[0] is Read) {
            assert(seq![a[0]] + (state_calls(a.drop_first()) + state_calls(b))
                =~= (seq![a[0]] + state_calls(a.drop_first())) + state_calls(b));
        }
    }
}

proof fn lemma_state_calls_no_reads(a: Seq<EvmCall>)
    requires
        forall|i: int| 0 <= i < a.len() ==> !(#[trigger] a[i] is Read),
    ensures
        state_calls(a) == a,
    decreases a.len(),
{
    if a.len() > 0 {
        assert(!(a[0] is Read));
        lemma_state_calls_no_reads(a.drop_first());
        assert(seq![a[0]] + a.drop_first() =~= a);
    }
}

/// The certificates among a run's events, in order.
pub open spec fn certificates_of(events: Seq<RunEvent>) -> Seq<Seq<StoreRead>>
    decreases events.len(),
{
    if events.len() == 0 {
        seq![]
    } else {
        match events[0] {
            RunEvent::Certificate(reads) => seq![reads] + certificates_of(events.drop_first()),
            RunEvent::Query(_, _) => certificates_of(events.drop_first()),
        }
    }
}

/// A forwarded query never names a method that changes the EVM's state.
pub proof fn lemma_reads_do_not_change_state(events: Seq<RunEvent>)
    ensures
        forall|i: int| 0 <= i < run_calls(events).len() ==>
            (#[trigger] run_calls(events)[i] matches EvmCall::Read(m) ==> !changes_state(m)),
    decreases events.len(),
{
    if events.len() > 0 {
        lemma_reads_do_not_change_state(events.drop_first());
        let rest = run_calls(events.drop_first());
        match events[0] {
            RunEvent::Certificate(reads) => {
                let calls = certificate_actions(reads).map_values(|a: EngineAction| action_call(a));
                assert forall|i: int| 0 <= i < calls.len() implies !(#[trigger] calls[i] is Read) by {
                    match certificate_actions(reads)[i] {
                        EngineAction::Deliver(_) => {},
                        EngineAction::Mine(_) => {},
                    }
                }
                if certificate_plan(reads).1 is None {
                    assert forall|i: int| 0 <= i < run_calls(events).len() implies
                        (#[trigger] run_calls(events)[i] matches EvmCall::Read(m) ==> !changes_state(m)) by {
                        if i >= calls.len() {
                            assert(run_calls(events)[i] == rest[i - calls.len()]);
                        } else {
                            assert(run_calls(events)[i] == calls[i]);
                        }
                    }
                }
            },
            RunEvent::Query(method, recognised) => {
                if query_forwarded(method, recognised) {
                    assert forall|i: int| 0 <= i < run_calls(events).len() implies
                        (#[trigger] run_calls(events)[i] matches EvmCall::Read(m) ==> !changes_state(m)) by {
                        if i >= 1 {
                            assert(run_calls(events)[i] == rest[i - 1]);
                        }
                    }
                }
            },
        }
    }
}

proof fn lemma_state_calls_of_run(events: Seq<RunEvent>)
    ensures
        state_calls(run_calls(events))
            == run_actions(certificates_of(events)).map_values(|a: EngineAction| action_call(a)),
    decreases events.len(),
{
    if events.len() == 0 {
        assert(run_actions(certificates_of(events)).map_values(|a: EngineAction| action_call(a)) =~= seq![]);
    } else {
        lemma_state_calls_of_run(events.drop_first());
        let rest = events.drop_first();
        match events[0] {
            RunEvent::Certificate(reads) => {
                let calls = certificate_actions(reads).map_values(|a: EngineAction| action_call(a));
                assert forall|i: int| 0 <= i < calls.len() implies !(#[trigger] calls[i] is Read) by {
                    match certificate_actions(reads)[i] {
                        EngineAction::Deliver(_) => {},
                        EngineAction::Mine(_) => {},
                    }
                }
                lemma_state_calls_no_reads(calls);
                let certs = certificates_of(events);
                assert(certs[0] == reads);
                assert(certs.drop_first() =~= certificates_of(rest));
                if certificate_plan(reads).1 is None {
                    lemma_state_calls_add(calls, run_calls(rest));
                    assert(run_actions(certs) == certificate_actions(reads) + run_actions(certs.drop_first()));
                    assert((certificate_actions(reads) + run_actions(certs.drop_first())).map_values(|a: EngineAction| action_call(a))
                        =~= calls + run_actions(certs.drop_first()).map_values(|a: EngineAction| action_call(a)));
                } else {
                    assert(run_actions(certs) == certificate_actions(reads));
                }
            },
            RunEvent::Query(method, recognised) => {
                assert(certificates_of(events) == certificates_of(rest));
                if query_forwarded(method, recognised) {
                    let read = seq![EvmCall::Read(method)];
                    lemma_state_calls_add(read, run_calls(rest));
                    assert(state_calls(read.drop_first()) == Seq::<EvmCall>::empty()) by {
                        assert(read.drop_first() =~= Seq::<EvmCall>::empty());
                    }
                    assert(state_calls(read) =~= Seq::<EvmCall>::empty());
                    assert(Seq::<EvmCall>::empty() + state_calls(run_calls(rest)) =~= state_calls(run_calls(rest)));
                }
            },
        }
    }
}

/// Engines whose workers' stores hold the same contents for every batch of the same
/// certificates send their EVMs the same transactions and commits in the same order,
/// whatever queries each receives: queries never change an EVM's state, so nodes that
/// start in the same state stay in lockstep.
pub proof fn lemma_run_in_lockstep_with_queries(a: Seq<RunEvent>, b: Seq<RunEvent>)
    requires
        certificates_of(a).len() == certificates_of(b).len(),
        forall|k: int| 0 <= k < certificates_of(a).len()
            ==> (#[trigger] certificates_of(a)[k]).len() == certificates_of(b)[k].len(),
        forall|k: int, j: int| 0 <= k < certificates_of(a).len() && 0 <= j < certificates_of(a)[k].len()
            ==> read_content(#[trigger] certificates_of(a)[k][j]) == read_content(certificates_of(b)[k][j]),
    ensures
        state_calls(run_calls(a)) == state_calls(run_calls(b)),
{
    lemma_run_in_lockstep(certificates_of(a), certificates_of(b));
    lemma_state_calls_of_run(a);
    lemma_state_calls_of_run(b);
}

/// A worker's database path is the primary's store path, a hyphen, and then the worker's
/// number written in decimal digits, without leading zeros, that read back as the number.
pub proof fn lemma_worker_db_path_names_worker(store_path: Seq<char>, id: nat)
    ensures
        ({
            let w = worker_db_path(store_path, id);
            let digits = w.subrange(store_path.len() + 1int, w.len() as int);
            &&& w.len() > store_path.len() + 1
            &&& w.subrange(0, store_path.len() as int) == store_path
            &&& w[store_path.len() as int] == '-'
            &&& forall|i: int| 0 <= i < digits.len() ==> is_digit(#[trigger] digits[i])
            &&& (digits.len() > 1 ==> digits[0] != '0')
            &&& decimal_value(digits) == id
        }),
{
    let w = worker_db_path(store_path, id);
    crate::decimal::lemma_decimal_value(id);
    crate::decimal::lemma_decimal_digits(id);
    assert(w.subrange(0, store_path.len() as int) =~= store_path);
    assert(w.subrange(store_path.len() + 1int, w.len() as int) =~= decimal(id));
}

/// A stored message in bincode's layout with `WorkerMessage::Batch`'s variant index (0)
/// decodes to all its transactions, whatever their number and size; any other variant index,
/// or bytes not in the layout, decode to nothing.
pub proof fn lemma_worker_batch_decodes_every_batch(bytes: Seq<u8>)
    ensures
        bincode_tagged_batch(bytes) matches Some(d) ==> worker_batch(bytes) == (if d.0 == 0 {
            Some(d.1)
        } else {
            None::<Seq<Seq<u8>>>
        }),
        bincode_tagged_batch(bytes) is None ==> worker_batch(bytes) is None,
{
}

/// The transactions stored in the first `k` reads, each found batch taken whole from its
/// bincode layout.
pub open spec fn stored_txs(reads: Seq<StoreRead>, k: int) -> Seq<Seq<u8>>
    decreases k,
{
    if k <= 0 || k > reads.len() {
        seq![]
    } else {
        stored_txs(reads, k - 1) + match reads[k - 1] {
            StoreRead::Found(b) => match bincode_tagged_batch(b@) {
                Some(d) => d.1,
                None => seq![],
            },
            _ => seq![],
        }
    }
}

/// Whether a read found a stored message with `WorkerMessage::Batch`'s variant index.
pub open spec fn found_batch(r: StoreRead) -> bool {
    r matches StoreRead::Found(b) && bincode_tagged_batch(b@) matches Some(d) && d.0 == 0
}

proof fn lemma_txs_before_stored(reads: Seq<StoreRead>, k: int)
    requires
        0 <= k <= reads.len(),
        forall|j: int| 0 <= j < reads.len() ==> found_batch(#[trigger] reads[j]),
    ensures
        txs_before(reads.map_values(|r: StoreRead| read_content(r)), k) == stored_txs(reads, k),
    decreases k,
{
    if k > 0 {
        lemma_txs_before_stored(reads, k - 1);
        let cs = reads.map_values(|r: StoreRead| read_content(r));
        assert(found_batch(reads[k - 1]));
        assert(cs[k - 1] == read_content(reads[k - 1]));
    }
}

/// A certificate whose batches were all found in bincode's layout with the batch variant
/// index is committed, and delivers every transaction of every batch: the batches' whole
/// transaction lists, one after the other in payload order.
pub proof fn lemma_certificate_delivers_every_transaction(reads: Seq<StoreRead>)
    requires
        reads.len() <= usize::MAX,
        forall|j: int| 0 <= j < reads.len() ==> found_batch(#[trigger] reads[j]),
    ensures
        certificate_plan(reads).1 is None,
        certificate_plan(reads).0 == stored_txs(reads, reads.len() as int),
{
    let cs = reads.map_values(|r: StoreRead| read_content(r));
    assert forall|j: int| 0 <= j < cs.len() implies #[trigger] cs[j] is Ok by {
        assert(found_batch(reads[j]));
        assert(cs[j] == read_content(reads[j]));
    }
    lemma_plan_stops_at_first_failure(cs);
    lemma_txs_before_stored(reads, reads.len() as int);
}

/// Different workers of a primary have different databases.
pub proof fn lemma_worker_dbs_distinct(store_path: Seq<char>, a: nat, b: nat)
    requires
        a != b,
    ensures
        worker_db_path(store_path, a) != worker_db_path(store_path, b),
{
    if worker_db_path(store_path, a) == worker_db_path(store_path, b) {
        let k = store_path.len() + 1;
        let pa = worker_db_path(store_path, a);
        let pb = worker_db_path(store_path, b);
        assert(pa.subrange(k as int, pa.len() as int) =~= decimal(a));
        assert(pb.subrange(k as int, pb.len() as int) =~= decimal(b));
        crate::decimal::lemma_decimal_injective(a, b);
    }
}

proof fn lemma_deep_view_append(a: Seq<Vec<u8>>, b: Seq<Vec<u8>>)
    ensures
        Seq::new((a + b).len(), |i: int| (a + b)[i].deep_view())
            =~= Seq::new(a.len(), |i: int| a[i].deep_view()) + Seq::new(b.len(), |i: int| b[i].deep_view()),
{
}

/// The calls one event adds to a run that has not stopped.
pub open spec fn event_calls(e: RunEvent) -> Seq<EvmCall> {
    match e {
        RunEvent::Certificate(reads) => certificate_actions(reads).map_values(|a: EngineAction| action_call(a)),
        RunEvent::Query(method, recognised) => if query_forwarded(method, recognised) {
            seq![EvmCall::Read(method)]
        } else {
            seq![]
        },
    }
}

/// Whether a certificate event stops the run: one of its batches failed.
pub open spec fn event_stops(e: RunEvent) -> bool {
    match e {
        RunEvent::Certificate(reads) => certificate_plan(reads).1 is Some,
        RunEvent::Query(_, _) => false,
    }
}

/// Whether no event of a run stopped it.
pub open spec fn runs_on(events: Seq<RunEvent>) -> bool {
    forall|i: int| 0 <= i < events.len() ==> !event_stops(#[trigger] events[i])
}

/// A run that has not stopped continues with an event's calls: the calls of the run after
/// the event are those before it followed by the event's own.
pub proof fn lemma_run_calls_push(events: Seq<RunEvent>, e: RunEvent)
    requires
        runs_on(events),
    ensures
        run_calls(events.push(e)) == run_calls(events) + event_calls(e),
    decreases events.len(),
{
    if events.len() == 0 {
        let one = events.push(e);
        assert(one.drop_first() =~= Seq::<RunEvent>::empty());
        assert(run_calls(one.drop_first()) == Seq::<EvmCall>::empty());
        assert(one[0] == e);
        assert(run_calls(one) =~= event_calls(e));
        assert(Seq::<EvmCall>::empty() + event_calls(e) =~= event_calls(e));
    } else {
        let rest = events.drop_first();
        assert forall|i: int| 0 <= i < rest.len() implies !event_stops(#[trigger] rest[i]) by {
            assert(rest[i] == events[i + 1]);
        }
        lemma_run_calls_push(rest, e);
        let pushed = events.push(e);
        assert(pushed.drop_first() =~= rest.push(e));
        assert(pushed[0] == events[0]);
        assert(!event_stops(events[0]));
        match events[0] {
            RunEvent::Certificate(reads) => {
                let c = event_calls(events[0]);
                assert(c + (run_calls(rest) + event_calls(e)) =~= (c + run_calls(rest)) + event_calls(e));
            },
            RunEvent::Query(method, recognised) => {
                if query_forwarded(method, recognised) {
                    let c = seq![EvmCall::Read(method)];
                    assert(c + (run_calls(rest) + event_calls(e)) =~= (c + run_calls(rest)) + event_calls(e));
                }
            },
        }
    }
}

/// The engine's run so far: the events it handled, and whether a certificate stopped it.
pub struct RunLog {
    pub events: Ghost<Seq<RunEvent>>,
    pub stopped: bool,
}

impl RunLog {
    /// A run before any event.
    pub fn new() -> (log: RunLog)
        ensures
            log.events@ == Seq::<RunEvent>::empty(),
            !log.stopped,
            runs_on(log.events@),
    {
        RunLog { events: Ghost(Seq::empty()), stopped: false }
    }

    /// Handles a certificate whose batches were read as `reads`: plans its deliveries and
    /// commit, which are exactly the calls the run makes next, and stops the run where a
    /// batch failed.
    pub fn on_certificate(&mut self, reads: &Vec<StoreRead>) -> (plan: CertificatePlan)
        requires
            !old(self).stopped,
            runs_on(old(self).events@),
        ensures
            final(self).events@ == old(self).events@.push(RunEvent::Certificate(reads@)),
            run_calls(final(self).events@) == run_calls(old(self).events@)
                + event_calls(RunEvent::Certificate(reads@)),
            final(self).stopped == (plan.outcome is Err),
            !final(self).stopped ==> runs_on(final(self).events@),
            plan.txs.deep_view() == certificate_plan(reads@).0,
            (plan.outcome is Ok) == (certificate_plan(reads@).1 is None),
            plan.outcome matches Ok(n) ==> n == plan.txs.len(),
            plan.outcome matches Err(f) ==> certificate_plan(reads@).1 == Some(f),
    {
        let plan = Engine::plan_certificate(reads);
        proof {
            lemma_run_calls_push(self.events@, RunEvent::Certificate(reads@));
        }
        let ghost events = self.events@.push(RunEvent::Certificate(reads@));
        self.events = Ghost(events);
        self.stopped = plan.outcome.is_err();
        proof {
            if !self.stopped {
                assert forall|i: int| 0 <= i < events.len() implies !event_stops(#[trigger] events[i]) by {
                    if i < events.len() - 1 {
                        assert(events[i] == old(self).events@[i]);
                    }
                }
            }
        }
        plan
    }

    /// Handles a query whose parameters read as `params`, recognised as `recognised`: routes
    /// it, and the run's next call is the forwarded method, if any.
    pub fn on_query(&mut self, req: &RpcRequest, params: Vec<String>, recognised: Option<EthMethod>) -> (r: QueryRoute)
        requires
            !old(self).stopped,
            runs_on(old(self).events@),
        ensures
            final(self).events@ == old(self).events@.push(RunEvent::Query(req.method@, recognised)),
            run_calls(final(self).events@) == run_calls(old(self).events@)
                + event_calls(RunEvent::Query(req.method@, recognised)),
            !final(self).stopped,
            runs_on(final(self).events@),
            (r is Forward) == query_forwarded(req.method@, recognised),
            match recognised {
                None => r is NoReply,
                Some(m) => if changes_state(req.method@) {
                    r is Refused
                } else {
                    r matches QueryRoute::Forward { method, params: p, reply }
                        && method@ == req.method@ && p@ == params@ && reply == spec_reply_kind(m)
                },
            },
    {
        let r = Engine::route_query(req, params, recognised);
        proof {
            lemma_run_calls_push(self.events@, RunEvent::Query(req.method@, recognised));
        }
        let ghost events = self.events@.push(RunEvent::Query(req.method@, recognised));
        self.events = Ghost(events);
        proof {
            assert forall|i: int| 0 <= i < events.len() implies !event_stops(#[trigger] events[i]) by {
                if i < events.len() - 1 {
                    assert(events[i] == old(self).events@[i]);
                }
            }
        }
        r
    }

    /// Handles a query whose parameters are not a list of strings: it gets no reply, and the
    /// run calls nothing for it.
    pub fn on_malformed_query(&mut self, req: &RpcRequest)
        requires
            !old(self).stopped,
            runs_on(old(self).events@),
        ensures
            final(self).events@ == old(self).events@.push(RunEvent::Query(req.method@, None)),
            run_calls(final(self).events@) == run_calls(old(self).events@),
            !final(self).stopped,
            runs_on(final(self).events@),
    {
        proof {
            lemma_run_calls_push(self.events@, RunEvent::Query(req.method@, None));
            assert(run_calls(old(self).events@) + Seq::<EvmCall>::empty() =~= run_calls(old(self).events@));
        }
        let ghost events = self.events@.push(RunEvent::Query(req.method@, None));
        self.events = Ghost(events);
        proof {
            assert forall|i: int| 0 <= i < events.len() implies !event_stops(#[trigger] events[i]) by {
                if i < events.len() - 1 {
                    assert(events[i] == old(self).events@[i]);
                }
            }
        }
    }
}

impl Engine {
    /// The engine of the primary whose store is at `store_path`.
    pub fn new(store_path: &str) -> (e: Engine)
        ensures
            e.store_path@ == store_path@,
    {
        Engine { store_path: store_path.to_owned() }
    }

    /// The database of worker `id`: the primary's store path, a hyphen and the worker's
    /// number (primary `db-0` has workers `db-0-0`, `db-0-1`, ...).
    pub fn worker_db(&self, id: u32) -> (path: String)
        ensures
            path@ == worker_db_path(self.store_path@, id as nat),
    {
        let mut path = self.store_path.clone();
        path.append("-");
        push_decimal(&mut path, id as u64);
        proof {
            reveal_strlit("-");
        }
        path
    }

    /// The URL of the EVM's JSON-RPC endpoint at `app_address` (written as `host:port`).
    pub fn provider_url(app_address: &str) -> (url: String)
        ensures
            url@ == "http://"@ + app_address@,
    {
        let mut url = String::from_str("http://");
        url.append(app_address);
        url
    }

    /// Plans the delivery of a certificate whose batches hold `contents`, in payload order:
    /// the transactions of each batch in turn, until a batch failed; then either a block of
    /// all delivered transactions or that failure.
    pub fn plan_batches(contents: Vec<Result<Batch, FailureReason>>) -> (plan: CertificatePlan)
        ensures
            plan.txs.deep_view() == batches_plan(contents@.map_values(|c: Result<Batch, FailureReason>| content_view(c))).0,
            (plan.outcome is Ok) == (batches_plan(contents@.map_values(|c: Result<Batch, FailureReason>| content_view(c))).1 is None),
            plan.outcome matches Ok(n) ==> n == plan.txs.len(),
            plan.outcome matches Err(f) ==> batches_plan(contents@.map_values(|c: Result<Batch, FailureReason>| content_view(c))).1 == Some(f),
    {
        assert(contents.len() == contents@.len());
        let ghost orig = contents@;
        let ghost cs = contents@.map_values(|c: Result<Batch, FailureReason>| content_view(c));
        let mut txs: Vec<Transaction> = Vec::new();
        let mut i: usize = 0;
        for content in it: contents.into_iter()
            invariant
                it.seq() == orig,
                cs == orig.map_values(|c: Result<Batch, FailureReason>| content_view(c)),
                i == it.index(),
                i <= orig.len(),
                orig.len() <= usize::MAX,
                batches_plan(cs) == (txs.deep_view() + plan_from(cs, i as int).0, plan_from(cs, i as int).1),
        {
            assert(content == orig[i as int]);
            match content {
                Ok(mut batch) => {
                    let ghost before = txs@;
                    let ghost added = batch@;
                    let ghost rest = plan_from(cs, i + 1);
                    txs.append(&mut batch);
                    proof {
                        lemma_deep_view_append(before, added);
                        assert(txs.deep_view() =~= Seq::new(before.len(), |j: int| before[j].deep_view())
                            + Seq::new(added.len(), |j: int| added[j].deep_view()));
                        assert(Seq::new(before.len(), |j: int| before[j].deep_view()) + (
                            Seq::new(added.len(), |j: int| added[j].deep_view()) + rest.0)
                            =~= txs.deep_view() + rest.0);
                    }
                },
                Err(reason) => {
                    proof {
                        assert(txs.deep_view() + seq![] =~= txs.deep_view());
                    }
                    return CertificatePlan { txs, outcome: Err(BatchFailure { index: i, reason }) };
                },
            }
            i += 1;
        }
        proof {
            assert(txs.deep_view() + seq![] =~= txs.deep_view());
        }
        let n = txs.len();
        CertificatePlan { txs, outcome: Ok(n) }
    }

    /// Plans the delivery of a certificate whose batches were read as `reads`, in payload
    /// order: the transactions of each batch in turn, until a batch cannot be read or
    /// decoded; then either a block of all delivered transactions or that failure.
    pub fn plan_certificate(reads: &Vec<StoreRead>) -> (plan: CertificatePlan)
        ensures
            plan.txs.deep_view() == certificate_plan(reads@).0,
            (plan.outcome is Ok) == (certificate_plan(reads@).1 is None),
            plan.outcome matches Ok(n) ==> n == plan.txs.len(),
            plan.outcome matches Err(f) ==> certificate_plan(reads@).1 == Some(f),
    {
        let mut contents: Vec<Result<Batch, FailureReason>> = Vec::new();
        let mut i: usize = 0;
        while i < reads.len()
            invariant
                i <= reads.len(),
                contents@.len() == i,
                forall|j: int| 0 <= j < i ==> content_view(#[trigger] contents@[j]) == read_content(reads@[j]),
            decreases reads.len() - i,
        {
            contents.push(reads[i].content());
            i += 1;
        }
        proof {
            assert(contents@.map_values(|c: Result<Batch, FailureReason>| content_view(c))
                =~= reads@.map_values(|r: StoreRead| read_content(r)));
        }
        Self::plan_batches(contents)
    }

    /// The commit of a certificate once all its transactions were delivered: exactly one
    /// block, which holds them all.
    pub fn mine_request() -> (m: MineRequest)
        ensures
            m == (MineRequest { blocks: 1, interval: 0 }),
    {
        MineRequest { blocks: 1, interval: 0 }
    }

    /// The transaction request that a delivered transaction's JSON text describes; `None`
    /// where the bytes are not one.
    pub fn transaction_request(tx: &Transaction) -> (r: Option<ethers_core::types::TransactionRequest>)
        ensures
            (r is Some) == json_transaction_ok(tx@),
            r matches Some(t) ==> t == json_transaction(tx@),
    {
        match json_from_slice_transaction_request(tx.as_slice()) {
            Ok(request) => Some(request),
            Err(_) => None,
        }
    }

    /// Reads a query's parameters, a JSON array of strings.
    pub fn query_params(req: &RpcRequest) -> (r: Result<Vec<String>, EngineError>)
        ensures
            (r is Ok) == (json_string_array(req.params@) is Some),
            r matches Ok(p) ==> json_string_array(req.params@) == Some(p.deep_view()),
            r matches Err(e) ==> e == EngineError::MalformedParams,
    {
        match json_from_str_string_array(req.params.as_str()) {
            Ok(params) => Ok(params),
            Err(_) => Err(EngineError::MalformedParams),
        }
    }

    /// The type the EVM's answer to `method` is read as.
    pub fn reply_kind(method: EthMethod) -> (k: ReplyKind)
        ensures
            k == spec_reply_kind(method),
    {
        match method {
            EthMethod::Accounts => ReplyKind::Addresses,
            EthMethod::Sign => ReplyKind::Signature,
            EthMethod::Other => ReplyKind::Json,
            _ => ReplyKind::Quantity,
        }
    }

    /// Routes a query whose parameters read as `params`, given how the EVM's request type
    /// recognised it (`None`: not a request of the EVM's interface). A method that submits a
    /// transaction or changes the EVM's state or mining is refused: transactions reach the
    /// EVM only through consensus. Of the others, the balance, accounts, block number, gas
    /// price, signature, transaction count and uncle count methods are answered with their
    /// typed results, and every other method of the EVM's interface is forwarded too, its
    /// answer passed back as JSON. A request the EVM does not know gets no reply.
    pub fn route_query(req: &RpcRequest, params: Vec<String>, recognised: Option<EthMethod>) -> (r: QueryRoute)
        ensures
            match recognised {
                None => r is NoReply,
                Some(m) => if changes_state(req.method@) {
                    r is Refused
                } else {
                    r matches QueryRoute::Forward { method, params: p, reply }
                        && method@ == req.method@ && p@ == params@ && reply == spec_reply_kind(m)
                },
            },
            r matches QueryRoute::Forward { method, .. } ==> !changes_state(method@),
    {
        match recognised {
            None => QueryRoute::NoReply,
            Some(m) => {
                if method_changes_state(req.method.as_str()) {
                    QueryRoute::Refused
                } else {
                    QueryRoute::Forward {
                        method: req.method.clone(),
                        params,
                        reply: Self::reply_kind(m),
                    }
                }
            },
        }
    }
}

} // verus!
