//! The benchmark client's rules: how many transactions a burst holds, which transfers it
//! sends, and when the client is falling behind.
use vstd::prelude::*;
use vstd::arithmetic::power::pow;
use crate::units::{Wei, whole_units, lemma_whole_units_fit};
use crate::client::{transfer_request_json, transfer_text_with_nonce};
use crate::engine::json_transaction_ok;
use crate::units::word256_bound;
use vstd::utf8::encode_utf8;

verus! {

/// Bursts per second.
pub const PRECISION: u64 = 20;

/// Milliseconds between bursts.
pub const BURST_DURATION: u64 = 1000 / PRECISION;

/// The smallest transaction size the client accepts, in bytes.
pub const MIN_TX_SIZE: usize = 9;

/// The nodes whose RPC endpoints receive transfers.
pub const NUM_HOSTS: usize = 4;

/// The accounts that transfers move value between.
pub const NUM_ACCOUNTS: usize = 10;

/// The gas of a plain transfer, before the per-transaction increment.
pub const BASE_GAS: usize = 21000;

/// Why the benchmark cannot start.
#[derive(Clone, Copy, Debug, PartialEq, Eq, Structural)]
pub enum ClientError {
    /// The configured transaction size is below `MIN_TX_SIZE`.
    TxSizeTooSmall,
}

/// The benchmark's load: transaction size in bytes and rate in transactions per second.
#[derive(Clone, Copy, Debug, PartialEq, Eq, Structural)]
pub struct Client {
    pub size: usize,
    pub rate: u64,
}

/// One transfer of the benchmark: the node it is sent to, the accounts (by index), the
/// value in wei, and its gas and nonce.
#[derive(Clone, Copy, Debug)]
pub struct TransferPlan {
    pub host: usize,
    pub from: usize,
    pub to: usize,
    pub value: Wei,
    pub gas: usize,
    pub nonce: usize,
}

/// The random draws of one transfer: its node, sender, recipient (drawn again until it
/// differs from the sender), amount and unit.
#[derive(Clone, Copy, Debug, PartialEq, Eq, Structural)]
pub struct TransferDraw {
    pub host: usize,
    pub from: usize,
    pub to: usize,
    pub amount: u32,
    pub units: u32,
}

/// Whether a draw lies in the ranges the client draws from.
pub open spec fn valid_draw(d: TransferDraw) -> bool {
    &&& d.host < NUM_HOSTS
    &&& d.from < NUM_ACCOUNTS
    &&& d.to < NUM_ACCOUNTS
    &&& d.from != d.to
    &&& 1 <= d.amount < 10
    &&& 1 <= d.units < 5
}

/// The transfer planned from a draw as the `nonce`-th of the benchmark.
pub open spec fn planned_from(t: TransferPlan, d: TransferDraw, nonce: int) -> bool {
    &&& t.host == d.host
    &&& t.from == d.from
    &&& t.to == d.to
    &&& t.value@ == d.amount * pow(10, d.units as nat)
    &&& t.gas == BASE_GAS + nonce
    &&& t.nonce == nonce
}

/// Transfers whose nonces run from `start` on, one after another.
pub open spec fn consecutive_nonces(plans: Seq<TransferPlan>, start: int) -> bool {
    forall|i: int| 0 <= i < plans.len() ==> #[trigger] plans[i].nonce == start + i
}

/// The transfers of successive ticks, sent one tick after the other, carry consecutive
/// nonces: after ticks of `a.len()` and `b.len()` transfers from nonce `start`, the next
/// nonce is `start + a.len() + b.len()`, and none is skipped or repeated.
pub proof fn lemma_ticks_concatenate(a: Seq<TransferPlan>, b: Seq<TransferPlan>, start: int)
    requires
        consecutive_nonces(a, start),
        consecutive_nonces(b, start + a.len()),
    ensures
        consecutive_nonces(a + b, start),
{
    assert forall|i: int| 0 <= i < (a + b).len() implies #[trigger] (a + b)[i].nonce == start + i by {
        if i >= a.len() {
            assert((a + b)[i] == b[i - a.len()]);
        }
    }
}

/// The transfers of successive ticks, in the order they are sent.
pub open spec fn ticks_sent(ticks: Seq<Seq<TransferPlan>>) -> Seq<TransferPlan>
    decreases ticks.len(),
{
    if ticks.len() == 0 {
        seq![]
    } else {
        ticks_sent(ticks.drop_last()) + ticks.last()
    }
}

/// After `n` ticks of `burst` transfers each, made one after the other from a fresh sequence
/// (each tick starting where the one before ended), exactly `n * burst` transfers have been
/// sent, with nonces 0, 1, 2, ... in order.
pub proof fn lemma_ticks_in_order(ticks: Seq<Seq<TransferPlan>>, burst: nat)
    requires
        forall|k: int| 0 <= k < ticks.len() ==> (#[trigger] ticks[k]).len() == burst,
        forall|k: int| 0 <= k < ticks.len() ==> consecutive_nonces(#[trigger] ticks[k], k * burst),
    ensures
        ticks_sent(ticks).len() == ticks.len() * burst,
        consecutive_nonces(ticks_sent(ticks), 0),
    decreases ticks.len(),
{
    if ticks.len() > 0 {
        let n = ticks.len() - 1;
        let prefix = ticks.drop_last();
        assert forall|k: int| 0 <= k < prefix.len() implies (#[trigger] prefix[k]).len() == burst by {
            assert(prefix[k] == ticks[k]);
        }
        assert forall|k: int| 0 <= k < prefix.len() implies consecutive_nonces(#[trigger] prefix[k], k * burst) by {
            assert(prefix[k] == ticks[k]);
        }
        lemma_ticks_in_order(prefix, burst);
        assert(ticks.last() == ticks[n]);
        assert(prefix.len() * burst == n * burst);
        lemma_ticks_concatenate(ticks_sent(prefix), ticks.last(), 0);
        assert((n + 1) * burst == n * burst + burst) by (nonlinear_arith);
    }
}

/// The benchmark's transfers in the order they are sent; `counter` is the number sent so far.
#[derive(Clone, Copy, Debug, PartialEq, Eq, Structural)]
pub struct TransferSequence {
    pub counter: usize,
}

impl TransferPlan {
    /// The JSON text of this transfer between the accounts with addresses `from` and `to`;
    /// the engine reads it back as a transaction request, and a transfer with another nonce
    /// (so every other transfer of the benchmark) has another text.
    pub fn request_text(&self, from: [u8; 20], to: [u8; 20]) -> (s: String)
        ensures
            s@ == transfer_request_json(from@, to@, self.value@, self.gas as nat, Some(self.nonce as nat)),
            json_transaction_ok(encode_utf8(s@)),
            forall|f: Seq<u8>, t: Seq<u8>, v: nat, g: nat, n: nat|
                f.len() == 20 && t.len() == 20 && v < word256_bound() && g <= usize::MAX && n <= usize::MAX && n != self.nonce
                ==> #[trigger] transfer_request_json(f, t, v, g, Some(n)) != s@,
    {
        transfer_text_with_nonce(from, to, &self.value, self.gas, self.nonce)
    }
}

impl Client {
    /// Refuses a transaction size below `MIN_TX_SIZE` bytes.
    pub fn check_size(&self) -> (r: Result<(), ClientError>)
        ensures
            (r is Ok) == (self.size >= MIN_TX_SIZE),
            r matches Err(e) ==> e == ClientError::TxSizeTooSmall,
    {
        if self.size < MIN_TX_SIZE {
            Err(ClientError::TxSizeTooSmall)
        } else {
            Ok(())
        }
    }

    /// The number of transactions sent in each burst: the rate spread over `PRECISION`
    /// bursts per second, rounded down.
    pub fn burst(&self) -> (b: u64)
        ensures
            b == self.rate / PRECISION,
            b * PRECISION <= self.rate < (b + 1) * PRECISION,
    {
        self.rate / PRECISION
    }
}

/// Whether a burst took longer than the time between bursts, so the rate is too high for
/// this client.
pub fn burst_overran(elapsed_ms: u128) -> (r: bool)
    ensures
        r == (elapsed_ms > BURST_DURATION),
{
    elapsed_ms > BURST_DURATION as u128
}

impl TransferSequence {
    /// A sequence with no transfer sent yet.
    pub fn new() -> (s: TransferSequence)
        ensures
            s.counter == 0,
    {
        TransferSequence { counter: 0 }
    }

    /// The transfers of one tick: one per draw, in order, with consecutive nonces from the
    /// number of transfers sent before the tick.
    pub fn tick(&mut self, client: &Client, draws: &Vec<TransferDraw>) -> (plans: Vec<TransferPlan>)
        requires
            draws.len() == client.rate / PRECISION,
            forall|i: int| 0 <= i < draws.len() ==> valid_draw(#[trigger] draws@[i]),
            old(self).counter + draws.len() + BASE_GAS <= usize::MAX + 1,
        ensures
            plans.len() == client.rate / PRECISION,
            final(self).counter == old(self).counter + draws.len(),
            consecutive_nonces(plans@, old(self).counter as int),
            forall|i: int| 0 <= i < plans.len() ==> planned_from(#[trigger] plans@[i], draws@[i], old(self).counter + i),
    {
        let mut plans: Vec<TransferPlan> = Vec::new();
        let mut i: usize = 0;
        while i < draws.len()
            invariant
                i <= draws.len(),
                plans.len() == i,
                self.counter == old(self).counter + i,
                forall|j: int| 0 <= j < draws.len() ==> valid_draw(#[trigger] draws@[j]),
                old(self).counter + draws.len() + BASE_GAS <= usize::MAX + 1,
                forall|j: int| 0 <= j < i ==> planned_from(#[trigger] plans@[j], draws@[j], old(self).counter + j),
            decreases draws.len() - i,
        {
            let d = draws[i];
            assert(valid_draw(draws@[i as int]));
            let t = self.next(d.host, d.from, d.to, d.amount, d.units);
            plans.push(t);
            i += 1;
        }
        plans
    }

    /// The next transfer, from the random draws of its node, sender, recipient (drawn again
    /// until it differs from the sender), amount and unit: `amount * 10^units` wei. Its nonce
    /// is the number of transfers sent before it, and its gas `BASE_GAS` plus that number.
    pub fn next(&mut self, host: usize, from: usize, to: usize, amount: u32, units: u32) -> (t: TransferPlan)
        requires
            host < NUM_HOSTS,
            from < NUM_ACCOUNTS,
            to < NUM_ACCOUNTS,
            from != to,
            1 <= amount < 10,
            1 <= units < 5,
            old(self).counter + BASE_GAS <= usize::MAX,
        ensures
            final(self).counter == old(self).counter + 1,
            t.host == host,
            t.from == from,
            t.to == to,
            t.value@ == amount * pow(10, units as nat),
            t.gas == BASE_GAS + old(self).counter,
            t.nonce == old(self).counter,
    {
        let counter = self.counter;
        proof {
            lemma_whole_units_fit(amount, units);
        }
        let value = match whole_units(amount, units) {
            Ok(value) => value,
            Err(_) => {
                proof { assert(false); }
                Wei { limbs: [0, 0, 0, 0] }
            },
        };
        self.counter = counter + 1;
        TransferPlan { host, from, to, value, gas: BASE_GAS + counter, nonce: counter }
    }
}

/// The benchmark's run: its load, its transfer sequence, the transfers sent so far in order,
/// and the number of ticks made.
pub struct BenchmarkRun {
    pub client: Client,
    pub sequence: TransferSequence,
    pub sent: Ghost<Seq<TransferPlan>>,
    pub ticks: Ghost<nat>,
}

impl BenchmarkRun {
    /// After `ticks` ticks, `ticks * (rate / PRECISION)` transfers have been sent, with
    /// nonces 0, 1, 2, ... in order, and the sequence's counter is their number.
    pub open spec fn sent_in_order(&self) -> bool {
        &&& self.sent@.len() == self.ticks@ * (self.client.rate / PRECISION) as nat
        &&& consecutive_nonces(self.sent@, 0)
        &&& self.sequence.counter == self.sent@.len()
    }

    /// A run of the given load before its first tick.
    pub fn new(client: Client) -> (run: BenchmarkRun)
        ensures
            run.client == client,
            run.ticks@ == 0,
            run.sent@ == Seq::<TransferPlan>::empty(),
            run.sent_in_order(),
    {
        BenchmarkRun { client, sequence: TransferSequence::new(), sent: Ghost(Seq::empty()), ticks: Ghost(0) }
    }

    /// One tick: the transfers planned from `draws`, sent after all earlier ones.
    pub fn tick(&mut self, draws: &Vec<TransferDraw>) -> (plans: Vec<TransferPlan>)
        requires
            old(self).sent_in_order(),
            draws.len() == old(self).client.rate / PRECISION,
            forall|i: int| 0 <= i < draws.len() ==> valid_draw(#[trigger] draws@[i]),
            old(self).sequence.counter + draws.len() + BASE_GAS <= usize::MAX + 1,
        ensures
            final(self).sent_in_order(),
            final(self).client == old(self).client,
            final(self).ticks@ == old(self).ticks@ + 1,
            final(self).sent@ == old(self).sent@ + plans@,
            forall|i: int| 0 <= i < plans.len() ==> planned_from(#[trigger] plans@[i], draws@[i], old(self).sequence.counter + i),
    {
        let client = self.client;
        let plans = self.sequence.tick(&client, draws);
        proof {
            let b = (self.client.rate / PRECISION) as nat;
            lemma_ticks_concatenate(self.sent@, plans@, 0);
            assert((self.ticks@ + 1) * b == self.ticks@ * b + b) by (nonlinear_arith);
        }
        self.sent = Ghost(self.sent@ + plans@);
        self.ticks = Ghost(self.ticks@ + 1);
        plans
    }
}

} // verus!
