//! Which JSON-RPC methods change the EVM's state: those must reach it only through
//! consensus, never as a query.
use vstd::prelude::*;
use vstd::string::StrSliceExecFns;

verus! {

/// Whether `p` begins `s`.
pub open spec fn has_prefix(s: Seq<char>, p: Seq<char>) -> bool {
    p.len() <= s.len() && s.subrange(0, p.len() as int) == p
}

/// Whether `method` submits a transaction or changes the EVM's state or mining: the
/// transaction submissions of the `eth` namespace, and every method of the `anvil`, `evm`,
/// `hardhat` and `miner` namespaces (state setting, snapshots, mining, impersonation).
pub open spec fn changes_state(method: Seq<char>) -> bool {
    ||| method == "eth_sendTransaction"@
    ||| method == "eth_sendRawTransaction"@
    ||| method == "eth_sendUnsignedTransaction"@
    ||| has_prefix(method, "anvil_"@)
    ||| has_prefix(method, "evm_"@)
    ||| has_prefix(method, "hardhat_"@)
    ||| has_prefix(method, "miner_"@)
}

/// Whether `p` begins `s`.
pub fn str_has_prefix(s: &str, p: &str) -> (b: bool)
    ensures
        b == has_prefix(s@, p@),
{
    let n = s.unicode_len();
    let m = p.unicode_len();
    if m > n {
        return false;
    }
    let mut i: usize = 0;
    while i < m
        invariant
            i <= m <= n,
            n == s@.len(),
            m == p@.len(),
            forall|j: int| 0 <= j < i ==> s@[j] == p@[j],
        decreases m - i,
    {
        if s.get_char(i) != p.get_char(i) {
            assert(s@.subrange(0, m as int)[i as int] != p@[i as int]);
            return false;
        }
        i += 1;
    }
    assert(s@.subrange(0, m as int) =~= p@);
    true
}

/// Whether `s` and `t` are the same text.
pub fn str_equal(s: &str, t: &str) -> (b: bool)
    ensures
        b == (s@ == t@),
{
    if s.unicode_len() != t.unicode_len() {
        return false;
    }
    let r = str_has_prefix(s, t);
    proof {
        if r {
            assert(s@ =~= s@.subrange(0, t@.len() as int));
        }
        if s@ == t@ {
            assert(s@.subrange(0, t@.len() as int) =~= t@);
        }
    }
    r
}

/// Whether `method` submits a transaction or changes the EVM's state or mining.
pub fn method_changes_state(method: &str) -> (b: bool)
    ensures
        b == changes_state(method@),
{
    str_equal(method, "eth_sendTransaction")
        || str_equal(method, "eth_sendRawTransaction")
        || str_equal(method, "eth_sendUnsignedTransaction")
        || str_has_prefix(method, "anvil_")
        || str_has_prefix(method, "evm_")
        || str_has_prefix(method, "hardhat_")
        || str_has_prefix(method, "miner_")
}

/// The methods that submit a transaction.
pub open spec fn submits_transaction(m: Seq<char>) -> bool {
    m =~= "eth_sendTransaction"@ || m =~= "eth_sendRawTransaction"@ || m =~= "eth_sendUnsignedTransaction"@
}

/// Whether `m` belongs to one of the namespaces that set the EVM's state or mine.
pub open spec fn in_state_namespace(m: Seq<char>) -> bool {
    ||| (m.len() >= 6 && m.subrange(0, 6) =~= "anvil_"@)
    ||| (m.len() >= 4 && m.subrange(0, 4) =~= "evm_"@)
    ||| (m.len() >= 8 && m.subrange(0, 8) =~= "hardhat_"@)
    ||| (m.len() >= 6 && m.subrange(0, 6) =~= "miner_"@)
}

/// A method changes the EVM's state exactly when it submits a transaction or belongs to the
/// `anvil_`, `evm_`, `hardhat_` or `miner_` namespace: every method of those namespaces is
/// refused as a query, and no other method is.
pub proof fn lemma_changes_state_exactly(m: Seq<char>)
    ensures
        changes_state(m) <==> (submits_transaction(m) || in_state_namespace(m)),
{
    reveal_strlit("eth_sendTransaction");
    reveal_strlit("eth_sendRawTransaction");
    reveal_strlit("eth_sendUnsignedTransaction");
    reveal_strlit("anvil_");
    reveal_strlit("evm_");
    reveal_strlit("hardhat_");
    reveal_strlit("miner_");
    assert("anvil_"@.len() == 6);
    assert("evm_"@.len() == 4);
    assert("hardhat_"@.len() == 8);
    assert("miner_"@.len() == 6);
}

/// A method whose name starts with `eth_` and is not a transaction submission does not
/// change the EVM's state; in particular none of the eight methods answered with a typed
/// result (balance, accounts, block number, gas price, signature, transaction count, uncle
/// counts) is refused.
pub proof fn lemma_eth_reads_do_not_change_state(m: Seq<char>)
    requires
        m.len() >= 4,
        m[0] == 'e',
        m[1] == 't',
        m[2] == 'h',
        m[3] == '_',
        !submits_transaction(m),
    ensures
        !changes_state(m),
{
    lemma_changes_state_exactly(m);
    reveal_strlit("anvil_");
    reveal_strlit("evm_");
    reveal_strlit("hardhat_");
    reveal_strlit("miner_");
    if m.len() >= 6 {
        assert(m.subrange(0, 6)[0] != "anvil_"@[0]);
        assert(m.subrange(0, 6)[0] != "miner_"@[0]);
    }
    if m.len() >= 4 {
        assert(m.subrange(0, 4)[1] != "evm_"@[1]);
    }
    if m.len() >= 8 {
        assert(m.subrange(0, 8)[0] != "hardhat_"@[0]);
    }
}

/// The eight methods answered with a typed result never change the EVM's state, so a
/// recognised query for any of them is forwarded.
pub proof fn lemma_typed_methods_are_reads()
    ensures
        !changes_state("eth_getBalance"@),
        !changes_state("eth_accounts"@),
        !changes_state("eth_blockNumber"@),
        !changes_state("eth_gasPrice"@),
        !changes_state("eth_sign"@),
        !changes_state("eth_getTransactionCount"@),
        !changes_state("eth_getUncleCountByBlockNumber"@),
        !changes_state("eth_getUncleCountByBlockHash"@),
{
    reveal_strlit("eth_getBalance");
    reveal_strlit("eth_accounts");
    reveal_strlit("eth_blockNumber");
    reveal_strlit("eth_gasPrice");
    reveal_strlit("eth_sign");
    reveal_strlit("eth_getTransactionCount");
    reveal_strlit("eth_getUncleCountByBlockNumber");
    reveal_strlit("eth_getUncleCountByBlockHash");
    reveal_strlit("eth_sendTransaction");
    reveal_strlit("eth_sendRawTransaction");
    reveal_strlit("eth_sendUnsignedTransaction");
    let names = seq!["eth_getBalance"@, "eth_accounts"@, "eth_blockNumber"@, "eth_gasPrice"@, "eth_sign"@,
        "eth_getTransactionCount"@, "eth_getUncleCountByBlockNumber"@, "eth_getUncleCountByBlockHash"@];
    assert forall|i: int| 0 <= i < 8 implies !changes_state(#[trigger] names[i]) by {
        let m = names[i];
        // Each differs from every submission at the fifth character or in length.
        assert(!submits_transaction(m)) by {
            if m =~= "eth_sendTransaction"@ { assert(m[4] == 's'); }
            if m =~= "eth_sendRawTransaction"@ { assert(m[4] == 's'); }
            if m =~= "eth_sendUnsignedTransaction"@ { assert(m[4] == 's'); }
        }
        lemma_eth_reads_do_not_change_state(m);
    }
    assert(names[0] == "eth_getBalance"@);
    assert(names[1] == "eth_accounts"@);
    assert(names[2] == "eth_blockNumber"@);
    assert(names[3] == "eth_gasPrice"@);
    assert(names[4] == "eth_sign"@);
    assert(names[5] == "eth_getTransactionCount"@);
    assert(names[6] == "eth_getUncleCountByBlockNumber"@);
    assert(names[7] == "eth_getUncleCountByBlockHash"@);
}

} // verus!
