use weld::methods::{method_changes_state, str_equal, str_has_prefix};

#[test]
fn prefixes_and_equality() {
    assert!(str_has_prefix("anvil_mine", "anvil_"));
    assert!(str_has_prefix("abc", ""));
    assert!(!str_has_prefix("an", "anvil_"));
    assert!(!str_has_prefix("évm_mine", "evm_"));
    assert!(str_equal("eth_call", "eth_call"));
    assert!(!str_equal("eth_call", "eth_cal"));
    assert!(!str_equal("", "x"));
}

#[test]
fn state_changing_methods() {
    assert!(method_changes_state("eth_sendTransaction"));
    assert!(method_changes_state("eth_sendRawTransaction"));
    assert!(method_changes_state("anvil_mine"));
    assert!(method_changes_state("evm_revert"));
    assert!(method_changes_state("hardhat_setBalance"));
    assert!(method_changes_state("miner_stop"));
    assert!(!method_changes_state("eth_getBalance"));
    assert!(!method_changes_state("eth_chainId"));
    assert!(!method_changes_state("eth_sign"));
    assert!(!method_changes_state("net_version"));
}
