//! The request and response types shared by the RPC shim and the engine.
use vstd::prelude::*;

verus! {

/// A JSON-RPC request as the shim receives it: a method name and its parameters as JSON text.
#[derive(Debug)]
pub struct RpcRequest {
    pub method: String,
    pub params: String,
}

impl Clone for RpcRequest {
    fn clone(&self) -> (r: Self)
        ensures
            r == *self,
    {
        RpcRequest { method: self.method.clone(), params: self.params.clone() }
    }
}

/// A query to the EVM: a call to simulate, or the balance of an account.
pub enum Query {
    EthCall(ethers_core::types::TransactionRequest),
    Balance(ethereum_types::H160),
}

} // verus!
