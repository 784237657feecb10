//! The JSON-RPC methods the estimator calls.

use vstd::prelude::*;

verus! {

/// A JSON-RPC method of the Ethereum node API.
#[derive(Clone, Copy, Debug, PartialEq, Eq, Structural)]
pub enum EthRpcMethod {
    /// `eth_gasPrice`: the node's current gas price.
    EthGasPrice,
    /// `eth_blockNumber`: the number of the latest block.
    EthBlockNumber,
    /// `eth_getBlockByNumber`: the block with a given number.
    EthGetBlockByNumber,
}

impl EthRpcMethod {
    /// The method's name on the wire.
    pub open spec fn name(self) -> Seq<char> {
        match self {
            EthRpcMethod::EthGasPrice => "eth_gasPrice"@,
            EthRpcMethod::EthBlockNumber => "eth_blockNumber"@,
            EthRpcMethod::EthGetBlockByNumber => "eth_getBlockByNumber"@,
        }
    }

    /// Returns the method's name on the wire.
    pub fn as_str(&self) -> (name: &str)
        ensures
            name@ == self.name(),
    {
        match self {
            EthRpcMethod::EthGasPrice => "eth_gasPrice",
            EthRpcMethod::EthBlockNumber => "eth_blockNumber",
            EthRpcMethod::EthGetBlockByNumber => "eth_getBlockByNumber",
        }
    }
}

} // verus!
