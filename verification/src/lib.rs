//! Gas-fee suggestions from an Ethereum JSON-RPC endpoint.
//!
//! A run asks a node for its gas price and for its latest block, and from
//! the two derives three suggestions (slow, standard and fast), each with a
//! priority fee and a max fee. All amounts are in wei.
//!
//! The library decides and computes; it sends nothing. [`driver`] orders a
//! run, [`rpc`] builds the requests and reads the answers, [`hex`] decodes
//! the quantities in them, and [`fees`] makes the quote. [`json`] states what
//! is taken on trust from `serde_json`.

pub mod driver;
pub mod fees;
pub mod hex;
pub mod json;
pub mod method;
pub mod rpc;
