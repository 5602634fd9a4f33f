//! Verified core logic of the Base precompiles (B20 tokens, the B403 policy registry and the
//! Base DEX): their ABI call decoding and dispatch, their storage layout helpers, and the pure
//! decisions of the node around them (hardfork activation, engine payload insertion, shutdown
//! handling, peer discovery filtering and configuration resolution).

pub mod abi;
pub mod address;
pub mod b20;
pub mod b20_factory;
pub mod b403_registry;
pub mod base_dex;
pub mod beryl;
pub mod bootstrap;
pub mod config;
pub mod disc_filter;
pub mod dispatch;
pub mod engine;
pub mod error;
pub mod evm_factory;
pub mod node;
pub mod primitives;
pub mod spec;
pub mod storage;
pub mod word;
