//! What a running instance holds.

use vstd::prelude::*;

use crate::config::Config;
use crate::rpc::RpcClient;
use crate::spec::ContractSpec;
use crate::table::Table;

verus! {

/// What a running instance holds: how it reaches the network, which contract it
/// serves, the interfaces that it has read, and which functions are called by
/// `GET`.
#[derive(Debug, PartialEq)]
pub struct AppState {
    pub rpc: RpcClient,
    pub network_passphrase: String,
    pub contract_wasm_hash: String,
    pub contract_id: String,
    pub spec_cache: Table<ContractSpec>,
    /// Whether a function is called by `GET`, for each that has been classified:
    /// before the first request that is all of them.
    pub function_methods: Table<bool>,
}

impl AppState {
    pub fn new(config: &Config) -> (r: AppState)
        ensures
            r.rpc.url@ == config@.rpc_url,
            r.rpc.next_id == 1,
            r.network_passphrase@ == config@.network_passphrase,
            r.contract_wasm_hash@ == config@.contract_wasm_hash,
            r.contract_id@ == config@.contract_id,
            forall|key: Seq<char>| #[trigger] r.spec_cache.at(key) is None,
            forall|name: Seq<char>| #[trigger] r.function_methods.at(name) is None,
    {
        AppState {
            rpc: RpcClient::new(config.rpc_url.clone()),
            network_passphrase: config.network_passphrase.clone(),
            contract_wasm_hash: config.contract_wasm_hash.clone(),
            contract_id: config.contract_id.clone(),
            spec_cache: Table::new(),
            function_methods: Table::new(),
        }
    }

    /// Whether a function is called by `GET`. One that has not been classified is
    /// not.
    pub fn should_use_get(&self, function_name: &str) -> (r: bool)
        ensures
            r == (self.function_methods.at(function_name@) == Some(true)),
    {
        match self.function_methods.get(function_name) {
            Some(b) => *b,
            None => false,
        }
    }
}

} // verus!
