//! The configuration of one running instance, read from the environment.

use vstd::prelude::*;

use crate::contract_source::parse_wasm_hash;
use crate::contract_source::wasm_hash_of;
use crate::encoding::contract_of;
use crate::encoding::parse_contract;
use crate::text::int_value;
use crate::text::lowercase;
use crate::text::parse_unsigned;
use crate::text::to_lowercase;
use crate::text::trim;
use crate::text::trimmed;

verus! {

/// The variables of the environment: the text of each, or why there is none.
#[derive(Debug, PartialEq)]
pub struct Variables {
    pub soroban_rpc_url: Result<String, String>,
    pub soroban_network_passphrase: Result<String, String>,
    pub bind_addr: Result<String, String>,
    pub request_timeout_secs: Result<String, String>,
    pub contract_wasm_hash: Result<String, String>,
    pub contract_id: Result<String, String>,
}

/// The configuration.
#[derive(Clone, Debug)]
pub struct Config {
    pub rpc_url: String,
    pub network_passphrase: String,
    pub bind_addr: String,
    /// For how long a request to the RPC service may take.
    pub request_timeout_secs: u64,
    /// The hash of the WASM module whose interface this instance serves, in lower
    /// case.
    pub contract_wasm_hash: String,
    /// The deployed contract that calls are sent to.
    pub contract_id: String,
}

pub struct ConfigView {
    pub rpc_url: Seq<char>,
    pub network_passphrase: Seq<char>,
    pub bind_addr: Seq<char>,
    pub request_timeout_secs: u64,
    pub contract_wasm_hash: Seq<char>,
    pub contract_id: Seq<char>,
}

impl View for Config {
    type V = ConfigView;

    open spec fn view(&self) -> ConfigView {
        ConfigView {
            rpc_url: self.rpc_url@,
            network_passphrase: self.network_passphrase@,
            bind_addr: self.bind_addr@,
            request_timeout_secs: self.request_timeout_secs,
            contract_wasm_hash: self.contract_wasm_hash@,
            contract_id: self.contract_id@,
        }
    }
}

/// What is wrong with the environment, and the cause where there is one.
#[derive(Debug, PartialEq)]
pub struct ConfigError {
    pub message: String,
    pub cause: Option<String>,
}

pub struct ConfigErrorView {
    pub message: Seq<char>,
    pub cause: Option<Seq<char>>,
}

impl View for ConfigError {
    type V = ConfigErrorView;

    open spec fn view(&self) -> ConfigErrorView {
        ConfigErrorView {
            message: self.message@,
            cause: match self.cause {
                Some(c) => Some(c@),
                None => None,
            },
        }
    }
}

/// The text of a variable that has to be there.
pub open spec fn required(var: Result<String, String>, complaint: Seq<char>) -> Result<
    Seq<char>,
    ConfigErrorView,
> {
    match var {
        Ok(s) => Ok(s@),
        Err(e) => Err(ConfigErrorView { message: complaint, cause: Some(e@) }),
    }
}

/// The timeout: 30 seconds where the variable is missing or no number.
pub open spec fn timeout_of(var: Result<String, String>) -> u64 {
    match var {
        Ok(s) => match int_value(s@, 0, u64::MAX as int) {
            Ok(n) => n as u64,
            Err(_) => 30,
        },
        Err(_) => 30,
    }
}

/// The hash of the WASM module to serve.
pub open spec fn hash_of(var: Result<String, String>) -> Result<Seq<char>, ConfigErrorView> {
    match required(
        var,
        "CONTRACT_WASM_HASH must be set to the hex-encoded WASM hash to serve"@,
    ) {
        Err(e) => Err(e),
        Ok(s) => match wasm_hash_of(lowercase(trimmed(s))) {
            Err(e) => Err(
                ConfigErrorView { message: "CONTRACT_WASM_HASH is invalid"@, cause: Some(e) },
            ),
            Ok(_) => Ok(lowercase(trimmed(s))),
        },
    }
}

/// The id of the contract to call.
pub open spec fn id_of(var: Result<String, String>) -> Result<Seq<char>, ConfigErrorView> {
    match required(
        var,
        "CONTRACT_ID must be set to the deployed contract's C... address"@,
    ) {
        Err(e) => Err(e),
        Ok(s) => if contract_of(trimmed(s)) is None {
            Err(
                ConfigErrorView {
                    message: "CONTRACT_ID is invalid: expected a C... strkey"@,
                    cause: None,
                },
            )
        } else {
            Ok(trimmed(s))
        },
    }
}

/// The configuration that the environment gives, or the first thing that is wrong
/// with it.
pub open spec fn config_of(vars: Variables) -> Result<ConfigView, ConfigErrorView> {
    match required(
        vars.soroban_rpc_url,
        "SOROBAN_RPC_URL must be set (e.g. https://soroban-testnet.stellar.org)"@,
    ) {
        Err(e) => Err(e),
        Ok(rpc_url) => match required(
            vars.soroban_network_passphrase,
            "SOROBAN_NETWORK_PASSPHRASE must be set (e.g. 'Test SDF Network ; September 2015')"@,
        ) {
            Err(e) => Err(e),
            Ok(network_passphrase) => match hash_of(vars.contract_wasm_hash) {
                Err(e) => Err(e),
                Ok(contract_wasm_hash) => match id_of(vars.contract_id) {
                    Err(e) => Err(e),
                    Ok(contract_id) => Ok(
                        ConfigView {
                            rpc_url,
                            network_passphrase,
                            bind_addr: match vars.bind_addr {
                                Ok(s) => s@,
                                Err(_) => "0.0.0.0:8080"@,
                            },
                            request_timeout_secs: timeout_of(vars.request_timeout_secs),
                            contract_wasm_hash,
                            contract_id,
                        },
                    ),
                },
            },
        },
    }
}

fn require(var: Result<String, String>, complaint: &str) -> (r: Result<String, ConfigError>)
    ensures
        match r {
            Ok(s) => required(var, complaint@) == Ok::<Seq<char>, ConfigErrorView>(s@),
            Err(e) => required(var, complaint@) == Err::<Seq<char>, ConfigErrorView>(e@),
        },
{
    match var {
        Ok(s) => Ok(s),
        Err(e) => Err(ConfigError { message: complaint.to_owned(), cause: Some(e) }),
    }
}

impl Config {
    /// Reads the configuration from the variables of the environment.
    pub fn from_env(vars: Variables) -> (r: Result<Config, ConfigError>)
        ensures
            match r {
                Ok(c) => config_of(vars) == Ok::<ConfigView, ConfigErrorView>(c@),
                Err(e) => config_of(vars) == Err::<ConfigView, ConfigErrorView>(e@),
            },
    {
        let rpc_url = match require(
            vars.soroban_rpc_url,
            "SOROBAN_RPC_URL must be set (e.g. https://soroban-testnet.stellar.org)",
        ) {
            Ok(s) => s,
            Err(e) => return Err(e),
        };
        let network_passphrase = match require(
            vars.soroban_network_passphrase,
            "SOROBAN_NETWORK_PASSPHRASE must be set (e.g. 'Test SDF Network ; September 2015')",
        ) {
            Ok(s) => s,
            Err(e) => return Err(e),
        };
        let bind_addr = match vars.bind_addr {
            Ok(s) => s,
            Err(_) => "0.0.0.0:8080".to_owned(),
        };
        let request_timeout_secs: u64 = match vars.request_timeout_secs {
            Ok(s) => match parse_unsigned(s.as_str(), u64::MAX as u128) {
                Ok(n) => n as u64,
                Err(_) => 30,
            },
            Err(_) => 30,
        };
        let contract_wasm_hash = match require(
            vars.contract_wasm_hash,
            "CONTRACT_WASM_HASH must be set to the hex-encoded WASM hash to serve",
        ) {
            Ok(s) => to_lowercase(trim(s.as_str()).as_str()),
            Err(e) => return Err(e),
        };
        match parse_wasm_hash(contract_wasm_hash.as_str()) {
            Ok(_) => {},
            Err(e) => return Err(
                ConfigError {
                    message: "CONTRACT_WASM_HASH is invalid".to_owned(),
                    cause: Some(e.message),
                },
            ),
        }
        let contract_id = match require(
            vars.contract_id,
            "CONTRACT_ID must be set to the deployed contract's C... address",
        ) {
            Ok(s) => trim(s.as_str()),
            Err(e) => return Err(e),
        };
        if parse_contract(contract_id.as_str()).is_none() {
            return Err(
                ConfigError {
                    message: "CONTRACT_ID is invalid: expected a C... strkey".to_owned(),
                    cause: None,
                },
            );
        }
        Ok(
            Config {
                rpc_url,
                network_passphrase,
                bind_addr,
                request_timeout_secs,
                contract_wasm_hash,
                contract_id,
            },
        )
    }
}

/// A configuration that was read has the hash of a WASM module and the id of a
/// contract.
pub proof fn law_config_is_valid(vars: Variables, config: ConfigView)
    requires
        config_of(vars) == Ok::<ConfigView, ConfigErrorView>(config),
    ensures
        wasm_hash_of(config.contract_wasm_hash) is Ok,
        contract_of(config.contract_id) is Some,
{
}

} // verus!
