use orcus_api::config::Config;
use orcus_api::config::ConfigError;
use orcus_api::config::Variables;
use orcus_api::state::AppState;

const CONTRACT: &str = "CAAAAAAAAAAAAAAAAAAAAAAAAAAAAAAAAAAAAAAAAAAAAAAAAAAAD2KM";

fn given(text: &str) -> Result<String, String> {
    Ok(text.to_string())
}

fn missing() -> Result<String, String> {
    Err("environment variable not found".to_string())
}

fn variables() -> Variables {
    Variables {
        soroban_rpc_url: given("http://rpc"),
        soroban_network_passphrase: given("net"),
        bind_addr: missing(),
        request_timeout_secs: missing(),
        contract_wasm_hash: given(&format!(" {} ", "0A".repeat(32))),
        contract_id: given(&format!("{CONTRACT}\n")),
    }
}

fn error(message: &str, cause: Option<&str>) -> ConfigError {
    ConfigError { message: message.to_string(), cause: cause.map(str::to_string) }
}

#[test]
fn defaults_stand_in_for_missing_variables() {
    let c = Config::from_env(variables()).unwrap();
    assert_eq!(c.rpc_url, "http://rpc");
    assert_eq!(c.network_passphrase, "net");
    assert_eq!(c.bind_addr, "0.0.0.0:8080");
    assert_eq!(c.request_timeout_secs, 30);
    assert_eq!(c.contract_wasm_hash, "0a".repeat(32));
    assert_eq!(c.contract_id, CONTRACT);
}

#[test]
fn optional_variables_are_read() {
    let mut vars = variables();
    vars.bind_addr = given("1.2.3.4:5");
    vars.request_timeout_secs = given("7");
    let c = Config::from_env(vars).unwrap();
    assert_eq!((c.bind_addr.as_str(), c.request_timeout_secs), ("1.2.3.4:5", 7));
    let mut odd = variables();
    odd.request_timeout_secs = given(" 7");
    assert_eq!(Config::from_env(odd).unwrap().request_timeout_secs, 30);
}

#[test]
fn required_variables_have_to_be_there() {
    let cause = Some("environment variable not found");
    let refused = |vars: Variables| Config::from_env(vars).unwrap_err();
    let mut vars = variables();
    vars.soroban_rpc_url = missing();
    assert_eq!(
        refused(vars),
        error("SOROBAN_RPC_URL must be set (e.g. https://soroban-testnet.stellar.org)", cause)
    );
    let mut vars = variables();
    vars.soroban_network_passphrase = missing();
    assert_eq!(
        refused(vars),
        error(
            "SOROBAN_NETWORK_PASSPHRASE must be set (e.g. 'Test SDF Network ; September 2015')",
            cause
        )
    );
    let mut vars = variables();
    vars.contract_wasm_hash = missing();
    assert_eq!(
        refused(vars),
        error("CONTRACT_WASM_HASH must be set to the hex-encoded WASM hash to serve", cause)
    );
    let mut vars = variables();
    vars.contract_id = missing();
    assert_eq!(
        refused(vars),
        error("CONTRACT_ID must be set to the deployed contract's C... address", cause)
    );
}

#[test]
fn invalid_variables_are_refused() {
    let mut vars = variables();
    vars.contract_wasm_hash = given("abcd");
    assert_eq!(
        Config::from_env(vars).unwrap_err(),
        error(
            "CONTRACT_WASM_HASH is invalid",
            Some("wasm hash must be exactly 32 bytes (64 hex characters)")
        )
    );
    let mut vars = variables();
    vars.contract_id = given("CABC");
    assert_eq!(
        Config::from_env(vars).unwrap_err(),
        error("CONTRACT_ID is invalid: expected a C... strkey", None)
    );
}

#[test]
fn a_new_instance_knows_no_function() {
    let config = Config::from_env(variables()).unwrap();
    let mut state = AppState::new(&config);
    assert_eq!(state.rpc.url, "http://rpc");
    assert_eq!(state.network_passphrase, "net");
    assert_eq!(state.contract_wasm_hash, config.contract_wasm_hash);
    assert_eq!(state.contract_id, CONTRACT);
    assert!(state.spec_cache.items.is_empty());
    assert!(!state.should_use_get("f"));
    state.function_methods.insert("f".to_string(), true);
    state.function_methods.insert("g".to_string(), false);
    assert!(state.should_use_get("f"));
    assert!(!state.should_use_get("g"));
}
