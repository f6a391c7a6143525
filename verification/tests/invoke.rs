use orcus_api::config::Config;
use orcus_api::config::Variables;
use orcus_api::error::AppError;
use orcus_api::error::Failure;
use orcus_api::handlers::CallRequest;
use orcus_api::interface::Field;
use orcus_api::interface::Function;
use orcus_api::interface::SpecEntry;
use orcus_api::interface::TypeDef;
use orcus_api::invoke::answer_confirmed;
use orcus_api::invoke::invoke_inner;
use orcus_api::invoke::read_args;
use orcus_api::invoke::resume;
use orcus_api::invoke::Action;
use orcus_api::invoke::Next;
use orcus_api::invoke::Stage;
use orcus_api::json::Json;
use orcus_api::spec::ContractSpec;
use orcus_api::state::AppState;
use orcus_api::txbuild::assemble_transaction;
use orcus_api::txbuild::build_unsigned_invoke_tx;
use orcus_api::txbuild::envelope_to_base64;
use orcus_api::txbuild::parse_simulation;
use orcus_api::txbuild::sign_transaction;
use orcus_api::txbuild::source_account_key;
use orcus_api::value::Val;
use stellar_xdr::Limits;
use stellar_xdr::WriteXdr;

const ACCOUNT: &str = "GAAAAAAAAAAAAAAAAAAAAAAAAAAAAAAAAAAAAAAAAAAAAAAAAAAAAWHF";
const CONTRACT: &str = "CAAAAAAAAAAAAAAAAAAAAAAAAAAAAAAAAAAAAAAAAAAAAAAAAAAAD2KM";

fn json(text: &str) -> Json {
    Json::parse(text).unwrap()
}

fn secret() -> String {
    stellar_strkey::ed25519::PrivateKey([8; 32]).as_unredacted().to_string().as_str().to_string()
}

fn state() -> AppState {
    let vars = Variables {
        soroban_rpc_url: Ok("http://rpc".to_string()),
        soroban_network_passphrase: Ok("net".to_string()),
        bind_addr: Err(String::new()),
        request_timeout_secs: Err(String::new()),
        contract_wasm_hash: Ok("00".repeat(32)),
        contract_id: Ok(CONTRACT.to_string()),
    };
    let mut state = AppState::new(&Config::from_env(vars).unwrap());
    state.function_methods.insert("count".to_string(), true);
    state.function_methods.insert("add".to_string(), false);
    state
}

fn input(name: &str, type_: TypeDef) -> Field {
    Field { doc: String::new(), name: name.to_string(), type_ }
}

fn spec() -> ContractSpec {
    let function = |name: &str, inputs: Vec<Field>| {
        SpecEntry::Function(Function {
            doc: String::new(),
            name: name.to_string(),
            inputs,
            outputs: vec![],
        })
    };
    ContractSpec::from_entries(vec![
        function("count", vec![]),
        function(
            "add",
            vec![
                input("a", TypeDef::U32),
                input("b", TypeDef::Option(Box::new(TypeDef::U32))),
            ],
        ),
        function("reset", vec![]),
    ])
}

fn request(name: &str, args: &str, is_get: bool) -> CallRequest {
    CallRequest {
        function_name: name.to_string(),
        args: json(args),
        source_account: ACCOUNT.to_string(),
        sign: false,
        secret_key: None,
        is_get,
    }
}

fn begin(req: CallRequest) -> Next {
    invoke_inner(&state(), &spec(), req)
}

fn failed(next: Next) -> AppError {
    match next {
        Next::Failed(e) => e,
        other => panic!("{other:?}"),
    }
}

fn go_on(next: Next, reply: Result<Json, Failure>) -> Next {
    match next {
        Next::Ask(job, stage, _) => resume(job, stage, reply),
        other => panic!("{other:?}"),
    }
}

fn action(next: &Next) -> &Action {
    match next {
        Next::Ask(_, _, action) => action,
        other => panic!("{other:?}"),
    }
}

fn account_reply(seq: i64) -> Json {
    let entry = stellar_xdr::LedgerEntryData::Account(stellar_xdr::AccountEntry {
        account_id: stellar_xdr::AccountId(stellar_xdr::PublicKey::PublicKeyTypeEd25519(
            stellar_xdr::Uint256([0; 32]),
        )),
        balance: 1,
        seq_num: stellar_xdr::SequenceNumber(seq),
        num_sub_entries: 0,
        inflation_dest: None,
        flags: 0,
        home_domain: Default::default(),
        thresholds: stellar_xdr::Thresholds([0; 4]),
        signers: Default::default(),
        ext: stellar_xdr::AccountEntryExt::V0,
    });
    json(&format!(
        "{{\"entries\":[{{\"xdr\":\"{}\"}}]}}",
        entry.to_xdr_base64(Limits::none()).unwrap()
    ))
}

fn simulation_reply() -> Json {
    let data = stellar_xdr::SorobanTransactionData {
        ext: stellar_xdr::SorobanTransactionDataExt::V0,
        resources: stellar_xdr::SorobanResources {
            footprint: stellar_xdr::LedgerFootprint {
                read_only: Default::default(),
                read_write: vec![stellar_xdr::LedgerKey::ContractCode(
                    stellar_xdr::LedgerKeyContractCode { hash: stellar_xdr::Hash([1; 32]) },
                )]
                .try_into()
                .unwrap(),
            },
            instructions: 0,
            disk_read_bytes: 0,
            write_bytes: 0,
        },
        resource_fee: 0,
    };
    json(&format!(
        "{{\"transactionData\":\"{}\",\"minResourceFee\":\"16062\",\"results\":[{{\"xdr\":\"{}\"}}]}}",
        data.to_xdr_base64(Limits::none()).unwrap(),
        stellar_xdr::ScVal::U32(12).to_xdr_base64(Limits::none()).unwrap()
    ))
}

fn simulated(req: CallRequest) -> Next {
    let asked = begin(req);
    let built = go_on(asked, Ok(account_reply(41)));
    go_on(built, Ok(simulation_reply()))
}

fn signed_request() -> CallRequest {
    let mut req = request("count", "{}", true);
    req.sign = true;
    req.secret_key = Some(secret());
    req
}

fn submitted() -> Next {
    go_on(simulated(signed_request()), Ok(json("{\"status\":\"PENDING\",\"hash\":\"ab\"}")))
}

#[test]
fn unknown_functions_are_not_found() {
    assert_eq!(
        failed(begin(request("nope", "{}", true))),
        AppError::NotFound("contract has no function `nope`".to_string())
    );
}

#[test]
fn functions_are_called_by_their_method() {
    assert_eq!(
        failed(begin(request("add", "{}", true))),
        AppError::MethodNotAllowed(
            "function `add` must be called with POST (it takes arguments); use POST instead of GET"
                .to_string()
        )
    );
    assert_eq!(
        failed(begin(request("reset", "{}", true))),
        AppError::MethodNotAllowed(
            "function `reset` must be called with POST (it changes contract state); use POST instead of GET"
                .to_string()
        )
    );
    assert_eq!(
        failed(begin(request("count", "{}", false))),
        AppError::MethodNotAllowed(
            "function `count` takes no arguments and is read-only; call it with GET instead of POST"
                .to_string()
        )
    );
    assert_eq!(failed(begin(request("count", "{}", false))).into_response().0, 405);
}

#[test]
fn arguments_are_read_by_name() {
    let inputs = vec![
        input("a", TypeDef::U32),
        input("b", TypeDef::Option(Box::new(TypeDef::U32))),
    ];
    assert_eq!(
        read_args(&inputs, &json("{\"b\":2,\"a\":1,\"c\":3}"), &spec()).unwrap(),
        vec![Val::U32(1), Val::U32(2)]
    );
    assert_eq!(
        read_args(&inputs, &json("{\"a\":1}"), &spec()).unwrap(),
        vec![Val::U32(1), Val::Void]
    );
    assert_eq!(
        failed(begin(request("add", "{\"b\":true}", false))),
        AppError::BadRequest("argument `a`: expected an integer or a numeric string".to_string())
    );
}

#[test]
fn a_call_asks_for_the_account_first() {
    let next = begin(request("count", "{}", true));
    assert_eq!(
        action(&next),
        &Action::GetLedgerEntries(source_account_key(ACCOUNT).unwrap())
    );
    let mut req = request("count", "{}", true);
    req.source_account = "me".to_string();
    assert_eq!(
        failed(begin(req)),
        AppError::BadRequest("invalid source_account `me`: expected a G... strkey".to_string())
    );
}

#[test]
fn a_call_is_built_on_the_account() {
    let next = go_on(begin(request("add", "{\"a\":1}", false)), Ok(account_reply(41)));
    let built =
        build_unsigned_invoke_tx(ACCOUNT, 42, CONTRACT, "add", vec![Val::U32(1), Val::Void])
            .unwrap();
    assert_eq!(action(&next), &Action::Simulate(envelope_to_base64(&built).unwrap()));
    assert!(matches!(next, Next::Ask(_, Stage::Simulation(e), _) if e == built));
}

#[test]
fn calls_fail_without_an_account() {
    let asked = || begin(request("count", "{}", true));
    assert_eq!(
        failed(go_on(asked(), Err(Failure::of("down")))),
        AppError::BadRequest("down".to_string())
    );
    assert_eq!(
        failed(go_on(asked(), Ok(json("{}")))),
        AppError::BadRequest(format!(
            "source account `{ACCOUNT}` was not found on-chain (has it been funded?)"
        ))
    );
    assert_eq!(go_on(asked(), Ok(account_reply(i64::MAX))), Next::Exhausted);
}

#[test]
fn unsigned_calls_are_answered_with_the_transaction() {
    let answer = match simulated(request("count", "{}", true)) {
        Next::Done(answer) => answer,
        other => panic!("{other:?}"),
    };
    let built = build_unsigned_invoke_tx(ACCOUNT, 42, CONTRACT, "count", vec![]).unwrap();
    let sim = parse_simulation(&simulation_reply()).unwrap();
    let ready = assemble_transaction(built, &sim).unwrap();
    let field = |name: &str| answer.get(name).unwrap().to_text();
    assert_eq!(field("status"), "\"simulated\"");
    assert_eq!(field("network_passphrase"), "\"net\"");
    assert_eq!(field("simulated_result"), "12");
    assert_eq!(field("min_resource_fee"), "\"16062\"");
    assert_eq!(
        field("read_write"),
        format!("[{{\"hash\":\"{}\",\"type\":\"contract_code\"}}]", "01".repeat(32))
    );
    assert_eq!(
        field("transaction_xdr"),
        format!("\"{}\"", envelope_to_base64(&ready).unwrap())
    );
    assert_eq!(
        field("note"),
        "\"Sign this XDR yourself and submit it (e.g. via sendTransaction), or resend this request with a `x-sign: true` header and a `x-secret-key` header to have the proxy sign and submit it on your behalf.\""
    );
    assert_eq!(answer.get("simulation"), Some(&simulation_reply()));
}

#[test]
fn simulations_can_fail() {
    let built = || go_on(begin(request("count", "{}", true)), Ok(account_reply(41)));
    assert_eq!(
        failed(go_on(built(), Err(Failure::of("down")))),
        AppError::Upstream("down".to_string())
    );
    assert_eq!(
        failed(go_on(built(), Ok(json("{\"error\":\"boom\"}")))),
        AppError::BadRequest("simulation failed: boom".to_string())
    );
    let costly = simulation_reply().to_text().replace("16062", "4294967296");
    assert_eq!(
        failed(go_on(built(), Ok(json(&costly)))),
        AppError::Internal(Failure::of("simulated resource fee out of range"))
    );
}

#[test]
fn signing_needs_the_secret_key() {
    let mut req = signed_request();
    req.secret_key = None;
    assert_eq!(
        failed(simulated(req)),
        AppError::BadRequest("header `x-secret-key` is required when `x-sign: true`".to_string())
    );
    let mut req = signed_request();
    req.secret_key = Some("S".to_string());
    assert_eq!(
        failed(simulated(req)),
        AppError::BadRequest("invalid secret_key: expected an S... strkey".to_string())
    );
}

#[test]
fn signed_calls_are_submitted() {
    let built = build_unsigned_invoke_tx(ACCOUNT, 42, CONTRACT, "count", vec![]).unwrap();
    let sim = parse_simulation(&simulation_reply()).unwrap();
    let ready = assemble_transaction(built, &sim).unwrap();
    let signed = sign_transaction(ready, "net", &secret()).unwrap();
    assert_eq!(
        action(&simulated(signed_request())),
        &Action::Send(envelope_to_base64(&signed).unwrap())
    );
}

#[test]
fn submissions_can_be_refused() {
    let sent = || simulated(signed_request());
    assert_eq!(
        failed(go_on(sent(), Err(Failure::of("down")))),
        AppError::Upstream("down".to_string())
    );
    assert_eq!(
        failed(go_on(sent(), Ok(json("{\"status\":\"ERROR\",\"hash\":\"ab\"}")))),
        AppError::BadRequest(
            "network rejected the transaction: {\"hash\":\"ab\",\"status\":\"ERROR\"}".to_string()
        )
    );
    assert_eq!(
        failed(go_on(sent(), Ok(json("{\"hash\":5}")))),
        AppError::Upstream("sendTransaction response had no hash".to_string())
    );
    assert_eq!(action(&submitted()), &Action::Poll("ab".to_string()));
}

#[test]
fn transactions_are_asked_for_thirty_times() {
    let mut next = submitted();
    for _ in 0..29 {
        next = go_on(next, Ok(json("{\"status\":\"NOT_FOUND\"}")));
        assert_eq!(action(&next), &Action::Poll("ab".to_string()));
    }
    assert_eq!(
        failed(go_on(next, Ok(json("{}")))),
        AppError::Upstream(
            "timed out waiting for transaction ab to be included in a ledger; it may still confirm later, check getTransaction manually"
                .to_string()
        )
    );
    assert_eq!(
        failed(go_on(submitted(), Err(Failure::of("down")))),
        AppError::Upstream("down".to_string())
    );
}

#[test]
fn known_outcomes_are_answered() {
    let value = stellar_xdr::ScVal::U32(10).to_xdr_base64(Limits::none()).unwrap();
    let reply = json(&format!("{{\"status\":\"SUCCESS\",\"returnValue\":\"{value}\"}}"));
    match go_on(submitted(), Ok(reply.copy())) {
        Next::Done(answer) => assert_eq!(
            answer.to_text(),
            format!(
                "{{\"hash\":\"ab\",\"raw\":{},\"return_value\":10,\"status\":\"SUCCESS\"}}",
                reply.to_text()
            )
        ),
        other => panic!("{other:?}"),
    }
}

#[test]
fn return_values_come_out_of_metadata_too() {
    let meta = stellar_xdr::TransactionMeta::V4(stellar_xdr::TransactionMetaV4 {
        ext: stellar_xdr::ExtensionPoint::V0,
        tx_changes_before: Default::default(),
        operations: Default::default(),
        tx_changes_after: Default::default(),
        soroban_meta: Some(stellar_xdr::SorobanTransactionMetaV2 {
            ext: stellar_xdr::SorobanTransactionMetaExt::V0,
            return_value: Some(stellar_xdr::ScVal::Bool(true)),
        }),
        events: Default::default(),
        diagnostic_events: Default::default(),
    });
    let meta = meta.to_xdr_base64(Limits::none()).unwrap();
    let value = |text: &str| {
        answer_confirmed("ab".to_string(), json(text)).get("return_value").unwrap().to_text()
    };
    assert_eq!(value(&format!("{{\"resultMetaXdr\":\"{meta}\"}}")), "true");
    assert_eq!(value(&format!("{{\"returnValue\":\"AA\",\"resultMetaXdr\":\"{meta}\"}}")), "true");
    assert_eq!(value("{\"resultMetaXdr\":\"AA\"}"), "null");
    assert_eq!(value("{}"), "null");
    assert_eq!(
        answer_confirmed("ab".to_string(), Json::Null).get("status").unwrap().to_text(),
        "\"UNKNOWN\""
    );
}

#[test]
fn secret_keys_count_for_signing_only() {
    let mut req = request("count", "{}", true);
    req.secret_key = Some(secret());
    assert_eq!(simulated(req), simulated(request("count", "{}", true)));
}

#[test]
fn other_arguments_are_ignored() {
    let plain = go_on(begin(request("add", "{\"a\":1}", false)), Ok(account_reply(41)));
    let more = go_on(begin(request("add", "{\"a\":1,\"z\":[]}", false)), Ok(account_reply(41)));
    assert_eq!(plain, more);
    let none = begin(request("count", "{\"z\":1}", true));
    assert_eq!(none, begin(request("count", "{}", true)));
}
