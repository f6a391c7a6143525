use orcus_api::error::Failure;
use orcus_api::interface::Field;
use orcus_api::interface::Function;
use orcus_api::interface::SpecEntry;
use orcus_api::interface::TypeDef;
use orcus_api::json::Json;
use orcus_api::probe::classify_functions;
use orcus_api::probe::plan_probes;
use orcus_api::probe::probe_source_account;
use orcus_api::probe::read_only_in;
use orcus_api::probe::Probe;
use orcus_api::probe::ProbeReply;
use orcus_api::spec::ContractSpec;
use orcus_api::txbuild::build_unsigned_invoke_tx;
use orcus_api::txbuild::envelope_to_base64;
use stellar_xdr::Limits;
use stellar_xdr::WriteXdr;

const CONTRACT: &str = "CAAAAAAAAAAAAAAAAAAAAAAAAAAAAAAAAAAAAAAAAAAAAAAAAAAAD2KM";

fn function(name: &str, arguments: usize) -> SpecEntry {
    SpecEntry::Function(Function {
        doc: String::new(),
        name: name.to_string(),
        inputs: (0..arguments)
            .map(|i| Field { doc: String::new(), name: format!("a{i}"), type_: TypeDef::U32 })
            .collect(),
        outputs: vec![],
    })
}

fn simulation(writes: Vec<stellar_xdr::LedgerKey>) -> Json {
    let data = stellar_xdr::SorobanTransactionData {
        ext: stellar_xdr::SorobanTransactionDataExt::V0,
        resources: stellar_xdr::SorobanResources {
            footprint: stellar_xdr::LedgerFootprint {
                read_only: vec![code_key()].try_into().unwrap(),
                read_write: writes.try_into().unwrap(),
            },
            instructions: 0,
            disk_read_bytes: 0,
            write_bytes: 0,
        },
        resource_fee: 0,
    };
    Json::parse(&format!(
        "{{\"transactionData\":\"{}\",\"minResourceFee\":\"1\"}}",
        data.to_xdr_base64(Limits::none()).unwrap()
    ))
    .unwrap()
}

fn code_key() -> stellar_xdr::LedgerKey {
    stellar_xdr::LedgerKey::ContractCode(stellar_xdr::LedgerKeyContractCode {
        hash: stellar_xdr::Hash([1; 32]),
    })
}

#[test]
fn the_probe_account_is_derived() {
    let key: [u8; 32] =
        <sha2::Sha256 as sha2::Digest>::digest(b"soroban-api-proxy:startup-probe-account").into();
    assert_eq!(
        probe_source_account(),
        format!("{}", stellar_strkey::ed25519::PublicKey(key))
    );
}

#[test]
fn only_functions_without_arguments_are_simulated() {
    let long = "x".repeat(33);
    let spec = ContractSpec::from_entries(vec![
        function("add", 2),
        function("get", 0),
        function(&long, 0),
    ]);
    let tx = build_unsigned_invoke_tx(&probe_source_account(), 1, CONTRACT, "get", vec![]).unwrap();
    assert_eq!(
        plan_probes(CONTRACT, &spec),
        vec![
            Probe::TakesArguments,
            Probe::Simulate(envelope_to_base64(&tx).unwrap()),
            Probe::Failed(Failure::new(format!("function name `{long}` is invalid or too long"))),
        ]
    );
}

#[test]
fn functions_are_classified() {
    let spec = ContractSpec::from_entries(vec![
        function("add", 2),
        function("get_count", 0),
        function("reset", 0),
        function("trap", 0),
        function("lost", 0),
    ]);
    let replies = vec![
        ProbeReply::Answered(simulation(vec![])),
        ProbeReply::Answered(simulation(vec![])),
        ProbeReply::Answered(simulation(vec![code_key()])),
        ProbeReply::Answered(Json::parse("{\"error\":\"boom\"}").unwrap()),
        ProbeReply::Failed(Failure::of("offline")),
    ];
    let c = classify_functions(&spec, &replies);
    assert_eq!(c.methods.get("add"), Some(&false));
    assert_eq!(c.methods.get("get_count"), Some(&true));
    assert_eq!(c.methods.get("reset"), Some(&false));
    assert_eq!(c.methods.get("trap"), Some(&false));
    assert_eq!(c.methods.get("lost"), Some(&false));
    assert_eq!(c.methods.get("other"), None);
    assert_eq!(
        c.warnings,
        vec![
            ("trap".to_string(), Failure::of("simulation failed: boom")),
            ("lost".to_string(), Failure::of("offline")),
        ]
    );
}

#[test]
fn the_last_function_of_a_name_counts() {
    let spec = ContractSpec::from_entries(vec![function("f", 1), function("f", 0)]);
    let replies = vec![ProbeReply::NotAsked, ProbeReply::Answered(simulation(vec![]))];
    assert_eq!(classify_functions(&spec, &replies).methods.get("f"), Some(&true));
}

#[test]
fn footprints_decide_what_is_read_only() {
    assert_eq!(read_only_in(&simulation(vec![])), Ok(true));
    assert_eq!(read_only_in(&simulation(vec![code_key()])), Ok(false));
    assert!(read_only_in(&Json::Null).is_err());
}
