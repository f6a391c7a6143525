use orcus_api::contract_source::fetch_wasm_by_hash;
use orcus_api::contract_source::get_or_fetch_spec;
use orcus_api::contract_source::keep_fetched_spec;
use orcus_api::contract_source::parse_wasm_hash;
use orcus_api::contract_source::wasm_key;
use orcus_api::contract_source::SpecLookup;
use orcus_api::json::Json;
use orcus_api::spec::ContractSpec;
use orcus_api::table::Table;
use stellar_xdr::Limits;
use stellar_xdr::WriteXdr;

const MISSING: &str = "no contract WASM found on-chain for hash `h` (it may not be uploaded on this network, or the hash is wrong)";

fn json(text: &str) -> Json {
    Json::parse(text).unwrap()
}

fn hash() -> String {
    "0a".repeat(32)
}

fn reply(data: &stellar_xdr::LedgerEntryData) -> Json {
    json(&format!(
        "{{\"entries\":[{{\"xdr\":\"{}\"}}]}}",
        data.to_xdr_base64(Limits::none()).unwrap()
    ))
}

fn code_entry(code: Vec<u8>) -> stellar_xdr::LedgerEntryData {
    stellar_xdr::LedgerEntryData::ContractCode(stellar_xdr::ContractCodeEntry {
        ext: stellar_xdr::ContractCodeEntryExt::V0,
        hash: stellar_xdr::Hash([10; 32]),
        code: code.try_into().unwrap(),
    })
}

fn module() -> Vec<u8> {
    let mut wasm = vec![0, 0x61, 0x73, 0x6d, 1, 0, 0, 0, 0, 15, 14];
    wasm.extend(b"contractspecv0");
    wasm
}

#[test]
fn hashes_are_read() {
    assert_eq!(parse_wasm_hash(&hash()).unwrap(), [10; 32]);
    assert_eq!(parse_wasm_hash(&format!(" {}\n", "0A".repeat(32))).unwrap(), [10; 32]);
    assert_eq!(
        parse_wasm_hash("0a0a").unwrap_err().message,
        "wasm hash must be exactly 32 bytes (64 hex characters)"
    );
    assert_eq!(
        parse_wasm_hash("0a0").unwrap_err().message,
        "wasm hash must be hex-encoded: Odd number of digits"
    );
    assert_eq!(
        parse_wasm_hash("\u{2003}0g").unwrap_err().message,
        "wasm hash must be hex-encoded: Invalid character 'g' at position 1"
    );
}

#[test]
fn code_is_asked_for_by_key() {
    let key = stellar_xdr::LedgerKey::ContractCode(stellar_xdr::LedgerKeyContractCode {
        hash: stellar_xdr::Hash([10; 32]),
    });
    assert_eq!(wasm_key(&hash()).unwrap(), key.to_xdr_base64(Limits::none()).unwrap());
    assert!(wasm_key("zz").is_err());
}

#[test]
fn code_is_taken_out_of_a_reply() {
    let fetched = |resp: &Json| fetch_wasm_by_hash(resp, "h").map_err(|e| e.message);
    assert_eq!(fetched(&reply(&code_entry(vec![1, 2, 3]))), Ok(vec![1, 2, 3]));
    assert_eq!(fetched(&json("{\"entries\":[]}")), Err(MISSING.to_string()));
    assert_eq!(fetched(&json("null")), Err(MISSING.to_string()));
    assert_eq!(
        fetched(&json("{\"entries\":[{\"xdr\":\"!\"}]}")),
        Err("failed decoding ContractCode ledger entry".to_string())
    );
    assert_eq!(
        fetched(&json("{\"entries\":[true]}")),
        Err("expected field `xdr` in rpc response: true".to_string())
    );
    let ttl = stellar_xdr::LedgerEntryData::Ttl(stellar_xdr::TtlEntry {
        key_hash: stellar_xdr::Hash([0; 32]),
        live_until_ledger_seq: 5,
    });
    assert_eq!(
        fetched(&reply(&ttl)),
        Err(format!("expected a ContractCode ledger entry, got {ttl:?}"))
    );
}

#[test]
fn interfaces_are_kept_under_one_spelling() {
    let mut cache: Table<ContractSpec> = Table::new();
    let spelled = format!("  {} ", hash().to_uppercase());
    let key = match get_or_fetch_spec(&cache, &spelled).unwrap() {
        SpecLookup::Fetch { key, ledger_key } => {
            assert_eq!(key, hash());
            assert_eq!(ledger_key, wasm_key(&hash()).unwrap());
            key
        }
        SpecLookup::Kept(_) => panic!("kept too early"),
    };
    keep_fetched_spec(&mut cache, key, &reply(&code_entry(module()))).unwrap();
    for hash in [hash(), spelled] {
        assert!(matches!(get_or_fetch_spec(&cache, &hash), Ok(SpecLookup::Kept(_))));
    }
    assert!(matches!(
        get_or_fetch_spec(&cache, &"0b".repeat(32)),
        Ok(SpecLookup::Fetch { .. })
    ));
}

#[test]
fn malformed_hashes_are_not_looked_up() {
    let cache: Table<ContractSpec> = Table::new();
    assert_eq!(
        get_or_fetch_spec(&cache, "abcd").unwrap_err().message,
        "wasm hash must be exactly 32 bytes (64 hex characters)"
    );
}

#[test]
fn nothing_is_kept_of_a_bad_reply() {
    let mut cache: Table<ContractSpec> = Table::new();
    let bad = reply(&code_entry(b"no wasm".to_vec()));
    assert_eq!(
        keep_fetched_spec(&mut cache, hash(), &bad).unwrap_err().message,
        "failed parsing WASM module"
    );
    assert!(cache.get(&hash()).is_none());
}

#[test]
fn tables_keep_one_value_under_a_name() {
    let mut t: Table<u8> = Table::new();
    assert_eq!(t.get("a"), None);
    t.insert("a".to_string(), 1);
    t.insert("b".to_string(), 2);
    t.insert("a".to_string(), 3);
    assert_eq!((t.get("a"), t.get("b"), t.get("c")), (Some(&3), Some(&2), None));
    assert_eq!(t.items.len(), 2);
}
