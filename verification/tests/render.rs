use orcus_api::interface::Field;
use orcus_api::interface::SpecEntry;
use orcus_api::interface::StructDef;
use orcus_api::interface::TypeDef;
use orcus_api::json::Json;
use orcus_api::render::ledger_key_to_json;
use orcus_api::render::scval_to_json;
use orcus_api::scval::json_to_scval;
use orcus_api::spec::ContractSpec;
use orcus_api::value::Address;
use orcus_api::value::Durability;
use orcus_api::value::FootprintKey;
use orcus_api::value::Int128Parts;
use orcus_api::value::Int256Parts;
use orcus_api::value::UInt128Parts;
use orcus_api::value::UInt256Parts;
use orcus_api::value::Val;

const ZERO_ACCOUNT: &str = "GAAAAAAAAAAAAAAAAAAAAAAAAAAAAAAAAAAAAAAAAAAAAAAAAAAAAWHF";

fn text(v: &Val) -> String {
    scval_to_json(v).to_text()
}

fn symbol(name: &str) -> Val {
    Val::Symbol(name.as_bytes().to_vec())
}

#[test]
fn plain_values_are_rendered() {
    assert_eq!(text(&Val::Bool(true)), "true");
    assert_eq!(text(&Val::Void), "null");
    assert_eq!(text(&Val::U32(7)), "7");
    assert_eq!(text(&Val::I32(-7)), "-7");
    assert_eq!(text(&Val::I32(7)), "7");
    assert_eq!(text(&Val::LedgerKeyContractInstance), "null");
    assert_eq!(text(&Val::LedgerKeyNonce(-9)), "{\"nonce\":\"-9\"}");
}

#[test]
fn wide_integers_are_decimal_strings() {
    assert_eq!(text(&Val::U64(u64::MAX)), "\"18446744073709551615\"");
    assert_eq!(text(&Val::I64(i64::MIN)), "\"-9223372036854775808\"");
    assert_eq!(text(&Val::Timepoint(0)), "\"0\"");
    assert_eq!(text(&Val::Duration(10)), "\"10\"");
    assert_eq!(text(&Val::U128(UInt128Parts { hi: 1, lo: 0 })), "\"18446744073709551616\"");
    assert_eq!(text(&Val::I128(Int128Parts { hi: -1, lo: u64::MAX })), "\"-1\"");
    let unsigned = |hi_hi: u64, hi_lo: u64, lo_hi: u64, lo_lo: u64| {
        text(&Val::U256(UInt256Parts { hi_hi, hi_lo, lo_hi, lo_lo }))
    };
    assert_eq!(unsigned(0, 0, 0, 5), "\"5\"");
    assert_eq!(unsigned(0, 0, 1, 0), "\"18446744073709551616\"");
    assert_eq!(unsigned(0, 1, 0, 0), "\"340282366920938463463374607431768211456\"");
    assert_eq!(
        unsigned(u64::MAX, u64::MAX, u64::MAX, u64::MAX),
        "\"115792089237316195423570985008687907853269984665640564039457584007913129639935\""
    );
    let signed = |hi_hi: i64, hi_lo: u64, lo_hi: u64, lo_lo: u64| {
        text(&Val::I256(Int256Parts { hi_hi, hi_lo, lo_hi, lo_lo }))
    };
    assert_eq!(signed(0, 0, 0, 0), "\"0\"");
    assert_eq!(signed(-1, u64::MAX, u64::MAX, u64::MAX), "\"-1\"");
    assert_eq!(signed(-1, u64::MAX, u64::MAX, 0), "\"-18446744073709551616\"");
    assert_eq!(
        signed(i64::MIN, 0, 0, 0),
        "\"-57896044618658097711785492504343953926634992332820282019728792003956564819968\""
    );
}

#[test]
fn bytes_and_texts_are_strings() {
    assert_eq!(text(&Val::Bytes(vec![0, 171])), "\"0x00ab\"");
    assert_eq!(text(&Val::String(vec![0xc3, 0xa9])), "\"\u{e9}\"");
    assert_eq!(text(&Val::String(vec![b'a', 0xff])), "\"a\u{fffd}\"");
    assert_eq!(text(&symbol("ok")), "\"ok\"");
    assert_eq!(text(&Val::Address(Address::Account([0; 32]))), format!("\"{ZERO_ACCOUNT}\""));
}

#[test]
fn errors_are_rendered_in_debug_notation() {
    let e = stellar_xdr::ScError::Contract(42);
    assert_eq!(text(&Val::Error(e.clone())), format!("{{\"error\":\"{e:?}\"}}"));
}

#[test]
fn contract_instances_are_noted() {
    let instance = stellar_xdr::ScContractInstance {
        executable: stellar_xdr::ContractExecutable::StellarAsset,
        storage: None,
    };
    assert_eq!(
        text(&Val::ContractInstance(instance)),
        "{\"note\":\"contract instance value\"}"
    );
}

#[test]
fn lists_and_maps_are_rendered() {
    assert_eq!(text(&Val::Vec(None)), "[]");
    assert_eq!(text(&Val::Vec(Some(vec![Val::U32(1), Val::Void]))), "[1,null]");
    assert_eq!(text(&Val::Mapping(None)), "{}");
    assert_eq!(text(&Val::Mapping(Some(vec![]))), "{}");
    let named = Val::Mapping(Some(vec![
        (symbol("b"), Val::U32(1)),
        (Val::String(b"a".to_vec()), Val::U32(2)),
        (symbol("b"), Val::U32(3)),
    ]));
    assert_eq!(text(&named), "{\"a\":2,\"b\":3}");
}

#[test]
fn map_keys_are_texts_where_they_can_be() {
    let map = |entries: Vec<(Val, Val)>| text(&Val::Mapping(Some(entries)));
    assert_eq!(map(vec![(Val::U32(7), symbol("x"))]), "{\"7\":\"x\"}");
    assert_eq!(
        map(vec![(Val::I32(-7), Val::Void), (Val::I32(7), Val::Void)]),
        "{\"-7\":null,\"7\":null}"
    );
    assert_eq!(
        map(vec![(Val::U64(0), Val::Void), (Val::U64(u64::MAX), Val::Void)]),
        "{\"0\":null,\"18446744073709551615\":null}"
    );
    assert_eq!(map(vec![(Val::I64(i64::MIN), Val::Void)]), "{\"-9223372036854775808\":null}");
    assert_eq!(
        map(vec![(Val::Bool(false), Val::U32(0)), (Val::Bool(true), Val::U32(1))]),
        "{\"false\":0,\"true\":1}"
    );
    assert_eq!(
        map(vec![(Val::Address(Address::Account([0; 32])), Val::U32(1))]),
        format!("{{\"{ZERO_ACCOUNT}\":1}}")
    );
}

#[test]
fn maps_with_unlike_keys_are_rows() {
    let map = |entries: Vec<(Val, Val)>| text(&Val::Mapping(Some(entries)));
    assert_eq!(
        map(vec![(Val::U32(1), Val::Bool(true)), (symbol("1"), Val::Bool(false))]),
        "[[1,true],[\"1\",false]]"
    );
    assert_eq!(
        map(vec![(Val::U64(1), Val::Void), (Val::I64(2), Val::Void)]),
        "[[\"1\",null],[\"2\",null]]"
    );
    assert_eq!(
        map(vec![(Val::U32(1), Val::Bool(true)), (Val::U32(1), Val::Bool(false))]),
        "[[1,true],[1,false]]"
    );
    let account = || Val::Address(Address::Account([0; 32]));
    let contract = Val::Address(Address::Contract([0; 32]));
    assert!(map(vec![(account(), Val::Void), (contract, Val::Void)]).starts_with('{'));
    assert!(map(vec![(account(), Val::Void), (account(), Val::Void)]).starts_with('['));
    let wide = Val::U128(UInt128Parts { hi: 0, lo: 1 });
    assert_eq!(map(vec![(wide, Val::U64(2))]), "[[\"1\",\"2\"]]");
}

#[test]
fn maps_with_other_keys_read_back() {
    let map = |key: TypeDef| TypeDef::Mapping(Box::new(key), Box::new(TypeDef::Bool));
    let one = |key: Val| Val::Mapping(Some(vec![(key, Val::Bool(true))]));
    reads_back(one(Val::U32(u32::MAX)), map(TypeDef::U32));
    reads_back(one(Val::I32(i32::MIN)), map(TypeDef::I32));
    reads_back(one(Val::U64(u64::MAX)), map(TypeDef::U64));
    reads_back(one(Val::I64(i64::MIN)), map(TypeDef::I64));
    reads_back(one(Val::Bool(false)), map(TypeDef::Bool));
    reads_back(one(Val::Address(Address::Contract([7; 32]))), map(TypeDef::Address));
    reads_back(one(Val::Address(Address::Account([7; 32]))), map(TypeDef::MuxedAddress));
    reads_back(
        Val::Mapping(Some(vec![
            (Val::U32(9), Val::Bool(true)),
            (Val::U32(10), Val::Bool(false)),
        ])),
        map(TypeDef::U32),
    );
    reads_back(Val::Mapping(Some(vec![])), map(TypeDef::U128));
}

#[test]
fn ledger_keys_are_rendered() {
    let show = |k: &FootprintKey| ledger_key_to_json(k).to_text();
    assert_eq!(
        show(&FootprintKey::Account([0; 32])),
        format!("{{\"account_id\":\"{ZERO_ACCOUNT}\",\"type\":\"account\"}}")
    );
    assert_eq!(
        show(&FootprintKey::ContractData(
            Address::Account([0; 32]),
            Val::LedgerKeyContractInstance,
            Durability::Persistent
        )),
        format!(
            "{{\"contract\":\"{ZERO_ACCOUNT}\",\"durability\":\"Persistent\",\"key\":\"instance\",\"type\":\"contract_data\"}}"
        )
    );
    assert_eq!(
        show(&FootprintKey::ContractData(
            Address::Account([0; 32]),
            symbol("n"),
            Durability::Temporary
        )),
        format!(
            "{{\"contract\":\"{ZERO_ACCOUNT}\",\"durability\":\"Temporary\",\"key\":\"n\",\"type\":\"contract_data\"}}"
        )
    );
    assert_eq!(
        show(&FootprintKey::ContractCode([1; 32])),
        format!("{{\"hash\":\"{}\",\"type\":\"contract_code\"}}", "01".repeat(32))
    );
    let ttl = stellar_xdr::LedgerKey::Ttl(stellar_xdr::LedgerKeyTtl {
        key_hash: stellar_xdr::Hash([2; 32]),
    });
    let shown = ledger_key_to_json(&FootprintKey::Other(ttl.clone()));
    assert_eq!(shown.get("type"), Some(&Json::String("other".to_string())));
    assert_eq!(shown.get("debug"), Some(&Json::String(format!("{ttl:?}"))));
}

fn reads_back(v: Val, ty: TypeDef) {
    let spec = ContractSpec::from_entries(vec![SpecEntry::Struct(StructDef {
        doc: String::new(),
        name: "Point".to_string(),
        fields: vec![
            Field { doc: String::new(), name: "y".to_string(), type_: TypeDef::U64 },
            Field { doc: String::new(), name: "x".to_string(), type_: TypeDef::Symbol },
        ],
    })]);
    assert_eq!(json_to_scval(&scval_to_json(&v), &ty, &spec).unwrap(), v);
}

#[test]
fn renderings_read_back() {
    reads_back(Val::I128(Int128Parts { hi: i64::MIN, lo: 3 }), TypeDef::I128);
    reads_back(Val::Bytes(vec![1, 2, 255]), TypeDef::BytesN(3));
    reads_back(Val::Address(Address::Contract([7; 32])), TypeDef::Address);
    reads_back(Val::Void, TypeDef::Option(Box::new(TypeDef::Bool)));
    reads_back(
        Val::Vec(Some(vec![Val::U64(1), Val::U64(u64::MAX)])),
        TypeDef::Vec(Box::new(TypeDef::U64)),
    );
    reads_back(
        Val::Mapping(Some(vec![
            (Val::String(b"Z".to_vec()), Val::I32(-1)),
            (Val::String("\u{e9}".as_bytes().to_vec()), Val::I32(2)),
        ])),
        TypeDef::Mapping(Box::new(TypeDef::String), Box::new(TypeDef::I32)),
    );
    reads_back(
        Val::Mapping(Some(vec![(symbol("x"), symbol("s")), (symbol("y"), Val::U64(5))])),
        TypeDef::Udt(b"Point".to_vec()),
    );
}
