use orcus_api::entries::sort_entries;
use orcus_api::interface::EnumCase;
use orcus_api::interface::EnumDef;
use orcus_api::interface::Field;
use orcus_api::interface::SpecEntry;
use orcus_api::interface::StructDef;
use orcus_api::interface::TypeDef;
use orcus_api::order::text_less;
use orcus_api::text::contains;
use orcus_api::text::parse_signed;
use orcus_api::text::parse_unsigned;
use orcus_api::text::signed_text;
use orcus_api::text::unsigned_text;
use orcus_api::text::IntError;
use orcus_api::value::Address;
use orcus_api::value::FootprintKey;
use orcus_api::value::Val;
use orcus_api::xdr::writes_of;
use orcus_api::xdr_types::decode_entries;
use stellar_xdr::Limits;
use stellar_xdr::WriteXdr;

#[test]
fn integers_are_read_as_std_reads_them() {
    for s in ["", "+", "-", "0", "+7", "-0", "007", "255", "256", "-1", "1_0", " 1", "99999999999"] {
        let wanted = s.parse::<u8>();
        let read = parse_unsigned(s, 255);
        match wanted {
            Ok(n) => assert_eq!(read, Ok(n as u128)),
            Err(e) => assert_eq!(read.unwrap_err().message(), e.to_string()),
        }
    }
    for s in ["", "+", "-", "0", "+7", "-0", "127", "128", "-128", "-129", "--1", "-x", "x-"] {
        let wanted = s.parse::<i8>();
        let read = parse_signed(s, -128, 127);
        match wanted {
            Ok(n) => assert_eq!(read, Ok(n as i128)),
            Err(e) => assert_eq!(read.unwrap_err().message(), e.to_string()),
        }
    }
    let all = "340282366920938463463374607431768211455";
    assert_eq!(parse_unsigned(all, u128::MAX), Ok(u128::MAX));
    assert_eq!(
        parse_unsigned("340282366920938463463374607431768211456", u128::MAX),
        Err(IntError::PosOverflow)
    );
}

#[test]
fn integers_are_written_in_decimal() {
    for n in [0u128, 9, 10, 12345678901234567890, u128::MAX] {
        assert_eq!(unsigned_text(n), n.to_string());
    }
    for n in [0i128, -1, 42, i128::MIN, i128::MAX] {
        assert_eq!(signed_text(n), n.to_string());
    }
}

#[test]
fn texts_are_compared_and_searched() {
    assert!(text_less("", "a"));
    assert!(text_less("a", "ab"));
    assert!(text_less("Z", "a"));
    assert!(!text_less("b", "ab"));
    assert!(!text_less("a", "a"));
    assert!(text_less("\u{e9}", "\u{ffff}"));
    assert!(contains("abcabd", "abd"));
    assert!(contains("abc", ""));
    assert!(!contains("ab", "abc"));
    assert!(!contains("abcabc", "abd"));
}

#[test]
fn entries_are_sorted_by_key() {
    let account = |n: u8| Val::Address(Address::Account([n; 32]));
    let contract = |n: u8| Val::Address(Address::Contract([n; 32]));
    let sorted = sort_entries(vec![
        (contract(1), Val::U32(1)),
        (account(9), Val::U32(2)),
        (contract(0), Val::U32(3)),
        (account(9), Val::U32(4)),
    ]);
    assert_eq!(
        sorted,
        vec![
            (account(9), Val::U32(2)),
            (account(9), Val::U32(4)),
            (contract(0), Val::U32(3)),
            (contract(1), Val::U32(1)),
        ]
    );
    let text = |s: &str| Val::String(s.as_bytes().to_vec());
    let sorted = sort_entries(vec![
        (text("b"), Val::Void),
        (text("ab"), Val::Void),
        (text(""), Val::Void),
    ]);
    let keys: Vec<Val> = sorted.into_iter().map(|e| e.0).collect();
    assert_eq!(keys, vec![text(""), text("ab"), text("b")]);
}

#[test]
fn every_kind_of_type_is_decoded() {
    use_types(stellar_xdr::ScSpecTypeDef::Val, TypeDef::Val);
    use_types(stellar_xdr::ScSpecTypeDef::Bool, TypeDef::Bool);
    use_types(stellar_xdr::ScSpecTypeDef::Void, TypeDef::Void);
    use_types(stellar_xdr::ScSpecTypeDef::Error, TypeDef::Error);
    use_types(stellar_xdr::ScSpecTypeDef::U32, TypeDef::U32);
    use_types(stellar_xdr::ScSpecTypeDef::I32, TypeDef::I32);
    use_types(stellar_xdr::ScSpecTypeDef::U64, TypeDef::U64);
    use_types(stellar_xdr::ScSpecTypeDef::I64, TypeDef::I64);
    use_types(stellar_xdr::ScSpecTypeDef::Timepoint, TypeDef::Timepoint);
    use_types(stellar_xdr::ScSpecTypeDef::Duration, TypeDef::Duration);
    use_types(stellar_xdr::ScSpecTypeDef::U128, TypeDef::U128);
    use_types(stellar_xdr::ScSpecTypeDef::I128, TypeDef::I128);
    use_types(stellar_xdr::ScSpecTypeDef::U256, TypeDef::U256);
    use_types(stellar_xdr::ScSpecTypeDef::I256, TypeDef::I256);
    use_types(stellar_xdr::ScSpecTypeDef::Bytes, TypeDef::Bytes);
    use_types(stellar_xdr::ScSpecTypeDef::String, TypeDef::String);
    use_types(stellar_xdr::ScSpecTypeDef::Symbol, TypeDef::Symbol);
    use_types(stellar_xdr::ScSpecTypeDef::Address, TypeDef::Address);
    use_types(stellar_xdr::ScSpecTypeDef::MuxedAddress, TypeDef::MuxedAddress);
    use_types(
        stellar_xdr::ScSpecTypeDef::Result(Box::new(stellar_xdr::ScSpecTypeResult {
            ok_type: Box::new(stellar_xdr::ScSpecTypeDef::U32),
            error_type: Box::new(stellar_xdr::ScSpecTypeDef::Error),
        })),
        TypeDef::Result(Box::new(TypeDef::U32), Box::new(TypeDef::Error)),
    );
    use_types(
        stellar_xdr::ScSpecTypeDef::Vec(Box::new(stellar_xdr::ScSpecTypeVec {
            element_type: Box::new(stellar_xdr::ScSpecTypeDef::U32),
        })),
        TypeDef::Vec(Box::new(TypeDef::U32)),
    );
    use_types(
        stellar_xdr::ScSpecTypeDef::Map(Box::new(stellar_xdr::ScSpecTypeMap {
            key_type: Box::new(stellar_xdr::ScSpecTypeDef::U32),
            value_type: Box::new(stellar_xdr::ScSpecTypeDef::Bool),
        })),
        TypeDef::Mapping(Box::new(TypeDef::U32), Box::new(TypeDef::Bool)),
    );
    use_types(
        stellar_xdr::ScSpecTypeDef::BytesN(stellar_xdr::ScSpecTypeBytesN { n: 32 }),
        TypeDef::BytesN(32),
    );
    assert_eq!(TypeDef::Udt(vec![b'x'; 61]).to_xdr(), None);
    assert_eq!(TypeDef::Udt(vec![b'x'; 61]).to_debug(), "");
    assert_eq!(TypeDef::Tuple((0..13).map(|_| TypeDef::Bool).collect()).to_xdr(), None);
}

fn use_types(xdr: stellar_xdr::ScSpecTypeDef, ty: TypeDef) {
    assert_eq!(ty.to_debug(), format!("{xdr:?}"));
    assert_eq!(ty.to_xdr(), Some(xdr.clone()));
    assert_eq!(TypeDef::from_xdr(xdr), ty);
}

#[test]
fn structs_enums_and_events_are_decoded() {
    let structure = stellar_xdr::ScSpecEntry::UdtStructV0(stellar_xdr::ScSpecUdtStructV0 {
        doc: "doc".try_into().unwrap(),
        lib: "lib".try_into().unwrap(),
        name: vec![b'S', 0xff].try_into().unwrap(),
        fields: vec![stellar_xdr::ScSpecUdtStructFieldV0 {
            doc: "f".try_into().unwrap(),
            name: "x".try_into().unwrap(),
            type_: stellar_xdr::ScSpecTypeDef::Bool,
        }]
        .try_into()
        .unwrap(),
    });
    let enumeration = stellar_xdr::ScSpecEntry::UdtEnumV0(stellar_xdr::ScSpecUdtEnumV0 {
        doc: "".try_into().unwrap(),
        lib: "".try_into().unwrap(),
        name: "E".try_into().unwrap(),
        cases: vec![stellar_xdr::ScSpecUdtEnumCaseV0 {
            doc: "c".try_into().unwrap(),
            name: "A".try_into().unwrap(),
            value: 2,
        }]
        .try_into()
        .unwrap(),
    });
    let event = stellar_xdr::ScSpecEntry::EventV0(stellar_xdr::ScSpecEventV0 {
        doc: Default::default(),
        lib: Default::default(),
        name: stellar_xdr::ScSymbol("ev".try_into().unwrap()),
        prefix_topics: Default::default(),
        params: Default::default(),
        data_format: stellar_xdr::ScSpecEventDataFormat::SingleValue,
    });
    let mut data = structure.to_xdr(Limits::none()).unwrap();
    data.extend(enumeration.to_xdr(Limits::none()).unwrap());
    data.extend(event.to_xdr(Limits::none()).unwrap());
    assert_eq!(
        decode_entries(&data).unwrap(),
        vec![
            SpecEntry::Struct(StructDef {
                doc: "doc".to_string(),
                name: "S\u{fffd}".to_string(),
                fields: vec![Field {
                    doc: "f".to_string(),
                    name: "x".to_string(),
                    type_: TypeDef::Bool,
                }],
            }),
            SpecEntry::Enum(EnumDef {
                doc: String::new(),
                name: "E".to_string(),
                cases: vec![EnumCase { doc: "c".to_string(), name: "A".to_string(), value: 2 }],
            }),
            SpecEntry::Event,
        ]
    );
    assert!(decode_entries(&data[..data.len() - 4]).is_err());
    assert_eq!(decode_entries(&[]).unwrap(), vec![]);
}

#[test]
fn written_entries_are_taken_out_of_resources() {
    let keys = vec![
        stellar_xdr::LedgerKey::Account(stellar_xdr::LedgerKeyAccount {
            account_id: stellar_xdr::AccountId(stellar_xdr::PublicKey::PublicKeyTypeEd25519(
                stellar_xdr::Uint256([1; 32]),
            )),
        }),
        stellar_xdr::LedgerKey::ContractData(stellar_xdr::LedgerKeyContractData {
            contract: stellar_xdr::ScAddress::Contract(stellar_xdr::ContractId(
                stellar_xdr::Hash([2; 32]),
            )),
            key: stellar_xdr::ScVal::LedgerKeyContractInstance,
            durability: stellar_xdr::ContractDataDurability::Persistent,
        }),
        stellar_xdr::LedgerKey::ContractData(stellar_xdr::LedgerKeyContractData {
            contract: stellar_xdr::ScAddress::Contract(stellar_xdr::ContractId(
                stellar_xdr::Hash([2; 32]),
            )),
            key: stellar_xdr::ScVal::U32(3),
            durability: stellar_xdr::ContractDataDurability::Temporary,
        }),
        stellar_xdr::LedgerKey::ContractCode(stellar_xdr::LedgerKeyContractCode {
            hash: stellar_xdr::Hash([4; 32]),
        }),
        stellar_xdr::LedgerKey::Ttl(stellar_xdr::LedgerKeyTtl {
            key_hash: stellar_xdr::Hash([5; 32]),
        }),
    ];
    let data = stellar_xdr::SorobanTransactionData {
        ext: stellar_xdr::SorobanTransactionDataExt::V0,
        resources: stellar_xdr::SorobanResources {
            footprint: stellar_xdr::LedgerFootprint {
                read_only: Default::default(),
                read_write: keys.clone().try_into().unwrap(),
            },
            instructions: 0,
            disk_read_bytes: 0,
            write_bytes: 0,
        },
        resource_fee: 0,
    };
    assert_eq!(
        writes_of(&data),
        vec![
            FootprintKey::Account([1; 32]),
            FootprintKey::ContractData(
                Address::Contract([2; 32]),
                Val::LedgerKeyContractInstance,
                orcus_api::value::Durability::Persistent
            ),
            FootprintKey::ContractData(
                Address::Contract([2; 32]),
                Val::U32(3),
                orcus_api::value::Durability::Temporary
            ),
            FootprintKey::ContractCode([4; 32]),
            FootprintKey::Other(keys[4].clone()),
        ]
    );
}
