use orcus_api::interface::EnumCase;
use orcus_api::interface::EnumDef;
use orcus_api::interface::Field;
use orcus_api::interface::SpecEntry;
use orcus_api::interface::StructDef;
use orcus_api::interface::TypeDef;
use orcus_api::interface::UnionCase;
use orcus_api::interface::UnionDef;
use orcus_api::json::Json;
use orcus_api::scval::address_from_keys;
use orcus_api::scval::address_from_str;
use orcus_api::scval::address_to_string;
use orcus_api::scval::as_i128;
use orcus_api::scval::as_u128;
use orcus_api::scval::bytes_from_json;
use orcus_api::scval::enum_to_scval;
use orcus_api::scval::i128_from_parts;
use orcus_api::scval::i128_to_parts;
use orcus_api::scval::json_key_to_scval;
use orcus_api::scval::json_to_scval;
use orcus_api::scval::symbol_from_bytes;
use orcus_api::scval::symbol_from_str;
use orcus_api::scval::u128_from_parts;
use orcus_api::scval::u128_to_parts;
use orcus_api::scval::union_to_scval;
use orcus_api::spec::ContractSpec;
use orcus_api::value::Address;
use orcus_api::value::Int128Parts;
use orcus_api::value::UInt128Parts;
use orcus_api::value::Val;

const ZERO_ACCOUNT: &str = "GAAAAAAAAAAAAAAAAAAAAAAAAAAAAAAAAAAAAAAAAAAAAAAAAAAAAWHF";
const ONE_CONTRACT: &str = "CAAAAAAAAAAAAAAAAAAAAAAAAAAAAAAAAAAAAAAAAAAAAAAAAAAAD2KM";

fn one() -> [u8; 32] {
    let mut id = [0; 32];
    id[31] = 1;
    id
}

fn json(text: &str) -> Json {
    Json::parse(text).unwrap()
}

fn field(name: &str, type_: TypeDef) -> Field {
    Field { doc: String::new(), name: name.to_string(), type_ }
}

fn udt(name: &str) -> TypeDef {
    TypeDef::Udt(name.as_bytes().to_vec())
}

fn symbol(name: &str) -> Val {
    Val::Symbol(name.as_bytes().to_vec())
}

fn case(name: &str, value: u32) -> EnumCase {
    EnumCase { doc: String::new(), name: name.to_string(), value }
}

fn spec() -> ContractSpec {
    ContractSpec::from_entries(vec![
        SpecEntry::Struct(StructDef {
            doc: String::new(),
            name: "Point".to_string(),
            fields: vec![field("y", TypeDef::U32), field("x", TypeDef::I32)],
        }),
        SpecEntry::Struct(StructDef {
            doc: String::new(),
            name: "Pair".to_string(),
            fields: vec![field("0", TypeDef::U32), field("1", TypeDef::Bool)],
        }),
        SpecEntry::Struct(StructDef {
            doc: String::new(),
            name: "Unit".to_string(),
            fields: vec![],
        }),
        SpecEntry::Union(UnionDef {
            doc: String::new(),
            name: "Shape".to_string(),
            cases: vec![
                UnionCase { doc: String::new(), name: "Dot".to_string(), types: None },
                UnionCase {
                    doc: String::new(),
                    name: "Circle".to_string(),
                    types: Some(vec![TypeDef::U32]),
                },
                UnionCase {
                    doc: String::new(),
                    name: "Rect".to_string(),
                    types: Some(vec![TypeDef::U32, TypeDef::U32]),
                },
            ],
        }),
        SpecEntry::Enum(EnumDef {
            doc: String::new(),
            name: "Color".to_string(),
            cases: vec![case("Red", 1), case("Blue", 7)],
        }),
        SpecEntry::ErrorEnum(EnumDef {
            doc: String::new(),
            name: "Fault".to_string(),
            cases: vec![case("Bad", 3)],
        }),
    ])
}

fn read(text: &str, ty: &TypeDef) -> Result<Val, String> {
    json_to_scval(&json(text), ty, &spec()).map_err(|e| e.message)
}

fn refused(text: &str, ty: &TypeDef) -> String {
    read(text, ty).unwrap_err()
}

#[test]
fn booleans_and_void_are_read() {
    assert_eq!(read("true", &TypeDef::Bool), Ok(Val::Bool(true)));
    assert_eq!(refused("1", &TypeDef::Bool), "expected a boolean");
    assert_eq!(read("[1,2]", &TypeDef::Void), Ok(Val::Void));
}

#[test]
fn small_integers_are_read_within_their_range() {
    assert_eq!(read("4294967295", &TypeDef::U32), Ok(Val::U32(u32::MAX)));
    assert_eq!(read("\"12\"", &TypeDef::U32), Ok(Val::U32(12)));
    assert_eq!(refused("4294967296", &TypeDef::U32), "u32 value out of range");
    assert_eq!(read("-2147483648", &TypeDef::I32), Ok(Val::I32(i32::MIN)));
    assert_eq!(refused("2147483648", &TypeDef::I32), "i32 value out of range");
    assert_eq!(refused("-1", &TypeDef::U32), "expected an integer or a numeric string");
}

#[test]
fn wide_integers_are_read_as_numbers_or_strings() {
    assert_eq!(read("18446744073709551615", &TypeDef::U64), Ok(Val::U64(u64::MAX)));
    assert_eq!(read("\"18446744073709551615\"", &TypeDef::U64), Ok(Val::U64(u64::MAX)));
    assert_eq!(read("\"-5\"", &TypeDef::I64), Ok(Val::I64(-5)));
    assert_eq!(read("7", &TypeDef::Timepoint), Ok(Val::Timepoint(7)));
    assert_eq!(read("\"8\"", &TypeDef::Duration), Ok(Val::Duration(8)));
    assert_eq!(
        read("\"18446744073709551617\"", &TypeDef::U128),
        Ok(Val::U128(UInt128Parts { hi: 1, lo: 1 }))
    );
    assert_eq!(read("-1", &TypeDef::I128), Ok(Val::I128(Int128Parts { hi: -1, lo: u64::MAX })));
    assert_eq!(
        refused("\"18446744073709551616\"", &TypeDef::U64),
        "invalid integer `18446744073709551616`: number too large to fit in target type"
    );
    assert_eq!(
        refused("\"-9223372036854775809\"", &TypeDef::I64),
        "invalid integer `-9223372036854775809`: number too small to fit in target type"
    );
    assert_eq!(refused("\"\"", &TypeDef::U128), "invalid u128 ``: cannot parse integer from empty string");
    assert_eq!(refused("\"1x\"", &TypeDef::I128), "invalid i128 `1x`: invalid digit found in string");
    assert_eq!(refused("1.5", &TypeDef::U64), "expected an integer or a numeric string");
    assert_eq!(as_u128(&json("3")).unwrap(), 3);
    assert_eq!(as_i128(&json("\"-170141183460469231731687303715884105728\"")).unwrap(), i128::MIN);
}

#[test]
fn halves_of_wide_integers_make_the_integer() {
    for n in [0u128, 1, u64::MAX as u128, 1 << 64, u128::MAX] {
        assert_eq!(u128_from_parts(&u128_to_parts(n)), n);
    }
    for n in [0i128, -1, i64::MIN as i128, -(1 << 64), (1 << 64) + 5, i128::MIN, i128::MAX] {
        assert_eq!(i128_from_parts(&i128_to_parts(n)), n);
    }
    assert_eq!(u128_to_parts((3 << 64) + 9), UInt128Parts { hi: 3, lo: 9 });
    assert_eq!(i128_to_parts(-2), Int128Parts { hi: -1, lo: u64::MAX - 1 });
}

#[test]
fn types_without_a_plain_notation_are_refused() {
    assert_eq!(refused("1", &TypeDef::Val), "`val` args must be supplied via {\"__xdr\": ...}");
    assert_eq!(refused("1", &TypeDef::Error), "`error` values cannot be supplied as arguments");
    assert_eq!(refused("1", &TypeDef::U256), "u256 args must be supplied via {\"__xdr\": ...}");
    assert_eq!(refused("1", &TypeDef::I256), "i256 args must be supplied via {\"__xdr\": ...}");
    assert_eq!(
        refused("1", &TypeDef::Result(Box::new(TypeDef::U32), Box::new(TypeDef::Error))),
        "result-typed args must be supplied via {\"__xdr\": ...}"
    );
}

#[test]
fn bytes_are_read_in_three_notations() {
    let wanted = Ok(Val::Bytes(vec![0, 171, 255]));
    assert_eq!(read("\"00abff\"", &TypeDef::Bytes), wanted);
    assert_eq!(read("\"0x00ABff\"", &TypeDef::Bytes), wanted);
    assert_eq!(read("[0,171,255]", &TypeDef::Bytes), wanted);
    assert_eq!(read("\"00abff\"", &TypeDef::BytesN(3)), wanted);
    assert_eq!(refused("\"00ab\"", &TypeDef::BytesN(3)), "expected exactly 3 byte(s), got 2");
    assert_eq!(refused("\"0\"", &TypeDef::Bytes), "invalid hex bytes: Odd number of digits");
    assert_eq!(
        refused("\"zz\"", &TypeDef::Bytes),
        "invalid hex bytes: Invalid character 'z' at position 0"
    );
    assert_eq!(refused("[256]", &TypeDef::Bytes), "byte array elements must be integers 0-255");
    assert_eq!(refused("[\"1\"]", &TypeDef::Bytes), "byte array elements must be integers 0-255");
    assert_eq!(
        refused("true", &TypeDef::Bytes),
        "expected a hex string (optionally 0x-prefixed) or an array of byte values"
    );
    assert_eq!(bytes_from_json(&json("[]")).unwrap(), Vec::<u8>::new());
}

#[test]
fn texts_are_read_with_escapes() {
    assert_eq!(read("\"hi\"", &TypeDef::String), Ok(Val::String(b"hi".to_vec())));
    assert_eq!(read("\"\\u00e9\"", &TypeDef::String), Ok(Val::String(vec![0xc3, 0xa9])));
    assert_eq!(read("\"a\\\\x41\\\\n\"", &TypeDef::String), Ok(Val::String(b"aA\n".to_vec())));
    assert_eq!(refused("\"\\\\q\"", &TypeDef::String), "string value too long");
    assert_eq!(refused("1", &TypeDef::String), "expected a string");
    assert_eq!(read("\"abc\"", &TypeDef::Symbol), Ok(symbol("abc")));
    assert_eq!(refused("1", &TypeDef::Symbol), "expected a string for symbol");
    let long = "a".repeat(33);
    assert_eq!(
        refused(&format!("\"{long}\""), &TypeDef::Symbol),
        format!("symbol `{long}` is invalid or too long")
    );
    assert_eq!(symbol_from_str(&"b".repeat(32)).unwrap(), vec![b'b'; 32]);
    assert_eq!(symbol_from_bytes("x", Some(vec![1; 32])).unwrap(), vec![1; 32]);
    assert_eq!(
        symbol_from_bytes("x", Some(vec![1; 33])).unwrap_err().message,
        "symbol `x` is invalid or too long"
    );
    assert_eq!(
        symbol_from_bytes("x", None).unwrap_err().message,
        "symbol `x` is invalid or too long"
    );
}

#[test]
fn addresses_are_strkeys() {
    assert_eq!(
        read(&format!("\"{ZERO_ACCOUNT}\""), &TypeDef::Address),
        Ok(Val::Address(Address::Account([0; 32])))
    );
    assert_eq!(
        read(&format!("\"{ONE_CONTRACT}\""), &TypeDef::MuxedAddress),
        Ok(Val::Address(Address::Contract(one())))
    );
    assert_eq!(refused("7", &TypeDef::Address), "expected an address string");
    assert_eq!(
        refused("\"GBAD\"", &TypeDef::Address),
        "invalid address `GBAD`: expected a G... account or C... contract strkey"
    );
    assert_eq!(address_to_string(&Address::Account([0; 32])), ZERO_ACCOUNT);
    assert_eq!(address_to_string(&Address::Contract(one())), ONE_CONTRACT);
    assert_eq!(address_from_str(ONE_CONTRACT).unwrap(), Address::Contract(one()));
    let pool = stellar_xdr::PoolId(stellar_xdr::Hash([9; 32]));
    assert_eq!(
        address_to_string(&Address::LiquidityPool(pool.clone())),
        format!("{:?}", stellar_xdr::ScAddress::LiquidityPool(pool))
    );
    assert_eq!(
        address_from_keys("s", None, Some([4; 32])).unwrap(),
        Address::Contract([4; 32])
    );
    assert_eq!(
        address_from_keys("s", Some([3; 32]), Some([4; 32])).unwrap(),
        Address::Account([3; 32])
    );
}

#[test]
fn null_is_an_optional_value_that_is_not_there() {
    let ty = TypeDef::Option(Box::new(TypeDef::U32));
    assert_eq!(read("null", &ty), Ok(Val::Void));
    assert_eq!(read("5", &ty), Ok(Val::U32(5)));
    assert_eq!(refused("true", &ty), "expected an integer or a numeric string");
}

#[test]
fn lists_and_tuples_are_arrays() {
    let list = TypeDef::Vec(Box::new(TypeDef::U32));
    assert_eq!(read("[1,2]", &list), Ok(Val::Vec(Some(vec![Val::U32(1), Val::U32(2)]))));
    assert_eq!(refused("[1,true,\"x\"]", &list), "expected an integer or a numeric string");
    assert_eq!(refused("{}", &list), "expected an array");
    let tuple = TypeDef::Tuple(vec![TypeDef::U32, TypeDef::Bool]);
    assert_eq!(read("[1,true]", &tuple), Ok(Val::Vec(Some(vec![Val::U32(1), Val::Bool(true)]))));
    assert_eq!(refused("[1]", &tuple), "tuple arity mismatch: expected 2 element(s), got 1");
    assert_eq!(refused("1", &tuple), "expected an array for a tuple argument");
}

#[test]
fn maps_are_sorted_by_key() {
    let ty = TypeDef::Mapping(Box::new(TypeDef::U32), Box::new(TypeDef::Bool));
    assert_eq!(
        read("{\"10\":true,\"9\":false}", &ty),
        Ok(Val::Mapping(Some(vec![
            (Val::U32(9), Val::Bool(false)),
            (Val::U32(10), Val::Bool(true)),
        ])))
    );
    let signed = TypeDef::Mapping(Box::new(TypeDef::I64), Box::new(TypeDef::Void));
    assert_eq!(
        read("{\"+1\":1,\"-3\":1,\"1\":1}", &signed),
        Ok(Val::Mapping(Some(vec![
            (Val::I64(-3), Val::Void),
            (Val::I64(1), Val::Void),
            (Val::I64(1), Val::Void),
        ])))
    );
    assert_eq!(refused("[]", &ty), "expected an object for a map argument");
    assert_eq!(refused("{\"x\":true}", &ty), "invalid u32 map key `x`");
    assert_eq!(refused("{\"1\":1}", &ty), "expected a boolean");
}

#[test]
fn entries_with_one_key_keep_their_order() {
    let ty = TypeDef::Mapping(Box::new(TypeDef::U32), Box::new(TypeDef::String));
    assert_eq!(
        read("{\"+7\":\"first\",\"07\":\"second\",\"7\":\"third\"}", &ty),
        Ok(Val::Mapping(Some(vec![
            (Val::U32(7), Val::String(b"first".to_vec())),
            (Val::U32(7), Val::String(b"second".to_vec())),
            (Val::U32(7), Val::String(b"third".to_vec())),
        ])))
    );
}

#[test]
fn map_keys_are_read_by_their_type() {
    let key = |text: &str, ty: &TypeDef| json_key_to_scval(text, ty).map_err(|e| e.message);
    assert_eq!(key("ab", &TypeDef::Symbol), Ok(symbol("ab")));
    assert_eq!(key("ab", &TypeDef::String), Ok(Val::String(b"ab".to_vec())));
    assert_eq!(key(ZERO_ACCOUNT, &TypeDef::Address), Ok(Val::Address(Address::Account([0; 32]))));
    assert_eq!(key("true", &TypeDef::Bool), Ok(Val::Bool(true)));
    assert_eq!(key("false", &TypeDef::Bool), Ok(Val::Bool(false)));
    assert_eq!(key("yes", &TypeDef::Bool), Err("invalid boolean map key `yes`".to_string()));
    assert_eq!(key("-2", &TypeDef::I32), Ok(Val::I32(-2)));
    assert_eq!(key("2147483648", &TypeDef::I32), Err("invalid i32 map key `2147483648`".to_string()));
    assert_eq!(key("9", &TypeDef::U64), Ok(Val::U64(9)));
    assert_eq!(key("-9", &TypeDef::U64), Err("invalid u64 map key `-9`".to_string()));
    assert_eq!(key("z", &TypeDef::I64), Err("invalid i64 map key `z`".to_string()));
    assert_eq!(key("\\", &TypeDef::String), Err("map key string too long".to_string()));
    assert_eq!(
        key("1", &TypeDef::U128),
        Err("map keys of type U128 must be supplied via a whole-argument {\"__xdr\": ...} map".to_string())
    );
    assert_eq!(
        key("1", &TypeDef::BytesN(4)),
        Err(format!(
            "map keys of type {:?} must be supplied via a whole-argument {{\"__xdr\": ...}} map",
            stellar_xdr::ScSpecTypeDef::BytesN(stellar_xdr::ScSpecTypeBytesN { n: 4 })
        ))
    );
}

#[test]
fn named_structs_are_objects() {
    assert_eq!(
        read("{\"y\":1,\"x\":-1,\"z\":0}", &udt("Point")),
        Ok(Val::Mapping(Some(vec![
            (symbol("x"), Val::I32(-1)),
            (symbol("y"), Val::U32(1)),
        ])))
    );
    assert_eq!(refused("{\"y\":1}", &udt("Point")), "struct `Point` is missing field `x`");
    assert_eq!(refused("[1,2]", &udt("Point")), "expected an object for struct `Point`");
    assert_eq!(read("{}", &udt("Unit")), Ok(Val::Mapping(Some(vec![]))));
}

#[test]
fn numbered_structs_are_arrays() {
    assert_eq!(
        read("[1,true]", &udt("Pair")),
        Ok(Val::Vec(Some(vec![Val::U32(1), Val::Bool(true)])))
    );
    assert_eq!(refused("[1]", &udt("Pair")), "struct `Pair` expects 2 field(s), got 1");
    assert_eq!(refused("{}", &udt("Pair")), "expected an array for tuple struct `Pair`");
}

#[test]
fn unions_are_case_names_or_objects() {
    let dot = Ok(Val::Vec(Some(vec![symbol("Dot")])));
    assert_eq!(read("\"Dot\"", &udt("Shape")), dot);
    assert_eq!(read("{\"Dot\":[]}", &udt("Shape")), dot);
    assert_eq!(read("{\"Dot\":null}", &udt("Shape")), dot);
    let circle = Ok(Val::Vec(Some(vec![symbol("Circle"), Val::U32(5)])));
    assert_eq!(read("{\"Circle\":[5]}", &udt("Shape")), circle);
    assert_eq!(read("{\"Circle\":5}", &udt("Shape")), circle);
    assert_eq!(
        refused("{\"Dot\":1}", &udt("Shape")),
        "case `Dot` of union `Shape` takes no arguments"
    );
    assert_eq!(
        refused("{\"Rect\":[1]}", &udt("Shape")),
        "case `Rect` of union `Shape` expects 2 argument(s), got 1"
    );
    assert_eq!(
        refused("\"Circle\"", &udt("Shape")),
        "case `Circle` of union `Shape` expects 1 argument(s), got 0"
    );
    assert_eq!(refused("\"Star\"", &udt("Shape")), "union `Shape` has no case `Star`");
    assert_eq!(
        refused("{\"Dot\":1,\"Circle\":2}", &udt("Shape")),
        "expected a case name string, or a single-key object of {\"CaseName\": [args...]}, for union `Shape`"
    );
    assert_eq!(
        refused("3", &udt("Shape")),
        "expected a case name string, or a single-key object of {\"CaseName\": [args...]}, for union `Shape`"
    );
}

#[test]
fn enums_are_case_names_or_numbers() {
    assert_eq!(read("\"Blue\"", &udt("Color")), Ok(Val::U32(7)));
    assert_eq!(read("7", &udt("Color")), Ok(Val::U32(7)));
    assert_eq!(refused("2", &udt("Color")), "enum `Color` has no case with value 2");
    assert_eq!(refused("\"Pink\"", &udt("Color")), "enum `Color` has no case `Pink`");
    assert_eq!(refused("4294967296", &udt("Color")), "enum value out of range");
    assert_eq!(
        refused("true", &udt("Color")),
        "expected a case name string or integer for enum `Color`"
    );
    assert_eq!(read("\"Bad\"", &udt("Fault")), Ok(Val::U32(3)));
    assert_eq!(read("99", &udt("Fault")), Ok(Val::U32(99)));
    assert_eq!(refused("\"Odd\"", &udt("Fault")), "error enum `Fault` has no case `Odd`");
    assert_eq!(refused("4294967296", &udt("Fault")), "error enum value out of range");
    assert_eq!(
        refused("[]", &udt("Fault")),
        "expected a case name string or integer for error enum `Fault`"
    );
    let e = EnumDef { doc: String::new(), name: "E".to_string(), cases: vec![case("A", 0)] };
    assert_eq!(enum_to_scval(&e, &json("0")).unwrap(), Val::U32(0));
}

#[test]
fn undefined_types_are_refused() {
    assert_eq!(
        refused("1", &udt("Nope")),
        "contract spec does not define user-defined type `Nope`"
    );
}

#[test]
fn wire_notation_is_taken_as_it_is_for_any_type() {
    for ty in [TypeDef::Bool, TypeDef::U256, TypeDef::Val, udt("Nope")] {
        assert_eq!(read("{\"__xdr\":{\"u32\":5}}", &ty), Ok(Val::U32(5)));
        assert_eq!(read("{\"__xdr\":\"void\"}", &ty), Ok(Val::Void));
    }
    let bad: Result<stellar_xdr::ScVal, serde_json::Error> =
        serde_json::from_value(serde_json::Value::Bool(true));
    assert_eq!(
        refused("{\"__xdr\":true}", &TypeDef::U32),
        format!("invalid `__xdr` escape-hatch value: {}", bad.unwrap_err())
    );
}

#[test]
fn numbers_of_either_sign_are_taken_as_i128() {
    assert_eq!(as_i128(&json("9223372036854775808")), Ok(1 << 63));
    assert_eq!(as_i128(&json("18446744073709551615")), Ok(u64::MAX as i128));
    assert_eq!(as_i128(&json("-9223372036854775808")), Ok(i64::MIN as i128));
    assert_eq!(
        json_to_scval(&json("9223372036854775808"), &TypeDef::I128, &spec()),
        Ok(Val::I128(Int128Parts { hi: 0, lo: 1 << 63 }))
    );
    assert!(as_i128(&json("1.5")).is_err());
}

#[test]
fn escapes_in_texts_are_undone() {
    let text = |s: &str| json_key_to_scval(s, &TypeDef::String);
    assert_eq!(text("\\0\\t\\n\\r\\\\"), Ok(Val::String(b"\0\t\n\r\\".to_vec())));
    assert_eq!(text("\\xfF\u{e9}"), Ok(Val::String(vec![0xff, 0xc3, 0xa9])));
    for malformed in ["\\", "a\\", "\\q", "\\x", "\\x1", "\\xg0", "\\x0g", "\\\u{e9}"] {
        assert!(text(malformed).is_err());
    }
}

#[test]
fn bare_cases_can_be_written_in_three_ways() {
    let cases = vec![
        UnionCase { doc: String::new(), name: "None".to_string(), types: None },
        UnionCase { doc: String::new(), name: "One".to_string(), types: Some(vec![TypeDef::U32]) },
    ];
    let spec = ContractSpec::from_entries(vec![SpecEntry::Union(UnionDef {
        doc: String::new(),
        name: "U".to_string(),
        cases,
    })]);
    let read = |text: &str| union_to_scval("U", &json(text), &spec);
    for text in ["\"None\"", "{\"None\":[]}", "{\"None\":null}"] {
        assert_eq!(read(text), Ok(Val::Vec(Some(vec![symbol("None")]))));
    }
    for text in ["\"One\"", "{\"One\":[]}", "{\"One\":null}"] {
        assert!(read(text).is_err());
    }
}
