use orcus_api::interface::EnumCase;
use orcus_api::interface::EnumDef;
use orcus_api::interface::Field;
use orcus_api::interface::Function;
use orcus_api::interface::SpecEntry;
use orcus_api::interface::StructDef;
use orcus_api::interface::TypeDef;
use orcus_api::interface::UnionCase;
use orcus_api::interface::UnionDef;
use orcus_api::spec::enum_case;
use orcus_api::spec::find_section;
use orcus_api::spec::read_spec_entries_from_wasm;
use orcus_api::spec::ContractSpec;
use orcus_api::spec_json::function_to_json;
use orcus_api::spec_json::type_def_to_json;
use orcus_api::xdr_types::WasmPart;
use stellar_xdr::Limits;
use stellar_xdr::WriteXdr;

fn function(name: &str) -> Function {
    Function { doc: "d".to_string(), name: name.to_string(), inputs: vec![], outputs: vec![] }
}

fn structure(name: &str, doc: &str) -> StructDef {
    StructDef { doc: doc.to_string(), name: name.to_string(), fields: vec![] }
}

fn leb(mut n: usize) -> Vec<u8> {
    let mut out = vec![];
    loop {
        let low = (n & 127) as u8;
        n >>= 7;
        if n == 0 {
            out.push(low);
            return out;
        }
        out.push(low | 128);
    }
}

fn section(name: &str, data: &[u8]) -> Vec<u8> {
    let mut body = leb(name.len());
    body.extend(name.as_bytes());
    body.extend(data);
    let mut out = vec![0];
    out.extend(leb(body.len()));
    out.extend(body);
    out
}

fn module(sections: &[Vec<u8>]) -> Vec<u8> {
    let mut out = vec![0, 0x61, 0x73, 0x6d, 1, 0, 0, 0];
    for s in sections {
        out.extend(s);
    }
    out
}

fn xdr_function() -> stellar_xdr::ScSpecEntry {
    stellar_xdr::ScSpecEntry::FunctionV0(stellar_xdr::ScSpecFunctionV0 {
        doc: "adds".try_into().unwrap(),
        name: stellar_xdr::ScSymbol("add".try_into().unwrap()),
        inputs: vec![stellar_xdr::ScSpecFunctionInputV0 {
            doc: "left".try_into().unwrap(),
            name: "a".try_into().unwrap(),
            type_: stellar_xdr::ScSpecTypeDef::Option(Box::new(stellar_xdr::ScSpecTypeOption {
                value_type: Box::new(stellar_xdr::ScSpecTypeDef::U32),
            })),
        }]
        .try_into()
        .unwrap(),
        outputs: vec![stellar_xdr::ScSpecTypeDef::Tuple(Box::new(stellar_xdr::ScSpecTypeTuple {
            value_types: vec![
                stellar_xdr::ScSpecTypeDef::I128,
                stellar_xdr::ScSpecTypeDef::Udt(stellar_xdr::ScSpecTypeUdt {
                    name: "P".try_into().unwrap(),
                }),
            ]
            .try_into()
            .unwrap(),
        }))]
        .try_into()
        .unwrap(),
    })
}

fn xdr_union() -> stellar_xdr::ScSpecEntry {
    stellar_xdr::ScSpecEntry::UdtUnionV0(stellar_xdr::ScSpecUdtUnionV0 {
        doc: "u".try_into().unwrap(),
        lib: "".try_into().unwrap(),
        name: "U".try_into().unwrap(),
        cases: vec![
            stellar_xdr::ScSpecUdtUnionCaseV0::VoidV0(stellar_xdr::ScSpecUdtUnionCaseVoidV0 {
                doc: "".try_into().unwrap(),
                name: "A".try_into().unwrap(),
            }),
            stellar_xdr::ScSpecUdtUnionCaseV0::TupleV0(stellar_xdr::ScSpecUdtUnionCaseTupleV0 {
                doc: "".try_into().unwrap(),
                name: "B".try_into().unwrap(),
                type_: vec![stellar_xdr::ScSpecTypeDef::Bool].try_into().unwrap(),
            }),
        ]
        .try_into()
        .unwrap(),
    })
}

fn xdr_error_enum() -> stellar_xdr::ScSpecEntry {
    stellar_xdr::ScSpecEntry::UdtErrorEnumV0(stellar_xdr::ScSpecUdtErrorEnumV0 {
        doc: "".try_into().unwrap(),
        lib: "".try_into().unwrap(),
        name: "E".try_into().unwrap(),
        cases: vec![stellar_xdr::ScSpecUdtErrorEnumCaseV0 {
            doc: "".try_into().unwrap(),
            name: "Bad".try_into().unwrap(),
            value: 3,
        }]
        .try_into()
        .unwrap(),
    })
}

#[test]
fn entries_are_read_out_of_a_module() {
    let mut data = xdr_function().to_xdr(Limits::none()).unwrap();
    data.extend(xdr_union().to_xdr(Limits::none()).unwrap());
    data.extend(xdr_error_enum().to_xdr(Limits::none()).unwrap());
    let wasm = module(&[section("other", b"zz"), section("contractspecv0", &data)]);
    assert_eq!(
        read_spec_entries_from_wasm(&wasm).unwrap(),
        vec![
            SpecEntry::Function(Function {
                doc: "adds".to_string(),
                name: "add".to_string(),
                inputs: vec![Field {
                    doc: "left".to_string(),
                    name: "a".to_string(),
                    type_: TypeDef::Option(Box::new(TypeDef::U32)),
                }],
                outputs: vec![TypeDef::Tuple(vec![TypeDef::I128, TypeDef::Udt(b"P".to_vec())])],
            }),
            SpecEntry::Union(UnionDef {
                doc: "u".to_string(),
                name: "U".to_string(),
                cases: vec![
                    UnionCase { doc: String::new(), name: "A".to_string(), types: None },
                    UnionCase {
                        doc: String::new(),
                        name: "B".to_string(),
                        types: Some(vec![TypeDef::Bool]),
                    },
                ],
            }),
            SpecEntry::ErrorEnum(EnumDef {
                doc: String::new(),
                name: "E".to_string(),
                cases: vec![EnumCase { doc: String::new(), name: "Bad".to_string(), value: 3 }],
            }),
        ]
    );
}

#[test]
fn the_first_interface_section_counts() {
    let data = xdr_function().to_xdr(Limits::none()).unwrap();
    let wasm = module(&[section("contractspecv0", &data), section("contractspecv0", &[1])]);
    assert_eq!(read_spec_entries_from_wasm(&wasm).unwrap().len(), 1);
}

#[test]
fn modules_without_an_interface_are_refused() {
    let missing = "WASM module has no `contractspecv0` custom section; it may not be a Soroban contract, or was built without contract metadata";
    let refused = |wasm: &[u8]| read_spec_entries_from_wasm(wasm).unwrap_err().message;
    assert_eq!(refused(&module(&[section("other", b"")])), missing);
    assert_eq!(refused(b"no wasm"), "failed parsing WASM module");
    let wasm = module(&[section("contractspecv0", &[0, 0, 0, 99])]);
    assert!(refused(&wasm).starts_with("failed decoding contract spec entries: "));
}

#[test]
fn sections_are_found_among_parts() {
    let wanted = WasmPart::Custom("contractspecv0".to_string(), vec![5]);
    assert_eq!(find_section(&vec![WasmPart::Other, wanted]).unwrap(), &vec![5]);
    let parts = vec![
        WasmPart::Malformed,
        WasmPart::Custom("contractspecv0".to_string(), vec![5]),
    ];
    assert_eq!(find_section(&parts).unwrap_err().message, "failed parsing WASM module");
}

#[test]
fn the_last_type_of_a_name_counts() {
    let spec = ContractSpec::from_entries(vec![
        SpecEntry::Function(function("f")),
        SpecEntry::Struct(structure("S", "old")),
        SpecEntry::Event,
        SpecEntry::Struct(structure("T", "other")),
        SpecEntry::Struct(structure("S", "new")),
        SpecEntry::Function(function("g")),
        SpecEntry::Function(function("f")),
    ]);
    assert_eq!(spec.structs.len(), 2);
    assert_eq!(spec.struct_def("S").unwrap().doc, "new");
    assert_eq!(spec.struct_def("T").unwrap().doc, "other");
    assert_eq!(spec.struct_def("U"), None);
    let names: Vec<&str> = spec.functions.iter().map(|f| f.name.as_str()).collect();
    assert_eq!(names, ["f", "g", "f"]);
    assert_eq!(spec.function("g").unwrap().name, "g");
    assert_eq!(spec.function("h"), None);
}

#[test]
fn cases_are_looked_up_by_name() {
    let cases = vec![
        UnionCase { doc: "first".to_string(), name: "A".to_string(), types: None },
        UnionCase { doc: "second".to_string(), name: "A".to_string(), types: None },
    ];
    let spec = ContractSpec::from_entries(vec![SpecEntry::Union(UnionDef {
        doc: String::new(),
        name: "U".to_string(),
        cases,
    })]);
    assert_eq!(spec.union_case("U", "A").unwrap().doc, "first");
    assert_eq!(spec.union_case("U", "B"), None);
    assert_eq!(spec.union_case("V", "A"), None);
    let e = EnumDef {
        doc: String::new(),
        name: "E".to_string(),
        cases: vec![EnumCase { doc: String::new(), name: "X".to_string(), value: 4 }],
    };
    assert_eq!(enum_case(&e, "X").unwrap().value, 4);
    assert_eq!(enum_case(&e, "Y"), None);
}

#[test]
fn types_are_rendered() {
    let show = |t: TypeDef| type_def_to_json(&t).to_text();
    assert_eq!(show(TypeDef::MuxedAddress), "{\"kind\":\"muxed_address\"}");
    assert_eq!(show(TypeDef::Timepoint), "{\"kind\":\"timepoint\"}");
    assert_eq!(
        show(TypeDef::Option(Box::new(TypeDef::U32))),
        "{\"kind\":\"option\",\"value\":{\"kind\":\"u32\"}}"
    );
    assert_eq!(
        show(TypeDef::Result(Box::new(TypeDef::U32), Box::new(TypeDef::Error))),
        "{\"error\":{\"kind\":\"error\"},\"kind\":\"result\",\"ok\":{\"kind\":\"u32\"}}"
    );
    assert_eq!(
        show(TypeDef::Vec(Box::new(TypeDef::I64))),
        "{\"element\":{\"kind\":\"i64\"},\"kind\":\"vec\"}"
    );
    assert_eq!(
        show(TypeDef::Mapping(Box::new(TypeDef::Symbol), Box::new(TypeDef::Bytes))),
        "{\"key\":{\"kind\":\"symbol\"},\"kind\":\"map\",\"value\":{\"kind\":\"bytes\"}}"
    );
    assert_eq!(
        show(TypeDef::Tuple(vec![TypeDef::Bool, TypeDef::Void])),
        "{\"elements\":[{\"kind\":\"bool\"},{\"kind\":\"void\"}],\"kind\":\"tuple\"}"
    );
    assert_eq!(show(TypeDef::BytesN(32)), "{\"kind\":\"bytesN\",\"n\":32}");
    assert_eq!(show(TypeDef::Udt(b"Point".to_vec())), "{\"kind\":\"udt\",\"name\":\"Point\"}");
}

#[test]
fn functions_are_rendered() {
    assert_eq!(
        function_to_json(&function("f")).to_text(),
        "{\"doc\":\"d\",\"inputs\":[],\"name\":\"f\",\"output\":null}"
    );
    let f = Function {
        doc: String::new(),
        name: "g".to_string(),
        inputs: vec![Field { doc: "x".to_string(), name: "a".to_string(), type_: TypeDef::U32 }],
        outputs: vec![TypeDef::Bool],
    };
    assert_eq!(
        function_to_json(&f).to_text(),
        "{\"doc\":\"\",\"inputs\":[{\"doc\":\"x\",\"name\":\"a\",\"type\":{\"kind\":\"u32\"}}],\"name\":\"g\",\"output\":{\"kind\":\"bool\"}}"
    );
}

#[test]
fn interfaces_are_rendered() {
    let case = |name: &str, value: u32| EnumCase { doc: String::new(), name: name.to_string(), value };
    let spec = ContractSpec::from_entries(vec![
        SpecEntry::Struct(structure("S", "s")),
        SpecEntry::Union(UnionDef {
            doc: String::new(),
            name: "U".to_string(),
            cases: vec![
                UnionCase { doc: String::new(), name: "A".to_string(), types: None },
                UnionCase {
                    doc: String::new(),
                    name: "B".to_string(),
                    types: Some(vec![TypeDef::Bool]),
                },
            ],
        }),
        SpecEntry::Enum(EnumDef {
            doc: String::new(),
            name: "E".to_string(),
            cases: vec![case("X", 1)],
        }),
        SpecEntry::ErrorEnum(EnumDef { doc: String::new(), name: "F".to_string(), cases: vec![] }),
    ]);
    assert_eq!(
        spec.to_json().to_text(),
        "{\"enums\":[{\"cases\":[{\"doc\":\"\",\"name\":\"X\",\"value\":1}],\"doc\":\"\",\"name\":\"E\"}],\
         \"error_enums\":[{\"cases\":[],\"doc\":\"\",\"name\":\"F\"}],\
         \"functions\":[],\
         \"structs\":[{\"doc\":\"s\",\"fields\":[],\"name\":\"S\"}],\
         \"unions\":[{\"cases\":[{\"doc\":\"\",\"kind\":\"void\",\"name\":\"A\",\"types\":[]},\
         {\"doc\":\"\",\"kind\":\"tuple\",\"name\":\"B\",\"types\":[{\"kind\":\"bool\"}]}],\"doc\":\"\",\"name\":\"U\"}]}"
    );
}

#[test]
fn types_render_apart() {
    let types = || {
        let pair = |a: TypeDef, b: TypeDef| TypeDef::Tuple(vec![a, b]);
        vec![
            TypeDef::Bytes,
            TypeDef::BytesN(32),
            TypeDef::BytesN(33),
            TypeDef::Udt(b"A".to_vec()),
            TypeDef::Udt(b"B".to_vec()),
            TypeDef::Vec(Box::new(TypeDef::U32)),
            TypeDef::Option(Box::new(TypeDef::U32)),
            TypeDef::Vec(Box::new(TypeDef::Vec(Box::new(TypeDef::U32)))),
            TypeDef::Mapping(Box::new(TypeDef::U32), Box::new(TypeDef::I32)),
            TypeDef::Mapping(Box::new(TypeDef::I32), Box::new(TypeDef::U32)),
            TypeDef::Result(Box::new(TypeDef::U32), Box::new(TypeDef::I32)),
            pair(TypeDef::U32, TypeDef::I32),
            pair(TypeDef::I32, TypeDef::U32),
            TypeDef::Tuple(vec![]),
        ]
    };
    for (i, a) in types().iter().enumerate() {
        for (j, b) in types().iter().enumerate() {
            assert_eq!(type_def_to_json(a) == type_def_to_json(b), i == j);
        }
        assert!(type_def_to_json(a).get("kind").unwrap().as_str().is_some());
    }
}
