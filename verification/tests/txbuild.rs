use ed25519_dalek::Verifier;
use orcus_api::json::Json;
use orcus_api::transaction::Envelope;
use orcus_api::transaction::HostWork;
use orcus_api::transaction::Invocation;
use orcus_api::transaction::SignedTx;
use orcus_api::transaction::Source;
use orcus_api::transaction::Tx;
use orcus_api::transaction::TxOperation;
use orcus_api::transaction::TxSignature;
use orcus_api::txbuild::assemble_transaction;
use orcus_api::txbuild::build_unsigned_invoke_tx;
use orcus_api::txbuild::call_envelope;
use orcus_api::txbuild::envelope_to_base64;
use orcus_api::txbuild::extract_return_value;
use orcus_api::txbuild::fetch_next_sequence_number;
use orcus_api::txbuild::give_auth;
use orcus_api::txbuild::parse_simulation;
use orcus_api::txbuild::resource_fee;
use orcus_api::txbuild::sequence_after;
use orcus_api::txbuild::sign_transaction;
use orcus_api::txbuild::signature_by;
use orcus_api::txbuild::source_account_key;
use orcus_api::txbuild::value_in_meta;
use orcus_api::txbuild::SimulationOutcome;
use orcus_api::value::Address;
use orcus_api::value::Val;
use orcus_api::xdr_tx::Meta;
use stellar_xdr::Limits;
use stellar_xdr::ReadXdr;
use stellar_xdr::WriteXdr;

const PASSPHRASE: &str = "Test SDF Network ; September 2015";

fn account() -> String {
    format!("{}", stellar_strkey::ed25519::PublicKey([5; 32]))
}

fn contract() -> String {
    format!("{}", stellar_strkey::Contract([6; 32]))
}

fn secret() -> String {
    stellar_strkey::ed25519::PrivateKey([8; 32]).as_unredacted().to_string().as_str().to_string()
}

fn json(text: &str) -> Json {
    Json::parse(text).unwrap()
}

fn resources(writes: Vec<stellar_xdr::LedgerKey>) -> stellar_xdr::SorobanTransactionData {
    stellar_xdr::SorobanTransactionData {
        ext: stellar_xdr::SorobanTransactionDataExt::V0,
        resources: stellar_xdr::SorobanResources {
            footprint: stellar_xdr::LedgerFootprint {
                read_only: Default::default(),
                read_write: writes.try_into().unwrap(),
            },
            instructions: 1,
            disk_read_bytes: 2,
            write_bytes: 3,
        },
        resource_fee: 4,
    }
}

fn auth() -> stellar_xdr::SorobanAuthorizationEntry {
    stellar_xdr::SorobanAuthorizationEntry {
        credentials: stellar_xdr::SorobanCredentials::SourceAccount,
        root_invocation: stellar_xdr::SorobanAuthorizedInvocation {
            function: stellar_xdr::SorobanAuthorizedFunction::ContractFn(
                stellar_xdr::InvokeContractArgs {
                    contract_address: stellar_xdr::ScAddress::Contract(stellar_xdr::ContractId(
                        stellar_xdr::Hash([6; 32]),
                    )),
                    function_name: stellar_xdr::ScSymbol("f".try_into().unwrap()),
                    args: Default::default(),
                },
            ),
            sub_invocations: Default::default(),
        },
    }
}

fn xdr_call() -> stellar_xdr::Transaction {
    stellar_xdr::Transaction {
        source_account: stellar_xdr::MuxedAccount::Ed25519(stellar_xdr::Uint256([5; 32])),
        fee: 100,
        seq_num: stellar_xdr::SequenceNumber(77),
        cond: stellar_xdr::Preconditions::None,
        memo: stellar_xdr::Memo::None,
        operations: vec![stellar_xdr::Operation {
            source_account: None,
            body: stellar_xdr::OperationBody::InvokeHostFunction(
                stellar_xdr::InvokeHostFunctionOp {
                    host_function: stellar_xdr::HostFunction::InvokeContract(
                        stellar_xdr::InvokeContractArgs {
                            contract_address: stellar_xdr::ScAddress::Contract(
                                stellar_xdr::ContractId(stellar_xdr::Hash([6; 32])),
                            ),
                            function_name: stellar_xdr::ScSymbol("add".try_into().unwrap()),
                            args: vec![stellar_xdr::ScVal::U32(1), stellar_xdr::ScVal::Void]
                                .try_into()
                                .unwrap(),
                        },
                    ),
                    auth: Default::default(),
                },
            ),
        }]
        .try_into()
        .unwrap(),
        ext: stellar_xdr::TransactionExt::V0,
    }
}

fn call() -> Envelope {
    build_unsigned_invoke_tx(&account(), 77, &contract(), "add", vec![Val::U32(1), Val::Void])
        .unwrap()
}

fn outcome(fee: i64, auth_b64: Vec<String>) -> SimulationOutcome {
    SimulationOutcome {
        soroban_data: resources(vec![]),
        min_resource_fee: fee,
        result_json: None,
        auth_b64,
        raw: Json::Null,
    }
}

fn tx_of(envelope: Envelope) -> SignedTx {
    match envelope {
        Envelope::Tx(s) => s,
        Envelope::Other(_) => panic!("not a transaction"),
    }
}

fn decoded(envelope: &Envelope) -> stellar_xdr::TransactionV1Envelope {
    let text = envelope_to_base64(envelope).unwrap();
    match stellar_xdr::TransactionEnvelope::from_xdr_base64(text, Limits::none()).unwrap() {
        stellar_xdr::TransactionEnvelope::Tx(v1) => v1,
        _ => panic!("not a transaction"),
    }
}

fn other_envelope() -> stellar_xdr::TransactionEnvelope {
    stellar_xdr::TransactionEnvelope::TxFeeBump(stellar_xdr::FeeBumpTransactionEnvelope {
        tx: stellar_xdr::FeeBumpTransaction {
            fee_source: stellar_xdr::MuxedAccount::Ed25519(stellar_xdr::Uint256([5; 32])),
            fee: 1,
            inner_tx: stellar_xdr::FeeBumpTransactionInnerTx::Tx(
                stellar_xdr::TransactionV1Envelope {
                    tx: xdr_call(),
                    signatures: Default::default(),
                },
            ),
            ext: stellar_xdr::FeeBumpTransactionExt::V0,
        },
        signatures: Default::default(),
    })
}

#[test]
fn unsigned_calls_are_encoded() {
    let v1 = decoded(&call());
    assert_eq!(v1.tx, xdr_call());
    assert!(v1.signatures.is_empty());
    assert_eq!(
        call(),
        call_envelope([5; 32], 77, [6; 32], b"add".to_vec(), vec![Val::U32(1), Val::Void])
    );
}

#[test]
fn calls_need_an_account_a_contract_and_a_name() {
    let refused = |a: &str, c: &str, f: &str| {
        build_unsigned_invoke_tx(a, 1, c, f, vec![]).unwrap_err().message
    };
    assert_eq!(
        refused("G1", &contract(), "f"),
        "invalid source_account `G1`: expected a G... strkey"
    );
    assert_eq!(
        refused(&account(), "C1", "f"),
        "invalid contract_id `C1`: expected a C... strkey"
    );
    let long = "f".repeat(33);
    assert_eq!(
        refused(&account(), &contract(), &long),
        format!("function name `{long}` is invalid or too long")
    );
    assert_eq!(
        refused(&account(), &contract(), "\\"),
        "function name `\\` is invalid or too long"
    );
}

#[test]
fn every_part_of_a_transaction_is_encoded() {
    let memo = stellar_xdr::Memo::Id(9);
    let cond = stellar_xdr::Preconditions::Time(stellar_xdr::TimeBounds {
        min_time: stellar_xdr::TimePoint(1),
        max_time: stellar_xdr::TimePoint(2),
    });
    let inflation = stellar_xdr::Operation {
        source_account: None,
        body: stellar_xdr::OperationBody::Inflation,
    };
    let upload = stellar_xdr::HostFunction::UploadContractWasm(vec![1, 2].try_into().unwrap());
    let envelope = Envelope::Tx(SignedTx {
        tx: Tx {
            source_account: Source::Muxed(3, [5; 32]),
            fee: 8,
            seq_num: -4,
            cond: Some(cond.clone()),
            memo: Some(memo.clone()),
            operations: vec![
                TxOperation::Other(inflation.clone()),
                TxOperation::Invoke(Invocation {
                    source: Some(Source::Muxed(4, [7; 32])),
                    work: HostWork::Other(upload.clone()),
                    auth: vec![auth()],
                }),
            ],
            soroban_data: Some(resources(vec![])),
        },
        signatures: vec![TxSignature { hint: [1, 2, 3, 4], signature: vec![9; 64] }],
    });
    let v1 = decoded(&envelope);
    assert_eq!(
        v1.tx.source_account,
        stellar_xdr::MuxedAccount::MuxedEd25519(stellar_xdr::MuxedAccountMed25519 {
            id: 3,
            ed25519: stellar_xdr::Uint256([5; 32]),
        })
    );
    assert_eq!((v1.tx.fee, v1.tx.seq_num.0), (8, -4));
    assert_eq!((v1.tx.cond, v1.tx.memo), (cond, memo));
    assert_eq!(v1.tx.operations[0], inflation);
    assert_eq!(
        v1.tx.operations[1].source_account,
        Some(stellar_xdr::MuxedAccount::MuxedEd25519(stellar_xdr::MuxedAccountMed25519 {
            id: 4,
            ed25519: stellar_xdr::Uint256([7; 32]),
        }))
    );
    match &v1.tx.operations[1].body {
        stellar_xdr::OperationBody::InvokeHostFunction(op) => {
            assert_eq!(op.host_function, upload);
            assert_eq!(op.auth.to_vec(), vec![auth()]);
        }
        _ => panic!("not an invocation"),
    }
    assert_eq!(v1.tx.ext, stellar_xdr::TransactionExt::V1(resources(vec![])));
    assert_eq!(v1.signatures[0].hint.0, [1, 2, 3, 4]);
    assert_eq!(v1.signatures[0].signature.0.to_vec(), vec![9; 64]);
}

#[test]
fn what_exceeds_the_wire_format_is_not_encoded() {
    let mut s = tx_of(call());
    s.signatures = vec![TxSignature { hint: [0; 4], signature: vec![0; 65] }];
    assert_eq!(
        envelope_to_base64(&Envelope::Tx(s)).unwrap_err().message,
        "failed encoding transaction envelope"
    );
    let mut many = tx_of(call());
    many.signatures = (0..21).map(|_| signature_by(&[0; 32], &[0; 64])).collect();
    assert!(envelope_to_base64(&Envelope::Tx(many)).is_err());
    let other = other_envelope();
    assert_eq!(
        envelope_to_base64(&Envelope::Other(other.clone())).unwrap(),
        other.to_xdr_base64(Limits::none()).unwrap()
    );
}

fn entry_reply(data: &stellar_xdr::LedgerEntryData) -> Json {
    json(&format!(
        "{{\"entries\":[{{\"xdr\":\"{}\"}}]}}",
        data.to_xdr_base64(Limits::none()).unwrap()
    ))
}

fn account_entry(seq: i64) -> stellar_xdr::LedgerEntryData {
    stellar_xdr::LedgerEntryData::Account(stellar_xdr::AccountEntry {
        account_id: stellar_xdr::AccountId(stellar_xdr::PublicKey::PublicKeyTypeEd25519(
            stellar_xdr::Uint256([5; 32]),
        )),
        balance: 1,
        seq_num: stellar_xdr::SequenceNumber(seq),
        num_sub_entries: 0,
        inflation_dest: None,
        flags: 0,
        home_domain: Default::default(),
        thresholds: stellar_xdr::Thresholds([0; 4]),
        signers: Default::default(),
        ext: stellar_xdr::AccountEntryExt::V0,
    })
}

#[test]
fn sequence_numbers_follow_the_account() {
    let next = |resp: &Json| fetch_next_sequence_number(resp, "GX").map_err(|e| e.message);
    assert_eq!(next(&entry_reply(&account_entry(41))), Ok(Some(42)));
    assert_eq!(next(&entry_reply(&account_entry(i64::MAX))), Ok(None));
    assert_eq!(sequence_after(-1), Some(0));
    assert_eq!(
        next(&json("{\"entries\":[]}")),
        Err("source account `GX` was not found on-chain (has it been funded?)".to_string())
    );
    assert_eq!(
        next(&json("{\"entries\":7}")),
        Err("source account `GX` was not found on-chain (has it been funded?)".to_string())
    );
    assert_eq!(
        next(&json("{\"entries\":[{}]}")),
        Err("expected field `xdr` in rpc response: {}".to_string())
    );
    assert_eq!(
        next(&json("{\"entries\":[{\"xdr\":5}]}")),
        Err("expected field `xdr` to be a string in: {\"xdr\":5}".to_string())
    );
    assert_eq!(
        next(&json("{\"entries\":[{\"xdr\":\"AA\"}]}")),
        Err("failed decoding Account ledger entry".to_string())
    );
    let ttl = stellar_xdr::LedgerEntryData::Ttl(stellar_xdr::TtlEntry {
        key_hash: stellar_xdr::Hash([0; 32]),
        live_until_ledger_seq: 5,
    });
    assert_eq!(
        next(&entry_reply(&ttl)),
        Err(format!("expected an Account ledger entry, got {ttl:?}"))
    );
}

#[test]
fn accounts_are_asked_for_by_key() {
    let key = stellar_xdr::LedgerKey::Account(stellar_xdr::LedgerKeyAccount {
        account_id: stellar_xdr::AccountId(stellar_xdr::PublicKey::PublicKeyTypeEd25519(
            stellar_xdr::Uint256([5; 32]),
        )),
    });
    assert_eq!(
        source_account_key(&account()).unwrap(),
        key.to_xdr_base64(Limits::none()).unwrap()
    );
    assert_eq!(
        source_account_key("x").unwrap_err().message,
        "invalid source_account `x`: expected a G... strkey"
    );
}

fn simulation(results: &str) -> Json {
    json(&format!(
        "{{\"transactionData\":\"{}\",\"minResourceFee\":\"16062\"{results}}}",
        resources(vec![]).to_xdr_base64(Limits::none()).unwrap()
    ))
}

#[test]
fn simulations_are_read() {
    let value = stellar_xdr::ScVal::U64(12).to_xdr_base64(Limits::none()).unwrap();
    let resp = simulation(&format!(
        ",\"results\":[{{\"xdr\":\"{value}\",\"auth\":[\"a\",5,\"b\"]}},{{\"auth\":[\"c\"]}}]"
    ));
    let sim = parse_simulation(&resp).unwrap();
    assert_eq!(sim.soroban_data, resources(vec![]));
    assert_eq!(sim.min_resource_fee, 16062);
    assert_eq!(sim.result_json, Some(Json::String("12".to_string())));
    assert_eq!(sim.auth_b64, ["a", "b"]);
    assert_eq!(sim.raw, resp);
    let bare = parse_simulation(&simulation("")).unwrap();
    assert_eq!((bare.result_json, bare.auth_b64.len()), (None, 0));
}

#[test]
fn unusable_simulations_are_refused() {
    let refused = |text: &str| parse_simulation(&json(text)).unwrap_err().message;
    assert_eq!(refused("{\"error\":\"boom\"}"), "simulation failed: boom");
    assert_eq!(refused("{\"error\":{\"b\":1,\"a\":2}}"), "simulation failed: {\"a\":2,\"b\":1}");
    assert_eq!(refused("{\"error\":null}"), "simulation failed: null");
    assert_eq!(
        refused("{\"restorePreamble\":{}}"),
        "this call requires restoring archived contract state before it can run; automatic restore is not implemented by this proxy yet"
    );
    assert_eq!(refused("{}"), "expected field `transactionData` in rpc response: {}");
    assert_eq!(
        refused("{\"transactionData\":\"AA\"}"),
        "failed decoding simulated SorobanTransactionData"
    );
    let bad_value = simulation(",\"results\":[{\"xdr\":\"AA\"}]");
    assert_eq!(
        parse_simulation(&bad_value).unwrap_err().message,
        "failed decoding simulated return value"
    );
    let fee = |text: &str| resource_fee(&json(text)).map_err(|e| e.message);
    assert_eq!(fee("{\"minResourceFee\":\"-3\"}"), Ok(-3));
    assert_eq!(
        fee("{\"minResourceFee\":\"x\"}"),
        Err("minResourceFee was not a valid integer".to_string())
    );
    assert_eq!(
        fee("{}"),
        Err("expected field `minResourceFee` in rpc response: {}".to_string())
    );
}

#[test]
fn assembly_sets_the_fee_and_the_resources() {
    let ready = assemble_transaction(call(), &outcome(16062, vec![])).unwrap();
    let v1 = decoded(&ready);
    let mut wanted = xdr_call();
    wanted.fee = 16162;
    wanted.ext = stellar_xdr::TransactionExt::V1(resources(vec![]));
    assert_eq!(v1.tx, wanted);
}

#[test]
fn assembly_sets_the_authorizations() {
    let b64 = auth().to_xdr_base64(Limits::none()).unwrap();
    let ready = assemble_transaction(call(), &outcome(0, vec![b64])).unwrap();
    match &decoded(&ready).tx.operations[0].body {
        stellar_xdr::OperationBody::InvokeHostFunction(op) => {
            assert_eq!(op.auth.to_vec(), vec![auth()])
        }
        _ => panic!("not an invocation"),
    }
    assert_eq!(
        assemble_transaction(call(), &outcome(0, vec!["AA".to_string()])).unwrap_err().message,
        "failed decoding simulated authorization entry"
    );
    assert_eq!(
        give_auth(vec![], vec![auth()]).unwrap_err().message,
        "built transaction unexpectedly has no operations"
    );
    let inflation = stellar_xdr::Operation {
        source_account: None,
        body: stellar_xdr::OperationBody::Inflation,
    };
    assert_eq!(
        give_auth(vec![TxOperation::Other(inflation.clone())], vec![auth()]).unwrap(),
        vec![TxOperation::Other(inflation)]
    );
}

#[test]
fn assembly_refuses_fees_out_of_range() {
    let refused = |fee: i64| {
        assemble_transaction(call(), &outcome(fee, vec![])).unwrap_err().message
    };
    assert_eq!(refused(-1), "simulated resource fee out of range");
    assert_eq!(refused(1 << 32), "simulated resource fee out of range");
    assert_eq!(refused(u32::MAX as i64 - 99), "computed fee overflowed");
    let ready = assemble_transaction(call(), &outcome(u32::MAX as i64 - 100, vec![])).unwrap();
    assert_eq!(tx_of(ready).tx.fee, u32::MAX);
    let other = Envelope::Other(other_envelope());
    assert_eq!(
        assemble_transaction(other, &outcome(1, vec![])).unwrap_err().message,
        "expected a v1 transaction envelope"
    );
}

#[test]
fn signatures_verify() {
    let signed = sign_transaction(call(), PASSPHRASE, &secret()).unwrap();
    let v1 = decoded(&signed);
    assert_eq!(v1.tx, xdr_call());
    assert_eq!(v1.signatures.len(), 1);
    let network: [u8; 32] = <sha2::Sha256 as sha2::Digest>::digest(PASSPHRASE.as_bytes()).into();
    let payload = stellar_xdr::TransactionSignaturePayload {
        network_id: stellar_xdr::Hash(network),
        tagged_transaction: stellar_xdr::TransactionSignaturePayloadTaggedTransaction::Tx(
            xdr_call(),
        ),
    };
    let hash: [u8; 32] =
        <sha2::Sha256 as sha2::Digest>::digest(payload.to_xdr(Limits::none()).unwrap()).into();
    let key = ed25519_dalek::SigningKey::from_bytes(&[8; 32]).verifying_key();
    let raw: [u8; 64] = v1.signatures[0].signature.0.to_vec().try_into().unwrap();
    assert!(key.verify(&hash, &ed25519_dalek::Signature::from_bytes(&raw)).is_ok());
    assert_eq!(&v1.signatures[0].hint.0, &key.to_bytes()[28..]);
    let again = sign_transaction(call(), PASSPHRASE, &secret()).unwrap();
    assert_eq!(sign_transaction(again, PASSPHRASE, &secret()).unwrap(), signed);
}

#[test]
fn signing_needs_a_secret_key() {
    assert_eq!(
        sign_transaction(call(), PASSPHRASE, &account()).unwrap_err().message,
        "invalid secret_key: expected an S... strkey"
    );
    assert_eq!(
        sign_transaction(Envelope::Other(other_envelope()), PASSPHRASE, "S").unwrap_err().message,
        "expected a v1 transaction envelope"
    );
    let mut s = tx_of(call());
    s.tx.operations = (0..101)
        .map(|_| {
            TxOperation::Other(stellar_xdr::Operation {
                source_account: None,
                body: stellar_xdr::OperationBody::Inflation,
            })
        })
        .collect();
    assert_eq!(
        sign_transaction(Envelope::Tx(s), PASSPHRASE, &secret()).unwrap_err().message,
        "failed encoding transaction signature payload"
    );
    let made = signature_by(&[3; 32], &[4; 64]);
    assert_eq!(made, TxSignature { hint: [3; 4], signature: vec![4; 64] });
}

fn meta_v3(value: Option<stellar_xdr::ScVal>) -> String {
    stellar_xdr::TransactionMeta::V3(stellar_xdr::TransactionMetaV3 {
        ext: stellar_xdr::ExtensionPoint::V0,
        tx_changes_before: Default::default(),
        operations: Default::default(),
        tx_changes_after: Default::default(),
        soroban_meta: value.map(|return_value| stellar_xdr::SorobanTransactionMeta {
            ext: stellar_xdr::SorobanTransactionMetaExt::V0,
            events: Default::default(),
            return_value,
            diagnostic_events: Default::default(),
        }),
    })
    .to_xdr_base64(Limits::none())
    .unwrap()
}

fn meta_v4(return_value: Option<stellar_xdr::ScVal>) -> String {
    stellar_xdr::TransactionMeta::V4(stellar_xdr::TransactionMetaV4 {
        ext: stellar_xdr::ExtensionPoint::V0,
        tx_changes_before: Default::default(),
        operations: Default::default(),
        tx_changes_after: Default::default(),
        soroban_meta: Some(stellar_xdr::SorobanTransactionMetaV2 {
            ext: stellar_xdr::SorobanTransactionMetaExt::V0,
            return_value,
        }),
        events: Default::default(),
        diagnostic_events: Default::default(),
    })
    .to_xdr_base64(Limits::none())
    .unwrap()
}

#[test]
fn return_values_are_taken_out_of_metadata() {
    let value = stellar_xdr::ScVal::U32(10);
    assert_eq!(extract_return_value(&meta_v3(Some(value.clone()))).unwrap(), Some(Val::U32(10)));
    assert_eq!(extract_return_value(&meta_v3(None)).unwrap(), None);
    assert_eq!(extract_return_value(&meta_v4(Some(value.clone()))).unwrap(), Some(Val::U32(10)));
    assert_eq!(extract_return_value(&meta_v4(None)).unwrap(), None);
    let v0 = stellar_xdr::TransactionMeta::V0(Default::default());
    assert_eq!(
        extract_return_value(&v0.to_xdr_base64(Limits::none()).unwrap()).unwrap(),
        None
    );
    assert_eq!(
        extract_return_value("AA").unwrap_err().message,
        "failed decoding resultMetaXdr"
    );
    assert_eq!(value_in_meta(Meta::V4(Some(Some(value)))), Some(Val::U32(10)));
    assert_eq!(value_in_meta(Meta::Other), None);
}

#[test]
fn every_kind_of_value_is_encoded_and_decoded() {
    let values = vec![
        Val::Bool(true),
        Val::Void,
        Val::Error(stellar_xdr::ScError::Contract(3)),
        Val::U32(1),
        Val::I32(-1),
        Val::U64(2),
        Val::I64(-2),
        Val::Timepoint(3),
        Val::Duration(4),
        Val::U128(orcus_api::value::UInt128Parts { hi: 1, lo: 2 }),
        Val::I128(orcus_api::value::Int128Parts { hi: -1, lo: 2 }),
        Val::U256(orcus_api::value::UInt256Parts { hi_hi: 1, hi_lo: 2, lo_hi: 3, lo_lo: 4 }),
        Val::I256(orcus_api::value::Int256Parts { hi_hi: -1, hi_lo: 2, lo_hi: 3, lo_lo: 4 }),
        Val::Bytes(vec![1, 2]),
        Val::String(vec![3]),
        Val::Symbol(vec![b'a']),
        Val::Vec(None),
        Val::Vec(Some(vec![Val::Void])),
        Val::Mapping(None),
        Val::Mapping(Some(vec![(Val::U32(1), Val::Vec(Some(vec![])))])),
        Val::Address(Address::Account([1; 32])),
        Val::Address(Address::Contract([2; 32])),
        Val::Address(Address::MuxedAccount(stellar_xdr::MuxedEd25519Account {
            id: 7,
            ed25519: stellar_xdr::Uint256([3; 32]),
        })),
        Val::Address(Address::ClaimableBalance(
            stellar_xdr::ClaimableBalanceId::ClaimableBalanceIdTypeV0(stellar_xdr::Hash([4; 32])),
        )),
        Val::Address(Address::LiquidityPool(stellar_xdr::PoolId(stellar_xdr::Hash([5; 32])))),
        Val::ContractInstance(stellar_xdr::ScContractInstance {
            executable: stellar_xdr::ContractExecutable::StellarAsset,
            storage: None,
        }),
        Val::LedgerKeyContractInstance,
        Val::LedgerKeyNonce(-8),
    ];
    for v in values {
        let text = v.to_xdr().unwrap().to_xdr_base64(Limits::none()).unwrap();
        assert_eq!(Val::from_base64(&text), Some(v));
    }
    assert_eq!(Val::from_base64("AA"), None);
    assert_eq!(Val::Symbol(vec![0; 33]).to_xdr(), None);
    assert_eq!(Val::Vec(Some(vec![Val::Symbol(vec![0; 33])])).to_xdr(), None);
    assert_eq!(
        Val::U128(orcus_api::value::UInt128Parts { hi: 1, lo: 2 }).to_xdr().unwrap(),
        stellar_xdr::ScVal::U128(stellar_xdr::UInt128Parts { hi: 1, lo: 2 })
    );
    assert_eq!(
        Val::Address(Address::Account([1; 32])).to_xdr().unwrap(),
        stellar_xdr::ScVal::Address(stellar_xdr::ScAddress::Account(stellar_xdr::AccountId(
            stellar_xdr::PublicKey::PublicKeyTypeEd25519(stellar_xdr::Uint256([1; 32])),
        )))
    );
}
