//! What the answers to callers hold, and the form that they are in.

use vstd::prelude::*;

use crate::error::AppErrorView;
use crate::invoke::confirmed_answer;
use crate::invoke::confirmed_json;
use crate::invoke::key_jsons;
use crate::invoke::or_null;
use crate::invoke::simulated_answer;
use crate::invoke::text_or;
use crate::json::int_number;
use crate::json::is_canonical;
use crate::json::object_view;
use crate::json::settled;
use crate::json::JsonView;
use crate::json_laws::last_at;
use crate::json_laws::law_object_is_canonical;
use crate::json_laws::law_object_lookup;
use crate::probe::is_read_only;
use crate::render::json_of;
use crate::render::jsons_of;
use crate::render::lemma_entry_part;
use crate::render::lemma_item_part;
use crate::render::object1;
use crate::render::pairs_of;
use crate::render::rows_of;
use crate::scval::i128_value;
use crate::scval::i256_value;
use crate::scval::u128_value;
use crate::scval::u256_value;
use crate::text::decimal;
use crate::txbuild::simulation_of;
use crate::txbuild::SimulationView;
use crate::value::Int128Parts;
use crate::value::Int256Parts;
use crate::value::UInt128Parts;
use crate::value::UInt256Parts;
use crate::value::ValView;
use crate::xdr::writes_held;

verus! {

/// An object with one pair holds the value under its key.
proof fn lemma_object1(key: Seq<char>, value: JsonView)
    ensures
        object1(key, value).at_key(key) == Some(value),
        is_canonical(value) ==> is_canonical(object1(key, value)),
{
    let given = seq![(key, value)];
    law_object_lookup(given, key);
    assert(last_at(given, key, 1) == Some(value));
    if is_canonical(value) {
        assert forall|i: int| 0 <= i < given.len() implies is_canonical((#[trigger] given[i]).1) by {
            assert(given[i] == (key, value));
        }
        law_object_is_canonical(given);
    }
}

/// The answer to a failed request holds its message, and nothing else decides the
/// answer but the kind of the failure.
pub proof fn law_error_answer(e: AppErrorView)
    ensures
        e.body().at_key("error"@) == Some(JsonView::String(e.message())),
        is_canonical(e.body()),
        e.status() == 400 <==> e is BadRequest,
        e.status() == 404 <==> e is NotFound,
        e.status() == 405 <==> e is MethodNotAllowed,
        e.status() == 502 <==> e is Upstream,
        e.status() == 500 <==> e is Internal,
{
    lemma_object1("error"@, JsonView::String(e.message()));
}

/// Every rendering of a value is in the form in which JSON values are kept.
pub proof fn law_rendering_is_canonical(v: ValView)
    ensures
        is_canonical(json_of(v)),
    decreases v,
{
    match v {
        ValView::Error(e) => lemma_object1(
            "error"@,
            JsonView::String(crate::xdr::error_debug(e)),
        ),
        ValView::Vec(Some(items)) => {
            assert forall|i: int| 0 <= i < items.len() implies is_canonical(
                #[trigger] jsons_of(items)[i],
            ) by {
                lemma_item_part(v, items, i);
                law_rendering_is_canonical(items[i]);
            }
            assert(is_canonical(JsonView::Array(jsons_of(items))));
        },
        ValView::Mapping(Some(entries)) => {
            assert forall|i: int| 0 <= i < entries.len() implies is_canonical(
                json_of((#[trigger] entries[i]).0),
            ) && is_canonical(json_of(entries[i].1)) by {
                lemma_entry_part(v, entries, i);
                law_rendering_is_canonical(entries[i].0);
                law_rendering_is_canonical(entries[i].1);
            }
            assert forall|i: int| 0 <= i < entries.len() implies is_canonical(
                (#[trigger] pairs_of(entries)[i]).1,
            ) by {
                assert(is_canonical(json_of(entries[i].1)));
            }
            law_object_is_canonical(pairs_of(entries));
            assert forall|i: int| 0 <= i < entries.len() implies is_canonical(
                #[trigger] rows_of(entries)[i],
            ) by {
                let row = seq![json_of(entries[i].0), json_of(entries[i].1)];
                assert(rows_of(entries)[i] == JsonView::Array(row));
                assert forall|k: int| 0 <= k < row.len() implies is_canonical(
                    #[trigger] row[k],
                ) by {
                    assert(row[k] == json_of(entries[i].0) || row[k] == json_of(entries[i].1));
                }
                assert(is_canonical(JsonView::Array(row)));
            }
            assert(is_canonical(JsonView::Array(rows_of(entries))));
        },
        ValView::ContractInstance(_) => lemma_object1(
            "note"@,
            JsonView::String("contract instance value"@),
        ),
        ValView::LedgerKeyNonce(n) => lemma_object1(
            "nonce"@,
            JsonView::String(decimal(n as int)),
        ),
        ValView::U32(n) => assert(settled(int_number(n as int)) == int_number(n as int)),
        ValView::I32(n) => assert(settled(int_number(n as int)) == int_number(n as int)),
        _ => {},
    }
}

/// Integers of 64 bits and wider are rendered as their decimal notation in a string.
pub proof fn law_wide_integers_are_decimal(
    n: u64,
    i: i64,
    p: UInt128Parts,
    q: Int128Parts,
    r: UInt256Parts,
    s: Int256Parts,
)
    ensures
        json_of(ValView::U64(n)) == JsonView::String(decimal(n as int)),
        json_of(ValView::I64(i)) == JsonView::String(decimal(i as int)),
        json_of(ValView::Timepoint(n)) == JsonView::String(decimal(n as int)),
        json_of(ValView::Duration(n)) == JsonView::String(decimal(n as int)),
        json_of(ValView::U128(p)) == JsonView::String(decimal(u128_value(p))),
        json_of(ValView::I128(q)) == JsonView::String(decimal(i128_value(q))),
        json_of(ValView::U256(r)) == JsonView::String(decimal(u256_value(r))),
        json_of(ValView::I256(s)) == JsonView::String(decimal(i256_value(s))),
{
}

/// The answer to a call that was only simulated holds the status, the network, the
/// result, the fee, the entries that the call would write, the transaction to sign,
/// and what the network said.
pub proof fn law_simulated_answer(
    network_passphrase: Seq<char>,
    sim: SimulationView,
    transaction_xdr: Seq<char>,
)
    ensures
        ({
            let a = simulated_answer(network_passphrase, sim, transaction_xdr);
            &&& a.at_key("status"@) == Some(JsonView::String("simulated"@))
            &&& a.at_key("network_passphrase"@) == Some(JsonView::String(network_passphrase))
            &&& a.at_key("simulated_result"@) == Some(or_null(sim.result_json))
            &&& a.at_key("min_resource_fee"@) == Some(
                JsonView::String(decimal(sim.min_resource_fee as int)),
            )
            &&& a.at_key("read_write"@) == Some(
                JsonView::Array(key_jsons(writes_held(sim.soroban_data))),
            )
            &&& a.at_key("transaction_xdr"@) == Some(JsonView::String(transaction_xdr))
            &&& a.at_key("simulation"@) == Some(sim.raw)
        }),
{
    let given = seq![
        ("status"@, JsonView::String("simulated"@)),
        ("network_passphrase"@, JsonView::String(network_passphrase)),
        ("simulated_result"@, or_null(sim.result_json)),
        ("min_resource_fee"@, JsonView::String(decimal(sim.min_resource_fee as int))),
        ("read_write"@, JsonView::Array(key_jsons(writes_held(sim.soroban_data)))),
        ("transaction_xdr"@, JsonView::String(transaction_xdr)),
        (
            "note"@,
            JsonView::String(
                "Sign this XDR yourself and submit it (e.g. via sendTransaction), or resend this request with a `x-sign: true` header and a `x-secret-key` header to have the proxy sign and submit it on your behalf."@,
            ),
        ),
        ("simulation"@, sim.raw),
    ];
    assert(simulated_answer(network_passphrase, sim, transaction_xdr) == object_view(given));
    reveal_strlit("status");
    reveal_strlit("network_passphrase");
    reveal_strlit("simulated_result");
    reveal_strlit("min_resource_fee");
    reveal_strlit("read_write");
    reveal_strlit("transaction_xdr");
    reveal_strlit("note");
    reveal_strlit("simulation");
    assert("status"@.len() == 6 && "network_passphrase"@.len() == 18);
    assert("simulated_result"@.len() == 16 && "min_resource_fee"@.len() == 16);
    assert("read_write"@.len() == 10 && "transaction_xdr"@.len() == 15);
    assert("note"@.len() == 4 && "simulation"@.len() == 10);
    assert("simulated_result"@[0] != "min_resource_fee"@[0]);
    assert("read_write"@[0] != "simulation"@[0]);
    reveal_with_fuel(last_at, 9);
    law_object_lookup(given, "status"@);
    law_object_lookup(given, "network_passphrase"@);
    law_object_lookup(given, "simulated_result"@);
    law_object_lookup(given, "min_resource_fee"@);
    law_object_lookup(given, "read_write"@);
    law_object_lookup(given, "transaction_xdr"@);
    law_object_lookup(given, "simulation"@);
}

/// The answer to a call that was only simulated lists no entry that the call would
/// write just where the simulation shows the call to be read-only.
pub proof fn law_read_only_calls_list_no_writes(
    network_passphrase: Seq<char>,
    resp: JsonView,
    sim: SimulationView,
    transaction_xdr: Seq<char>,
)
    requires
        simulation_of(resp) == Ok::<SimulationView, Seq<char>>(sim),
    ensures
        is_read_only(resp) == Ok::<bool, Seq<char>>(true) <==> simulated_answer(
            network_passphrase,
            sim,
            transaction_xdr,
        ).at_key("read_write"@) == Some(JsonView::Array(Seq::empty())),
{
    law_simulated_answer(network_passphrase, sim, transaction_xdr);
    let listed = key_jsons(writes_held(sim.soroban_data));
    if listed.len() == 0 {
        assert(listed =~= Seq::empty());
    }
}

/// The answer to a call that the network knows the outcome of holds the status, the
/// hash of the transaction, the return value, and what the network said.
pub proof fn law_confirmed_answer(hash: Seq<char>, resp: JsonView)
    ensures
        ({
            let a = confirmed_answer(hash, resp);
            &&& a.at_key("status"@) == Some(
                JsonView::String(text_or(resp, "status"@, "UNKNOWN"@)),
            )
            &&& a.at_key("hash"@) == Some(JsonView::String(hash))
            &&& a.at_key("return_value"@) == Some(or_null(confirmed_json(resp)))
            &&& a.at_key("raw"@) == Some(resp)
        }),
{
    let given = seq![
        ("status"@, JsonView::String(text_or(resp, "status"@, "UNKNOWN"@))),
        ("hash"@, JsonView::String(hash)),
        ("return_value"@, or_null(confirmed_json(resp))),
        ("raw"@, resp),
    ];
    assert(confirmed_answer(hash, resp) == object_view(given));
    reveal_strlit("status");
    reveal_strlit("hash");
    reveal_strlit("return_value");
    reveal_strlit("raw");
    assert("status"@.len() == 6 && "hash"@.len() == 4);
    assert("return_value"@.len() == 12 && "raw"@.len() == 3);
    reveal_with_fuel(last_at, 5);
    law_object_lookup(given, "status"@);
    law_object_lookup(given, "hash"@);
    law_object_lookup(given, "return_value"@);
    law_object_lookup(given, "raw"@);
}

} // verus!
