//! What the service makes of its environment, of the requests that it gets, and of the
//! replies of the network.

use vstd::prelude::*;
use vstd::utf8::decode_utf8;
use vstd::utf8::encode_utf8;
use vstd::utf8::valid_utf8;

use crate::config::config_of;
use crate::config::ConfigErrorView;
use crate::config::ConfigView;
use crate::config::Variables;
use crate::contract_source::wasm_hash_of;
use crate::encoding::account_text;
use crate::encoding::contract_of;
use crate::error::AppErrorView;
use crate::handlers::call_request;
use crate::handlers::common_headers;
use crate::handlers::query_pairs;
use crate::handlers::query_value;
use crate::handlers::CallHeaders;
use crate::interface::FunctionView;
use crate::json::json_of_text;
use crate::json::object_view;
use crate::json::JsonNumber;
use crate::json::JsonView;
use crate::json_laws::lemma_no_other_key;
use crate::json_laws::lemma_pair_found;
use crate::listing_laws::says;
use crate::probe::is_get;
use crate::probe::is_read_only;
use crate::probe::last_named;
use crate::probe::probe_of;
use crate::probe::unknown_upto;
use crate::probe::ProbeReply;
use crate::probe::ProbeView;
use crate::rpc::id_after;
use crate::rpc::reply_result;
use crate::rpc::request_body;
use crate::rpc::RpcReply;
use crate::text::int_value;
use crate::text::lowercase;
use crate::text::trimmed;
use crate::txbuild::simulation_of;
use crate::txbuild::unsigned_call;
use crate::txbuild::SimulationView;
use crate::value::ValView;
use crate::xdr::writes_held;
use crate::xdr_tx::envelope_text;
use crate::xdr_tx::sha256_of;

verus! {

/// A request holds the version of the protocol, its number, the method and the
/// parameters, and nothing else; the numbers go up by one.
pub proof fn law_request_is_as_called(
    id: u64,
    method: Seq<char>,
    params: JsonView,
    other: Seq<char>,
)
    requires
        other != "jsonrpc"@ && other != "id"@ && other != "method"@ && other != "params"@,
    ensures
        says(request_body(id, method, params), "jsonrpc"@, "2.0"@),
        request_body(id, method, params).at_key("id"@) == Some(
            JsonView::Number(JsonNumber::Unsigned(id)),
        ),
        says(request_body(id, method, params), "method"@, method),
        request_body(id, method, params).at_key("params"@) == Some(params),
        request_body(id, method, params).at_key(other) is None,
        id < u64::MAX ==> id_after(id) == id + 1,
{
    let given = seq![
        ("jsonrpc"@, JsonView::String("2.0"@)),
        ("id"@, JsonView::Number(JsonNumber::Unsigned(id))),
        ("method"@, JsonView::String(method)),
        ("params"@, params),
    ];
    assert(request_body(id, method, params) == object_view(given));
    reveal_strlit("jsonrpc");
    reveal_strlit("id");
    reveal_strlit("method");
    reveal_strlit("params");
    assert("jsonrpc"@.len() == 7 && "id"@.len() == 2 && "method"@.len() == 6);
    assert("params"@.len() == 6 && "method"@[0] == 'm' && "params"@[0] == 'p');
    lemma_pair_found(given, 0);
    lemma_pair_found(given, 1);
    lemma_pair_found(given, 2);
    lemma_pair_found(given, 3);
    lemma_no_other_key(given, other);
}

/// A reply gives its result just where it was understood, reports no error and has a
/// result; an error that it reports counts even beside a result.
pub proof fn law_reply_gives_its_result(method: Seq<char>, reply: RpcReply)
    ensures
        match reply {
            RpcReply::Answered(b) => match (b.error, b.result) {
                (None, Some(j)) => reply_result(method, reply) == Ok::<JsonView, Seq<char>>(j@),
                _ => reply_result(method, reply) is Err,
            },
            _ => reply_result(method, reply) is Err,
        },
{
}

/// A function with parameters is not probed. One without is simulated as the call that
/// an account which is made up would make of it, with no arguments.
pub proof fn law_probe_is_the_bare_call(contract_id: Seq<char>, f: FunctionView)
    ensures
        f.inputs.len() > 0 ==> probe_of(contract_id, f) is TakesArguments,
        f.inputs.len() == 0 ==> match unsigned_call(
            account_text(sha256_of(encode_utf8("soroban-api-proxy:startup-probe-account"@))),
            1,
            contract_id,
            f.name,
            Seq::<ValView>::empty(),
        ) {
            Ok(e) => match envelope_text(e) {
                Some(text) => probe_of(contract_id, f) == ProbeView::Simulate(text),
                None => probe_of(contract_id, f) is Failed,
            },
            Err(e) => probe_of(contract_id, f) == ProbeView::Failed(e),
        },
{
}

/// A simulation shows a function to be read-only just where it would write no ledger
/// entry; one that failed shows nothing.
pub proof fn law_read_only_is_writing_nothing(resp: JsonView)
    ensures
        match simulation_of(resp) {
            Ok(sim) => is_read_only(resp) == Ok::<bool, Seq<char>>(
                writes_held(sim.soroban_data).len() == 0,
            ),
            Err(e) => is_read_only(resp) == Err::<bool, Seq<char>>(e),
        },
{
}

/// A function is called by `GET` just where it has no parameters and its simulation was
/// answered and would write nothing.
pub proof fn law_get_is_for_functions_that_write_nothing(f: FunctionView, reply: ProbeReply)
    ensures
        is_get(f, reply) <==> f.inputs.len() == 0 && match reply {
            ProbeReply::Answered(resp) => match simulation_of(resp@) {
                Ok(sim) => writes_held(sim.soroban_data).len() == 0,
                Err(_) => false,
            },
            _ => false,
        },
{
}

/// Of the functions of one name the last one counts.
pub proof fn law_last_of_a_name_counts(functions: Seq<FunctionView>, name: Seq<char>, n: int)
    requires
        0 <= n <= functions.len(),
    ensures
        match last_named(functions, name, n) {
            Some(i) => 0 <= i < n && functions[i].name == name && forall|j: int|
                i < j < n ==> (#[trigger] functions[j]).name != name,
            None => forall|j: int| 0 <= j < n ==> (#[trigger] functions[j]).name != name,
        },
    decreases n,
{
    if n > 0 {
        law_last_of_a_name_counts(functions, name, n - 1);
    }
}

/// Whether a place is that of a function without parameters whose probe failed.
pub open spec fn is_unknown(
    functions: Seq<FunctionView>,
    replies: Seq<ProbeReply>,
) -> spec_fn(int) -> bool {
    |i: int|
        functions[i].inputs.len() == 0 && match replies[i] {
            ProbeReply::NotAsked => false,
            ProbeReply::Failed(_) => true,
            ProbeReply::Answered(resp) => simulation_of(resp@) is Err,
        }
}

/// There is a warning, with the name and the reason, for each function without
/// parameters whose probe failed, in their order, and for no other.
pub proof fn law_failed_probes_are_warned_of(
    functions: Seq<FunctionView>,
    replies: Seq<ProbeReply>,
    n: int,
)
    requires
        0 <= n <= functions.len(),
        replies.len() == functions.len(),
    ensures
        ({
            let unknown = Seq::new(n as nat, |i: int| i).filter(is_unknown(functions, replies));
            let warnings = unknown_upto(functions, replies, n);
            warnings.len() == unknown.len() && forall|k: int|
                0 <= k < unknown.len() ==> {
                    &&& (#[trigger] warnings[k]).0 == functions[unknown[k]].name
                    &&& match replies[unknown[k]] {
                        ProbeReply::Failed(e) => warnings[k].1 == e@,
                        ProbeReply::Answered(resp) => simulation_of(resp@) == Err::<
                            SimulationView,
                            Seq<char>,
                        >(warnings[k].1),
                        ProbeReply::NotAsked => false,
                    }
                }
        }),
    decreases n,
{
    reveal(Seq::filter);
    let places = Seq::new(n as nat, |i: int| i);
    if n > 0 {
        law_failed_probes_are_warned_of(functions, replies, n - 1);
        assert(places.drop_last() =~= Seq::new((n - 1) as nat, |i: int| i));
        assert(places.last() == n - 1);
    }
}

/// Whether a text is one that asks for signing: `1`, or `true` in letters of any case.
pub open spec fn is_yes(s: Seq<char>) -> bool {
    ||| s.len() == 1 && s[0] == '1'
    ||| s.len() == 4 && (s[0] == 't' || s[0] == 'T') && (s[1] == 'r' || s[1] == 'R') && (s[2] == 'u'
        || s[2] == 'U') && (s[3] == 'e' || s[3] == 'E')
}

/// Whether the bytes of a header, where it is there, are a text.
pub open spec fn is_readable(h: Option<Vec<u8>>) -> bool {
    h matches Some(b) ==> valid_utf8(b@)
}

/// The headers of a call are read as they are: the account, which has to be there;
/// whether to sign, which is asked for by `1` or `true` and not otherwise; and the key.
/// A missing account, and a header that is no text, are mistakes in the request.
pub proof fn law_headers_are_read_as_they_are(h: CallHeaders)
    ensures
        if h.source_account is Some && is_readable(h.source_account) && is_readable(h.sign)
            && is_readable(h.secret_key) {
            common_headers(h) == Ok::<(Seq<char>, bool, Option<Seq<char>>), AppErrorView>(
                (
                    decode_utf8(h.source_account->0@),
                    h.sign matches Some(s) && is_yes(decode_utf8(s@)),
                    match h.secret_key {
                        Some(k) => Some(decode_utf8(k@)),
                        None => None,
                    },
                ),
            )
        } else {
            common_headers(h) matches Err(AppErrorView::BadRequest(_))
        },
{
    if let Some(b) = h.sign {
        if valid_utf8(b@) {
            let s = decode_utf8(b@);
            reveal_strlit("true");
            reveal_strlit("1");
            assert("true"@.len() == 4 && "1"@.len() == 1);
            assert("true"@[0] == 't' && "true"@[1] == 'r' && "true"@[2] == 'u' && "true"@[3]
                == 'e');
            assert("1"@[0] == '1');
            if s.len() == 1 && s[0] == '1' {
                assert(s =~= "1"@);
            }
            if crate::handlers::same_but_case(s, "true"@) {
                assert(crate::text::ascii_lower(s[0]) == 't');
                assert(crate::text::ascii_lower(s[1]) == 'r');
                assert(crate::text::ascii_lower(s[2]) == 'u');
                assert(crate::text::ascii_lower(s[3]) == 'e');
            }
            assert(crate::handlers::asks_for_signing(s) == is_yes(s));
        }
    }
}

/// A request is to call the function with the arguments, and is what its headers say.
pub proof fn law_request_is_what_its_headers_say(
    function_name: Seq<char>,
    args: JsonView,
    headers: CallHeaders,
    by_get: bool,
)
    ensures
        match (common_headers(headers), call_request(function_name, args, headers, by_get)) {
            (Ok((account, sign, key)), Ok(req)) => {
                &&& req.function_name == function_name
                &&& req.args == args
                &&& req.source_account == account
                &&& req.sign == sign
                &&& req.secret_key == key
                &&& req.is_get == by_get
            },
            (Err(a), Err(b)) => a == b,
            _ => false,
        },
{
}

/// A query value is the JSON that it is, and otherwise the string that it is.
pub proof fn law_query_value_is_json_or_text(raw: Seq<char>)
    ensures
        json_of_text(raw) matches Some(j) ==> query_value(raw) == j,
        json_of_text(raw) is None ==> query_value(raw) == JsonView::String(raw),
{
}

/// The arguments that a query makes have under each name the value of the last
/// parameter of that name, and nothing under other names.
pub proof fn law_query_gives_its_parameters(
    query: Seq<(String, String)>,
    i: int,
    other: Seq<char>,
)
    requires
        0 <= i < query.len(),
        forall|j: int| i < j < query.len() ==> (#[trigger] query[j]).0@ != query[i].0@,
        forall|j: int| 0 <= j < query.len() ==> (#[trigger] query[j]).0@ != other,
    ensures
        object_view(query_pairs(query)).at_key(query[i].0@) == Some(
            match json_of_text(query[i].1@) {
                Some(j) => j,
                None => JsonView::String(query[i].1@),
            },
        ),
        object_view(query_pairs(query)).at_key(other) is None,
{
    let given = query_pairs(query);
    assert forall|j: int| i < j < given.len() implies (#[trigger] given[j]).0 != given[i].0 by {
        assert(query[j].0@ != query[i].0@);
    }
    assert forall|j: int| 0 <= j < given.len() implies (#[trigger] given[j]).0 != other by {
        assert(query[j].0@ != other);
    }
    lemma_pair_found(given, i);
    lemma_no_other_key(given, other);
}

/// A configuration is what the variables say: the service and the network as they are,
/// the hash in lower case and the contract, both without white space around them, and
/// the address and the timeout where they are given, otherwise 0.0.0.0:8080 and thirty
/// seconds.
pub proof fn law_config_is_what_the_variables_say(vars: Variables, config: ConfigView)
    requires
        config_of(vars) == Ok::<ConfigView, ConfigErrorView>(config),
    ensures
        vars.soroban_rpc_url matches Ok(s) && config.rpc_url == s@,
        vars.soroban_network_passphrase matches Ok(s) && config.network_passphrase == s@,
        vars.contract_wasm_hash matches Ok(s) && config.contract_wasm_hash == lowercase(
            trimmed(s@),
        ),
        vars.contract_id matches Ok(s) && config.contract_id == trimmed(s@),
        match vars.bind_addr {
            Ok(s) => config.bind_addr == s@,
            Err(_) => config.bind_addr == "0.0.0.0:8080"@,
        },
        match vars.request_timeout_secs {
            Ok(s) => match int_value(s@, 0, u64::MAX as int) {
                Ok(n) => config.request_timeout_secs == n,
                Err(_) => config.request_timeout_secs == 30,
            },
            Err(_) => config.request_timeout_secs == 30,
        },
{
    if let Ok(s) = vars.request_timeout_secs {
        crate::reading_laws::law_read_integer_is_in_range(s@, 0, u64::MAX as int);
    }
}

/// There is a configuration just where the four variables that have to be there are,
/// the hash is one, and the contract is one.
pub proof fn law_what_can_be_configured(vars: Variables)
    ensures
        config_of(vars) is Ok <==> {
            &&& vars.soroban_rpc_url is Ok
            &&& vars.soroban_network_passphrase is Ok
            &&& vars.contract_wasm_hash matches Ok(s) && wasm_hash_of(
                lowercase(trimmed(s@)),
            ) is Ok
            &&& vars.contract_id matches Ok(s) && contract_of(trimmed(s@)) is Some
        },
{
}

/// The words of an error begin with its kind and end with its message.
pub proof fn law_error_words(e: AppErrorView)
    ensures
        match e {
            AppErrorView::BadRequest(m) => e.message() == m && e.text() == "bad request: "@ + m,
            AppErrorView::NotFound(m) => e.message() == m && e.text() == "not found: "@ + m,
            AppErrorView::MethodNotAllowed(m) => e.message() == m && e.text()
                == "method not allowed: "@ + m,
            AppErrorView::Upstream(m) => e.message() == m && e.text() == "upstream error: "@ + m,
            AppErrorView::Internal(m) => e.message() == m && e.text() == "internal error: "@ + m,
        },
{
}

/// Whether a text ends with another.
pub open spec fn ends_with(s: Seq<char>, end: Seq<char>) -> bool {
    s.len() >= end.len() && s.skip(s.len() - end.len()) == end
}

/// A failed reply is told with what was reported: why nothing could be sent or read, or
/// the body with which it was refused or not understood.
pub proof fn law_failed_reply_is_told(method: Seq<char>, reply: RpcReply)
    ensures
        match (reply, reply_result(method, reply)) {
            (RpcReply::Unsent(e), Err(m)) => ends_with(m, e@),
            (RpcReply::Unread(e), Err(m)) => ends_with(m, e@),
            (RpcReply::Refused { status, body }, Err(m)) => ends_with(
                m,
                status@ + " body="@ + body@,
            ),
            (RpcReply::Garbled { reason, body }, Err(m)) => ends_with(
                m,
                reason@ + " body="@ + body@,
            ),
            (RpcReply::Answered(_), _) => true,
            _ => false,
        },
{
    if let Err(m) = reply_result(method, reply) {
        match reply {
            RpcReply::Unsent(e) => assert(m.skip(m.len() - e@.len()) =~= e@),
            RpcReply::Unread(e) => assert(m.skip(m.len() - e@.len()) =~= e@),
            RpcReply::Refused { status, body } => {
                let end = status@ + " body="@ + body@;
                assert(m.skip(m.len() - end.len()) =~= end);
            },
            RpcReply::Garbled { reason, body } => {
                let end = reason@ + " body="@ + body@;
                assert(m.skip(m.len() - end.len()) =~= end);
            },
            RpcReply::Answered(_) => {},
        }
    }
}

} // verus!
