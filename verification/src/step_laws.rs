//! How a call goes on, step by step, with each reply of the network, and what it is
//! answered in the end.

use vstd::prelude::*;

use crate::encoding::account_of;
use crate::error::AppErrorView;
use crate::handlers::CallRequestView;
use crate::interface::FieldView;
use crate::interface::FunctionView;
use crate::invoke::after_poll;
use crate::invoke::after_sequence;
use crate::invoke::after_simulation;
use crate::invoke::after_submission;
use crate::invoke::args_upto;
use crate::invoke::begun;
use crate::invoke::confirmed_answer;
use crate::invoke::job_of;
use crate::invoke::resumed;
use crate::invoke::simulated_answer;
use crate::invoke::ActionView;
use crate::invoke::JobView;
use crate::invoke::NextView;
use crate::invoke::StageView;
use crate::json::canonical;
use crate::json::json_text;
use crate::json::object_view;
use crate::json::JsonView;
use crate::json_laws::lemma_no_other_key;
use crate::render::json_of;
use crate::render::key_json;
use crate::scval::val_of;
use crate::spec::SpecView;
use crate::text::decimal;
use crate::transaction::EnvelopeView;
use crate::txbuild::account_sequence;
use crate::txbuild::assembled;
use crate::txbuild::signed_envelope;
use crate::txbuild::simulation_of;
use crate::txbuild::unsigned_call;
use crate::txbuild::SimulationView;
use crate::value::ValView;
use crate::xdr::val_of_base64;
use crate::xdr::writes_held;
use crate::xdr_tx::envelope_text;
use crate::xdr_tx::lookup_key_base64;
use crate::xdr_tx::meta_of_base64;
use crate::xdr_tx::LookupKeyView;
use crate::xdr_tx::MetaView;

verus! {

/// Each reply is taken at the stage that the call waits at.
pub proof fn law_reply_is_taken_at_its_stage(
    job: JobView,
    args: Seq<ValView>,
    unsigned: EnvelopeView,
    hash: Seq<char>,
    polls: u32,
    reply: Result<JsonView, Seq<char>>,
)
    ensures
        resumed(job, StageView::Sequence(args), reply) == after_sequence(job, args, reply),
        resumed(job, StageView::Simulation(unsigned), reply) == after_simulation(
            job,
            unsigned,
            reply,
        ),
        resumed(job, StageView::Submission, reply) == after_submission(job, reply),
        resumed(job, StageView::Confirmation(hash, polls), reply) == after_poll(
            job,
            hash,
            polls,
            reply,
        ),
{
}

/// A poll is answered as soon as the network has any status of the transaction but
/// that it was not found, failed or not, and whatever the number of polls. Only where
/// it was not found, or has no status, is the network asked again for the same
/// transaction, and the thirtieth time in vain is the last.
pub proof fn law_poll_ends_with_any_outcome(
    job: JobView,
    hash: Seq<char>,
    polls: u32,
    reply: Result<JsonView, Seq<char>>,
)
    ensures
        match reply {
            Err(e) => after_poll(job, hash, polls, reply) == NextView::Failed(
                AppErrorView::Upstream(e),
            ),
            Ok(resp) => match resp.at_key("status"@) {
                Some(JsonView::String(status)) if status != "NOT_FOUND"@ => after_poll(
                    job,
                    hash,
                    polls,
                    reply,
                ) == NextView::Done(confirmed_answer(hash, resp)),
                _ => if polls < 29 {
                    after_poll(job, hash, polls, reply) == NextView::Ask(
                        job,
                        StageView::Confirmation(hash, (polls + 1) as u32),
                        ActionView::Poll(hash),
                    )
                } else {
                    after_poll(job, hash, polls, reply) matches NextView::Failed(
                        AppErrorView::Upstream(_),
                    )
                },
            },
        },
{
}

/// A transaction that the network rejects is a mistake in the request. One that it
/// takes is asked for by the hash that the network gave it, for the first time.
pub proof fn law_taken_transaction_is_polled(
    job: JobView,
    reply: Result<JsonView, Seq<char>>,
)
    ensures
        match reply {
            Err(e) => after_submission(job, reply) == NextView::Failed(AppErrorView::Upstream(e)),
            Ok(resp) => if resp.at_key("status"@) == Some(JsonView::String("ERROR"@)) {
                after_submission(job, reply) == NextView::Failed(
                    AppErrorView::BadRequest(
                        "network rejected the transaction: "@ + json_text(canonical(resp)),
                    ),
                )
            } else {
                match resp.at_key("hash"@) {
                    Some(JsonView::String(hash)) => after_submission(job, reply) == NextView::Ask(
                        job,
                        StageView::Confirmation(hash, 0),
                        ActionView::Poll(hash),
                    ),
                    _ => after_submission(job, reply) matches NextView::Failed(
                        AppErrorView::Upstream(_),
                    ),
                }
            },
        },
{
    reveal_strlit("UNKNOWN");
    reveal_strlit("ERROR");
    assert("UNKNOWN"@.len() == 7 && "ERROR"@.len() == 5);
}

/// Once the account's sequence number is there, the call of the job's function with
/// the arguments, under the next number, is sent to be simulated.
pub proof fn law_next_sequence_number_is_used(
    job: JobView,
    args: Seq<ValView>,
    reply: Result<JsonView, Seq<char>>,
)
    ensures
        match reply {
            Err(e) => after_sequence(job, args, reply) == NextView::Failed(
                AppErrorView::BadRequest(e),
            ),
            Ok(resp) => match account_sequence(resp, job.source_account) {
                Err(e) => after_sequence(job, args, reply) == NextView::Failed(
                    AppErrorView::BadRequest(e),
                ),
                Ok(n) => i64::MIN <= n < i64::MAX ==> match unsigned_call(
                    job.source_account,
                    (n + 1) as i64,
                    job.contract_id,
                    job.function_name,
                    args,
                ) {
                    Err(e) => after_sequence(job, args, reply) == NextView::Failed(
                        AppErrorView::BadRequest(e),
                    ),
                    Ok(unsigned) => match envelope_text(unsigned) {
                        Some(text) => after_sequence(job, args, reply) == NextView::Ask(
                            job,
                            StageView::Simulation(unsigned),
                            ActionView::Simulate(text),
                        ),
                        None => after_sequence(job, args, reply) matches NextView::Failed(
                            AppErrorView::Internal(_),
                        ),
                    },
                },
            },
        },
{
}

/// A failed simulation ends the call: as a failure of the network's where there was no
/// reply, and as a mistake in the request where the reply was no good.
pub proof fn law_failed_simulation_ends_the_call(
    job: JobView,
    unsigned: EnvelopeView,
    reply: Result<JsonView, Seq<char>>,
)
    ensures
        match reply {
            Err(e) => after_simulation(job, unsigned, reply) == NextView::Failed(
                AppErrorView::Upstream(e),
            ),
            Ok(resp) => match simulation_of(resp) {
                Err(e) => after_simulation(job, unsigned, reply) == NextView::Failed(
                    AppErrorView::BadRequest(e),
                ),
                Ok(sim) => assembled(unsigned, sim) matches Err(e) ==> after_simulation(
                    job,
                    unsigned,
                    reply,
                ) == NextView::Failed(AppErrorView::Internal(e)),
            },
        },
{
}

/// Once the transaction is assembled, a call that is not to be signed is answered with
/// the text of the assembled transaction. One that is to be signed is sent as the
/// assembled transaction with the signature for the job's network, and without a key
/// it is refused.
pub proof fn law_assembled_transaction_is_answered_or_sent(
    job: JobView,
    unsigned: EnvelopeView,
    resp: JsonView,
    sim: SimulationView,
    ready: EnvelopeView,
)
    requires
        simulation_of(resp) == Ok::<SimulationView, Seq<char>>(sim),
        assembled(unsigned, sim) == Ok::<EnvelopeView, Seq<char>>(ready),
    ensures
        ({
            let next = after_simulation(job, unsigned, Ok(resp));
            match (job.sign, job.secret_key) {
                (false, _) => match envelope_text(ready) {
                    Some(text) => next == NextView::Done(
                        simulated_answer(job.network_passphrase, sim, text),
                    ),
                    None => next matches NextView::Failed(AppErrorView::Internal(_)),
                },
                (true, None) => next matches NextView::Failed(AppErrorView::BadRequest(_)),
                (true, Some(key)) => match signed_envelope(ready, job.network_passphrase, key) {
                    Err(e) => next == NextView::Failed(AppErrorView::BadRequest(e)),
                    Ok(signed) => match envelope_text(signed) {
                        Some(text) => next == NextView::Ask(
                            job,
                            StageView::Submission,
                            ActionView::Send(text),
                        ),
                        None => next matches NextView::Failed(AppErrorView::Internal(_)),
                    },
                },
            }
        }),
{
}

/// The argument for a parameter: what the arguments have under its name, or null.
pub open spec fn given_for(args: JsonView, input: FieldView) -> JsonView {
    match args.at_key(input.name) {
        Some(j) => j,
        None => JsonView::Null,
    }
}

proof fn lemma_arguments(
    inputs: Seq<FieldView>,
    args: JsonView,
    spec: SpecView,
    vals: Seq<ValView>,
    n: int,
)
    requires
        0 <= n <= inputs.len(),
        n <= vals.len(),
        forall|i: int|
            0 <= i < n ==> val_of(given_for(args, inputs[i]), inputs[i].type_, spec) == Ok::<
                ValView,
                Seq<char>,
            >(#[trigger] vals[i]),
    ensures
        args_upto(inputs, args, spec, n) == Ok::<Seq<ValView>, Seq<char>>(vals.take(n)),
    decreases n,
{
    if n > 0 {
        lemma_arguments(inputs, args, spec, vals, n - 1);
        assert(val_of(given_for(args, inputs[n - 1]), inputs[n - 1].type_, spec) == Ok::<
            ValView,
            Seq<char>,
        >(vals[n - 1]));
        assert(vals.take(n) =~= vals.take(n - 1).push(vals[n - 1]));
    } else {
        assert(vals.take(n) =~= Seq::empty());
    }
}

proof fn lemma_failed_argument(
    inputs: Seq<FieldView>,
    args: JsonView,
    spec: SpecView,
    vals: Seq<ValView>,
    k: int,
    n: int,
)
    requires
        0 <= k < n <= inputs.len(),
        k <= vals.len(),
        forall|i: int|
            0 <= i < k ==> val_of(given_for(args, inputs[i]), inputs[i].type_, spec) == Ok::<
                ValView,
                Seq<char>,
            >(#[trigger] vals[i]),
        val_of(given_for(args, inputs[k]), inputs[k].type_, spec) is Err,
    ensures
        args_upto(inputs, args, spec, n) == Err::<Seq<ValView>, Seq<char>>(
            "argument `"@ + inputs[k].name + "`: "@ + val_of(
                given_for(args, inputs[k]),
                inputs[k].type_,
                spec,
            )->Err_0,
        ),
    decreases n,
{
    if k < n - 1 {
        lemma_failed_argument(inputs, args, spec, vals, k, n - 1);
    } else {
        lemma_arguments(inputs, args, spec, vals, k);
    }
}

/// A call of a function by its method goes on with what its arguments are read as: one
/// value for each parameter, in the order of the parameters, read as its type from
/// what is given under its name. The network is asked for the account that makes the
/// call.
pub proof fn law_call_begins_with_its_arguments(
    req: CallRequestView,
    spec: SpecView,
    job: JobView,
    f: FunctionView,
    vals: Seq<ValView>,
)
    requires
        spec.find_function(req.function_name) == Some(f),
        vals.len() == f.inputs.len(),
        forall|i: int|
            0 <= i < f.inputs.len() ==> val_of(
                given_for(req.args, f.inputs[i]),
                f.inputs[i].type_,
                spec,
            ) == Ok::<ValView, Seq<char>>(#[trigger] vals[i]),
    ensures
        match account_of(req.source_account) {
            Some(key) => begun(req, spec, req.is_get, job) == NextView::Ask(
                job,
                StageView::Sequence(vals),
                ActionView::GetLedgerEntries(lookup_key_base64(LookupKeyView::Account(key))),
            ),
            None => begun(req, spec, req.is_get, job) matches NextView::Failed(
                AppErrorView::BadRequest(_),
            ),
        },
{
    lemma_arguments(f.inputs, req.args, spec, vals, vals.len() as int);
    assert(vals.take(vals.len() as int) =~= vals);
}

/// A call with an argument that cannot be read is refused with the name of the first
/// such parameter and the reason.
pub proof fn law_bad_argument_is_named(
    req: CallRequestView,
    spec: SpecView,
    job: JobView,
    f: FunctionView,
    vals: Seq<ValView>,
    reason: Seq<char>,
)
    requires
        spec.find_function(req.function_name) == Some(f),
        vals.len() < f.inputs.len(),
        forall|i: int|
            0 <= i < vals.len() ==> val_of(
                given_for(req.args, f.inputs[i]),
                f.inputs[i].type_,
                spec,
            ) == Ok::<ValView, Seq<char>>(#[trigger] vals[i]),
        val_of(
            given_for(req.args, f.inputs[vals.len() as int]),
            f.inputs[vals.len() as int].type_,
            spec,
        ) == Err::<ValView, Seq<char>>(reason),
    ensures
        begun(req, spec, req.is_get, job) == NextView::Failed(
            AppErrorView::BadRequest(
                "argument `"@ + f.inputs[vals.len() as int].name + "`: "@ + reason,
            ),
        ),
{
    lemma_failed_argument(
        f.inputs,
        req.args,
        spec,
        vals,
        vals.len() as int,
        f.inputs.len() as int,
    );
}

/// A job is that of its request: the function, the account, whether to sign, and the
/// key, on the contract and the network that are served.
pub proof fn law_job_is_that_of_the_request(
    req: CallRequestView,
    contract_id: Seq<char>,
    network_passphrase: Seq<char>,
)
    ensures
        ({
            let job = job_of(req, contract_id, network_passphrase);
            &&& job.function_name == req.function_name
            &&& job.source_account == req.source_account
            &&& job.sign == req.sign
            &&& job.secret_key == req.secret_key
            &&& job.contract_id == contract_id
            &&& job.network_passphrase == network_passphrase
        }),
{
}

/// The return value of a call as the answer shows it: the value that the reply gives as
/// such, otherwise the one in the metadata, and otherwise null.
pub open spec fn shown_value(resp: JsonView) -> JsonView {
    match resp.at_key("returnValue"@) {
        Some(JsonView::String(s)) if val_of_base64(s) is Some => json_of(val_of_base64(s)->0),
        _ => match resp.at_key("resultMetaXdr"@) {
            Some(JsonView::String(m)) => match meta_of_base64(m) {
                Some(MetaView::V3(Some(v))) => json_of(v),
                Some(MetaView::V4(Some(Some(v)))) => json_of(v),
                _ => JsonView::Null,
            },
            _ => JsonView::Null,
        },
    }
}

/// A call that the network knows the outcome of is answered with the status that the
/// network gives, the hash, the return value and the whole reply, and nothing else.
pub proof fn law_outcome_is_answered_as_it_is(hash: Seq<char>, resp: JsonView, other: Seq<char>)
    requires
        other != "status"@ && other != "hash"@ && other != "return_value"@ && other != "raw"@,
    ensures
        ({
            let a = confirmed_answer(hash, resp);
            &&& match resp.at_key("status"@) {
                Some(JsonView::String(s)) => a.at_key("status"@) == Some(JsonView::String(s)),
                _ => a.at_key("status"@) == Some(JsonView::String("UNKNOWN"@)),
            }
            &&& a.at_key("hash"@) == Some(JsonView::String(hash))
            &&& a.at_key("return_value"@) == Some(shown_value(resp))
            &&& a.at_key("raw"@) == Some(resp)
            &&& a.at_key(other) is None
        }),
{
    crate::answer_laws::law_confirmed_answer(hash, resp);
    let given = seq![
        ("status"@, confirmed_answer(hash, resp).at_key("status"@)->0),
        ("hash"@, JsonView::String(hash)),
        ("return_value"@, shown_value(resp)),
        ("raw"@, resp),
    ];
    assert(confirmed_answer(hash, resp) == object_view(given));
    lemma_no_other_key(given, other);
}

/// A call that was only simulated is answered with the result of the simulation or
/// null, the fee in decimals, each entry that the call would write, in their order,
/// the transaction, and the whole reply.
pub proof fn law_simulation_is_answered_as_it_is(
    network_passphrase: Seq<char>,
    sim: SimulationView,
    transaction_xdr: Seq<char>,
)
    ensures
        ({
            let a = simulated_answer(network_passphrase, sim, transaction_xdr);
            &&& a.at_key("status"@) == Some(JsonView::String("simulated"@))
            &&& a.at_key("network_passphrase"@) == Some(JsonView::String(network_passphrase))
            &&& match sim.result_json {
                Some(j) => a.at_key("simulated_result"@) == Some(j),
                None => a.at_key("simulated_result"@) == Some(JsonView::Null),
            }
            &&& a.at_key("min_resource_fee"@) == Some(
                JsonView::String(decimal(sim.min_resource_fee as int)),
            )
            &&& match a.at_key("read_write"@) {
                Some(JsonView::Array(keys)) => {
                    let held = writes_held(sim.soroban_data);
                    keys.len() == held.len() && forall|i: int|
                        0 <= i < held.len() ==> #[trigger] keys[i] == key_json(held[i])
                },
                _ => false,
            }
            &&& a.at_key("transaction_xdr"@) == Some(JsonView::String(transaction_xdr))
            &&& a.at_key("simulation"@) == Some(sim.raw)
        }),
{
    crate::answer_laws::law_simulated_answer(network_passphrase, sim, transaction_xdr);
}

/// A function that is called by the wrong method is refused with the right one and,
/// where that is `POST`, the reason: that it takes arguments, or that it writes.
pub proof fn law_right_method_is_told(
    req: CallRequestView,
    spec: SpecView,
    job: JobView,
    f: FunctionView,
)
    requires
        spec.find_function(req.function_name) == Some(f),
    ensures
        begun(req, spec, !req.is_get, job) == NextView::Failed(
            AppErrorView::MethodNotAllowed(
                if !req.is_get {
                    "function `"@ + req.function_name
                        + "` takes no arguments and is read-only; call it with GET instead of POST"@
                } else if f.inputs.len() > 0 {
                    "function `"@ + req.function_name + "` must be called with POST ("@
                        + "it takes arguments"@ + "); use POST instead of GET"@
                } else {
                    "function `"@ + req.function_name + "` must be called with POST ("@
                        + "it changes contract state"@ + "); use POST instead of GET"@
                },
            ),
        ),
{
}

} // verus!
