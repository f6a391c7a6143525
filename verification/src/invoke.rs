//! The course of a call: what to ask the network for next, and what to answer.
//!
//! A call is simulated, and the caller gets the unsigned transaction back. If the
//! caller asks for it and gives the secret key, the transaction is signed and
//! submitted instead, and the network is asked what became of it until it knows.

use vstd::prelude::*;

use crate::error::told;
use crate::error::AppError;
use crate::error::AppErrorView;
use crate::error::Failure;
use crate::handlers::text_option;
use crate::handlers::CallRequest;
use crate::handlers::CallRequestView;
use crate::interface::Field;
use crate::interface::FieldView;
use crate::interface::FunctionView;
use crate::json::canonical;
use crate::json::json_text;
use crate::json::json_views;
use crate::json::object;
use crate::json::object_view;
use crate::json::pair_views;
use crate::json::Json;
use crate::json::JsonView;
use crate::render::json_of;
use crate::render::key_json;
use crate::render::ledger_key_to_json;
use crate::render::scval_to_json;
use crate::scval::json_to_scval;
use crate::scval::val_of;
use crate::spec::ContractSpec;
use crate::spec::SpecView;
use crate::state::AppState;
use crate::text::cat2;
use crate::text::cat3;
use crate::text::cat4;
use crate::text::cat5;
use crate::text::decimal;
use crate::text::signed_text;
use crate::text::text_eq;
use crate::transaction::Envelope;
use crate::transaction::EnvelopeView;
use crate::txbuild::account_key;
use crate::txbuild::account_sequence;
use crate::txbuild::assemble_transaction;
use crate::txbuild::assembled;
use crate::txbuild::build_unsigned_invoke_tx;
use crate::txbuild::envelope_sent;
use crate::txbuild::envelope_to_base64;
use crate::txbuild::extract_return_value;
use crate::txbuild::fetch_next_sequence_number;
use crate::txbuild::meta_value;
use crate::txbuild::optional_view;
use crate::txbuild::parse_simulation;
use crate::txbuild::sign_transaction;
use crate::txbuild::signed_envelope;
use crate::txbuild::simulation_of;
use crate::txbuild::source_account_key;
use crate::txbuild::unsigned_call;
use crate::txbuild::SimulationOutcome;
use crate::txbuild::SimulationView;
use crate::value::val_views;
use crate::value::FootprintKeyView;
use crate::value::Val;
use crate::value::ValView;
use crate::xdr::val_of_base64;
use crate::xdr::writes_held;
use crate::xdr::writes_of;

verus! {

/// How often the network is asked what became of a transaction.
pub const MAX_POLLS: u32 = 30;

/// A call under way: what of the request and of the instance its course needs.
#[derive(Debug, PartialEq)]
pub struct Job {
    pub function_name: String,
    pub source_account: String,
    pub sign: bool,
    pub secret_key: Option<String>,
    pub contract_id: String,
    pub network_passphrase: String,
}

pub struct JobView {
    pub function_name: Seq<char>,
    pub source_account: Seq<char>,
    pub sign: bool,
    pub secret_key: Option<Seq<char>>,
    pub contract_id: Seq<char>,
    pub network_passphrase: Seq<char>,
}

impl View for Job {
    type V = JobView;

    open spec fn view(&self) -> JobView {
        JobView {
            function_name: self.function_name@,
            source_account: self.source_account@,
            sign: self.sign,
            secret_key: text_option(self.secret_key),
            contract_id: self.contract_id@,
            network_passphrase: self.network_passphrase@,
        }
    }
}

/// What a call waits for: the account's ledger entry, with the arguments read; the
/// simulation of the transaction that was built; the network's taking the signed
/// transaction; or word of the transaction with a hash, after so many questions.
#[derive(Debug, PartialEq)]
pub enum Stage {
    Sequence(Vec<Val>),
    Simulation(Envelope),
    Submission,
    Confirmation(String, u32),
}

pub enum StageView {
    Sequence(Seq<ValView>),
    Simulation(EnvelopeView),
    Submission,
    Confirmation(Seq<char>, u32),
}

impl View for Stage {
    type V = StageView;

    open spec fn view(&self) -> StageView {
        match *self {
            Stage::Sequence(args) => StageView::Sequence(val_views(args@)),
            Stage::Simulation(e) => StageView::Simulation(e@),
            Stage::Submission => StageView::Submission,
            Stage::Confirmation(hash, polls) => StageView::Confirmation(hash@, polls),
        }
    }
}

/// What to ask the network for: the ledger entry of a key, the simulation of a
/// transaction, to take a signed transaction, or, after a second's wait, what
/// became of the transaction with a hash.
#[derive(Debug, PartialEq)]
pub enum Action {
    GetLedgerEntries(String),
    Simulate(String),
    Send(String),
    Poll(String),
}

pub enum ActionView {
    GetLedgerEntries(Seq<char>),
    Simulate(Seq<char>),
    Send(Seq<char>),
    Poll(Seq<char>),
}

impl View for Action {
    type V = ActionView;

    open spec fn view(&self) -> ActionView {
        match *self {
            Action::GetLedgerEntries(key) => ActionView::GetLedgerEntries(key@),
            Action::Simulate(tx) => ActionView::Simulate(tx@),
            Action::Send(tx) => ActionView::Send(tx@),
            Action::Poll(hash) => ActionView::Poll(hash@),
        }
    }
}

/// How a call goes on: the network is to be asked, the answer is there, the call
/// failed, or the account has no sequence number left for it.
#[derive(Debug, PartialEq)]
pub enum Next {
    Ask(Job, Stage, Action),
    Done(Json),
    Failed(AppError),
    Exhausted,
}

pub enum NextView {
    Ask(JobView, StageView, ActionView),
    Done(JsonView),
    Failed(AppErrorView),
    Exhausted,
}

impl View for Next {
    type V = NextView;

    open spec fn view(&self) -> NextView {
        match *self {
            Next::Ask(job, stage, action) => NextView::Ask(job@, stage@, action@),
            Next::Done(j) => NextView::Done(j@),
            Next::Failed(e) => NextView::Failed(e@),
            Next::Exhausted => NextView::Exhausted,
        }
    }
}

/// The first `n` parameters of a function read from the arguments, a missing
/// argument as null, or the first failure among them.
pub open spec fn args_upto(inputs: Seq<FieldView>, args: JsonView, spec: SpecView, n: int) -> Result<
    Seq<ValView>,
    Seq<char>,
>
    decreases n,
{
    if n <= 0 {
        Ok(Seq::empty())
    } else {
        match args_upto(inputs, args, spec, n - 1) {
            Err(e) => Err(e),
            Ok(vals) => match val_of(
                argument(args, inputs[n - 1].name),
                inputs[n - 1].type_,
                spec,
            ) {
                Err(e) => Err("argument `"@ + inputs[n - 1].name + "`: "@ + e),
                Ok(v) => Ok(vals.push(v)),
            },
        }
    }
}

/// The argument of a name; null if there is none.
pub open spec fn argument(args: JsonView, name: Seq<char>) -> JsonView {
    match args.at_key(name) {
        Some(j) => j,
        None => JsonView::Null,
    }
}

proof fn lemma_args_fail(inputs: Seq<FieldView>, args: JsonView, spec: SpecView, k: int, n: int)
    requires
        0 <= k <= n,
        args_upto(inputs, args, spec, k) is Err,
    ensures
        args_upto(inputs, args, spec, n) == args_upto(inputs, args, spec, k),
    decreases n,
{
    if k < n {
        lemma_args_fail(inputs, args, spec, k, n - 1);
    }
}

/// Reads the arguments of a function.
pub fn read_args(inputs: &Vec<Field>, args: &Json, spec: &ContractSpec) -> (r: Result<
    Vec<Val>,
    Failure,
>)
    ensures
        match r {
            Ok(vals) => args_upto(
                crate::interface::field_views(inputs@),
                args@,
                spec@,
                inputs@.len() as int,
            ) == Ok::<Seq<ValView>, Seq<char>>(val_views(vals@)),
            Err(e) => args_upto(
                crate::interface::field_views(inputs@),
                args@,
                spec@,
                inputs@.len() as int,
            ) == Err::<Seq<ValView>, Seq<char>>(e@),
        },
{
    let ghost shown = crate::interface::field_views(inputs@);
    let mut out: Vec<Val> = Vec::new();
    assert(val_views(out@) =~= Seq::empty());
    let mut i: usize = 0;
    while i < inputs.len()
        invariant
            i <= inputs@.len(),
            shown == crate::interface::field_views(inputs@),
            args_upto(shown, args@, spec@, i as int) == Ok::<Seq<ValView>, Seq<char>>(
                val_views(out@),
            ),
        decreases inputs@.len() - i,
    {
        assert(shown[i as int] == inputs@[i as int]@);
        let name = inputs[i].name.as_str();
        let read = match args.get(name) {
            Some(j) => json_to_scval(j, &inputs[i].type_, spec),
            None => json_to_scval(&Json::Null, &inputs[i].type_, spec),
        };
        match read {
            Ok(v) => {
                let ghost before = val_views(out@);
                out.push(v);
                assert(val_views(out@) =~= before.push(v@));
            },
            Err(e) => {
                proof {
                    lemma_args_fail(shown, args@, spec@, i + 1, inputs@.len() as int);
                }
                return Err(
                    Failure::new(cat4("argument `", name, "`: ", e.message.as_str())),
                );
            },
        }
        i += 1;
    }
    Ok(out)
}

/// Why a function cannot be called by `GET`.
pub open spec fn post_reason(f: FunctionView) -> Seq<char> {
    if f.inputs.len() > 0 {
        "it takes arguments"@
    } else {
        "it changes contract state"@
    }
}

/// The complaint about the method that a function is called by, if it is the wrong
/// one.
pub open spec fn wrong_method(name: Seq<char>, f: FunctionView, is_get: bool, use_get: bool) -> Option<
    Seq<char>,
> {
    if is_get && !use_get {
        Some(
            "function `"@ + name + "` must be called with POST ("@ + post_reason(f)
                + "); use POST instead of GET"@,
        )
    } else if !is_get && use_get {
        Some(
            "function `"@ + name
                + "` takes no arguments and is read-only; call it with GET instead of POST"@,
        )
    } else {
        None
    }
}

/// The job of a request.
pub open spec fn job_of(
    req: CallRequestView,
    contract_id: Seq<char>,
    network_passphrase: Seq<char>,
) -> JobView {
    JobView {
        function_name: req.function_name,
        source_account: req.source_account,
        sign: req.sign,
        secret_key: req.secret_key,
        contract_id,
        network_passphrase,
    }
}

/// How a call begins. `use_get` says which method the function is called by.
pub open spec fn begun(req: CallRequestView, spec: SpecView, use_get: bool, job: JobView) -> NextView {
    match spec.find_function(req.function_name) {
        None => NextView::Failed(
            AppErrorView::NotFound("contract has no function `"@ + req.function_name + "`"@),
        ),
        Some(f) => match wrong_method(req.function_name, f, req.is_get, use_get) {
            Some(m) => NextView::Failed(AppErrorView::MethodNotAllowed(m)),
            None => match args_upto(f.inputs, req.args, spec, f.inputs.len() as int) {
                Err(e) => NextView::Failed(AppErrorView::BadRequest(e)),
                Ok(args) => match account_key(req.source_account) {
                    Err(e) => NextView::Failed(AppErrorView::BadRequest(e)),
                    Ok(key) => NextView::Ask(
                        job,
                        StageView::Sequence(args),
                        ActionView::GetLedgerEntries(key),
                    ),
                },
            },
        },
    }
}

/// Begins a call: checks the function, the method and the arguments, and asks for
/// the account.
pub fn invoke_inner(state: &AppState, spec: &ContractSpec, req: CallRequest) -> (r: Next)
    ensures
        r@ == begun(
            req@,
            spec@,
            state.function_methods.at(req@.function_name) == Some(true),
            job_of(req@, state.contract_id@, state.network_passphrase@),
        ),
{
    let f = match spec.function(req.function_name.as_str()) {
        Some(f) => f,
        None => return Next::Failed(
            AppError::not_found(
                cat3("contract has no function `", req.function_name.as_str(), "`"),
            ),
        ),
    };
    let use_get = state.should_use_get(req.function_name.as_str());
    if req.is_get && !use_get {
        let reason = if f.inputs.len() > 0 {
            "it takes arguments"
        } else {
            "it changes contract state"
        };
        return Next::Failed(
            AppError::method_not_allowed(
                cat5(
                    "function `",
                    req.function_name.as_str(),
                    "` must be called with POST (",
                    reason,
                    "); use POST instead of GET",
                ),
            ),
        );
    }
    if !req.is_get && use_get {
        return Next::Failed(
            AppError::method_not_allowed(
                cat3(
                    "function `",
                    req.function_name.as_str(),
                    "` takes no arguments and is read-only; call it with GET instead of POST",
                ),
            ),
        );
    }
    let args = match read_args(&f.inputs, &req.args, spec) {
        Ok(args) => args,
        Err(e) => return Next::Failed(AppError::bad_request(e.message)),
    };
    let key = match source_account_key(req.source_account.as_str()) {
        Ok(key) => key,
        Err(e) => return Next::Failed(AppError::bad_request(e.message)),
    };
    let job = Job {
        function_name: req.function_name,
        source_account: req.source_account,
        sign: req.sign,
        secret_key: req.secret_key,
        contract_id: state.contract_id.clone(),
        network_passphrase: state.network_passphrase.clone(),
    };
    Next::Ask(job, Stage::Sequence(args), Action::GetLedgerEntries(key))
}

/// How a call goes on once the account's ledger entry is there.
pub open spec fn after_sequence(
    job: JobView,
    args: Seq<ValView>,
    reply: Result<JsonView, Seq<char>>,
) -> NextView {
    match reply {
        Err(e) => NextView::Failed(AppErrorView::BadRequest(e)),
        Ok(resp) => match account_sequence(resp, job.source_account) {
            Err(e) => NextView::Failed(AppErrorView::BadRequest(e)),
            Ok(n) => if n >= i64::MAX {
                NextView::Exhausted
            } else {
                match unsigned_call(
                    job.source_account,
                    (n + 1) as i64,
                    job.contract_id,
                    job.function_name,
                    args,
                ) {
                    Err(e) => NextView::Failed(AppErrorView::BadRequest(e)),
                    Ok(unsigned) => match envelope_sent(unsigned) {
                        Err(e) => NextView::Failed(AppErrorView::Internal(e)),
                        Ok(tx) => NextView::Ask(
                            job,
                            StageView::Simulation(unsigned),
                            ActionView::Simulate(tx),
                        ),
                    },
                }
            },
        },
    }
}

fn go_on_from_sequence(job: Job, args: Vec<Val>, reply: Result<Json, Failure>) -> (r: Next)
    ensures
        r@ == after_sequence(job@, val_views(args@), told(reply)),
{
    let resp = match reply {
        Ok(resp) => resp,
        Err(e) => return Next::Failed(AppError::bad_request(e.message)),
    };
    let next_seq = match fetch_next_sequence_number(&resp, job.source_account.as_str()) {
        Ok(Some(n)) => n,
        Ok(None) => return Next::Exhausted,
        Err(e) => return Next::Failed(AppError::bad_request(e.message)),
    };
    let unsigned = match build_unsigned_invoke_tx(
        job.source_account.as_str(),
        next_seq,
        job.contract_id.as_str(),
        job.function_name.as_str(),
        args,
    ) {
        Ok(unsigned) => unsigned,
        Err(e) => return Next::Failed(AppError::bad_request(e.message)),
    };
    match envelope_to_base64(&unsigned) {
        Ok(tx) => Next::Ask(job, Stage::Simulation(unsigned), Action::Simulate(tx)),
        Err(e) => Next::Failed(AppError::Internal(e)),
    }
}

/// A value, or null.
pub open spec fn or_null(j: Option<JsonView>) -> JsonView {
    match j {
        Some(j) => j,
        None => JsonView::Null,
    }
}

fn json_or_null(j: Option<Json>) -> (r: Json)
    ensures
        r@ == or_null(optional_view(j)),
{
    match j {
        Some(j) => j,
        None => Json::Null,
    }
}

pub open spec fn key_jsons(keys: Seq<FootprintKeyView>) -> Seq<JsonView> {
    Seq::new(keys.len(), |i: int| key_json(keys[i]))
}

/// The answer to a call that was only simulated.
pub open spec fn simulated_answer(
    network_passphrase: Seq<char>,
    sim: SimulationView,
    transaction_xdr: Seq<char>,
) -> JsonView {
    object_view(
        seq![
            ("status"@, JsonView::String("simulated"@)),
            ("network_passphrase"@, JsonView::String(network_passphrase)),
            ("simulated_result"@, or_null(sim.result_json)),
            ("min_resource_fee"@, JsonView::String(decimal(sim.min_resource_fee as int))),
            ("read_write"@, JsonView::Array(key_jsons(writes_held(sim.soroban_data)))),
            ("transaction_xdr"@, JsonView::String(transaction_xdr)),
            (
                "note"@,
                JsonView::String(
                    "Sign this XDR yourself and submit it (e.g. via sendTransaction), or resend this request with a `x-sign: true` header and a `x-secret-key` header to have the proxy sign and submit it on your behalf."@,
                ),
            ),
            ("simulation"@, sim.raw),
        ],
    )
}

/// Makes the answer to a call that was only simulated.
pub fn answer_simulated(
    network_passphrase: &str,
    sim: SimulationOutcome,
    transaction_xdr: String,
) -> (r: Json)
    ensures
        r@ == simulated_answer(network_passphrase@, sim@, transaction_xdr@),
{
    let keys = writes_of(&sim.soroban_data);
    let ghost held = writes_held(sim.soroban_data);
    let mut writes: Vec<Json> = Vec::new();
    let mut i: usize = 0;
    while i < keys.len()
        invariant
            i <= keys@.len(),
            crate::value::key_views(keys@) == held,
            writes@.len() == i,
            forall|k: int| 0 <= k < i ==> (#[trigger] writes@[k])@ == key_jsons(held)[k],
        decreases keys@.len() - i,
    {
        assert(crate::value::key_views(keys@)[i as int] == keys@[i as int]@);
        writes.push(ledger_key_to_json(&keys[i]));
        i += 1;
    }
    assert(crate::value::key_views(keys@).len() == keys@.len());
    assert(json_views(writes@) =~= key_jsons(held));
    let fee = signed_text(sim.min_resource_fee as i128);
    let pairs = vec![
        ("status".to_owned(), Json::text("simulated")),
        ("network_passphrase".to_owned(), Json::text(network_passphrase)),
        ("simulated_result".to_owned(), json_or_null(sim.result_json)),
        ("min_resource_fee".to_owned(), Json::String(fee)),
        ("read_write".to_owned(), Json::Array(writes)),
        ("transaction_xdr".to_owned(), Json::String(transaction_xdr)),
        (
            "note".to_owned(),
            Json::text(
                "Sign this XDR yourself and submit it (e.g. via sendTransaction), or resend this request with a `x-sign: true` header and a `x-secret-key` header to have the proxy sign and submit it on your behalf.",
            ),
        ),
        ("simulation".to_owned(), sim.raw),
    ];
    assert(pair_views(pairs@) =~= seq![
        ("status"@, JsonView::String("simulated"@)),
        ("network_passphrase"@, JsonView::String(network_passphrase@)),
        ("simulated_result"@, or_null(sim@.result_json)),
        ("min_resource_fee"@, JsonView::String(decimal(sim@.min_resource_fee as int))),
        ("read_write"@, JsonView::Array(key_jsons(writes_held(sim@.soroban_data)))),
        ("transaction_xdr"@, JsonView::String(transaction_xdr@)),
        (
            "note"@,
            JsonView::String(
                "Sign this XDR yourself and submit it (e.g. via sendTransaction), or resend this request with a `x-sign: true` header and a `x-secret-key` header to have the proxy sign and submit it on your behalf."@,
            ),
        ),
        ("simulation"@, sim@.raw),
    ]);
    object(pairs)
}

/// How a call goes on once its transaction has the resources of its simulation.
pub open spec fn after_assembly(job: JobView, sim: SimulationView, ready: EnvelopeView) -> NextView {
    if !job.sign {
        match envelope_sent(ready) {
            Err(e) => NextView::Failed(AppErrorView::Internal(e)),
            Ok(tx) => NextView::Done(simulated_answer(job.network_passphrase, sim, tx)),
        }
    } else {
        match job.secret_key {
            None => NextView::Failed(
                AppErrorView::BadRequest(
                    "header `x-secret-key` is required when `x-sign: true`"@,
                ),
            ),
            Some(secret_key) => match signed_envelope(ready, job.network_passphrase, secret_key) {
                Err(e) => NextView::Failed(AppErrorView::BadRequest(e)),
                Ok(signed) => match envelope_sent(signed) {
                    Err(e) => NextView::Failed(AppErrorView::Internal(e)),
                    Ok(tx) => NextView::Ask(job, StageView::Submission, ActionView::Send(tx)),
                },
            },
        }
    }
}

/// How a call goes on once its transaction has been simulated.
pub open spec fn after_simulation(
    job: JobView,
    unsigned: EnvelopeView,
    reply: Result<JsonView, Seq<char>>,
) -> NextView {
    match reply {
        Err(e) => NextView::Failed(AppErrorView::Upstream(e)),
        Ok(resp) => match simulation_of(resp) {
            Err(e) => NextView::Failed(AppErrorView::BadRequest(e)),
            Ok(sim) => match assembled(unsigned, sim) {
                Err(e) => NextView::Failed(AppErrorView::Internal(e)),
                Ok(ready) => after_assembly(job, sim, ready),
            },
        },
    }
}

/// Goes on with a transaction that has the resources of its simulation: answers
/// with it, or signs it and submits it.
pub fn go_on_from_assembly(job: Job, sim: SimulationOutcome, ready: Envelope) -> (r: Next)
    ensures
        r@ == after_assembly(job@, sim@, ready@),
{
    if !job.sign {
        return match envelope_to_base64(&ready) {
            Ok(tx) => Next::Done(answer_simulated(job.network_passphrase.as_str(), sim, tx)),
            Err(e) => Next::Failed(AppError::Internal(e)),
        };
    }
    let signed = match &job.secret_key {
        None => return Next::Failed(
            AppError::bad_request(
                "header `x-secret-key` is required when `x-sign: true`".to_owned(),
            ),
        ),
        Some(secret_key) => match sign_transaction(
            ready,
            job.network_passphrase.as_str(),
            secret_key.as_str(),
        ) {
            Ok(signed) => signed,
            Err(e) => return Next::Failed(AppError::bad_request(e.message)),
        },
    };
    match envelope_to_base64(&signed) {
        Ok(tx) => Next::Ask(job, Stage::Submission, Action::Send(tx)),
        Err(e) => Next::Failed(AppError::Internal(e)),
    }
}

fn go_on_from_simulation(job: Job, unsigned: Envelope, reply: Result<Json, Failure>) -> (r: Next)
    ensures
        r@ == after_simulation(job@, unsigned@, told(reply)),
{
    let resp = match reply {
        Ok(resp) => resp,
        Err(e) => return Next::Failed(AppError::upstream(e.message)),
    };
    let sim = match parse_simulation(&resp) {
        Ok(sim) => sim,
        Err(e) => return Next::Failed(AppError::bad_request(e.message)),
    };
    match assemble_transaction(unsigned, &sim) {
        Ok(ready) => go_on_from_assembly(job, sim, ready),
        Err(e) => Next::Failed(AppError::Internal(e)),
    }
}

/// The text in a field of a reply, or another text if there is none.
pub open spec fn text_or(resp: JsonView, name: Seq<char>, other: Seq<char>) -> Seq<char> {
    match resp.at_key(name) {
        Some(v) => match v.str_value() {
            Some(s) => s,
            None => other,
        },
        None => other,
    }
}

fn text_in_or<'a>(resp: &'a Json, name: &str, other: &'a str) -> (r: &'a str)
    ensures
        r@ == text_or(resp@, name@, other@),
{
    match resp.get(name) {
        Some(v) => match v.as_str() {
            Some(s) => s,
            None => other,
        },
        None => other,
    }
}

/// The text in a field of a reply, if there is one.
pub open spec fn text_field(resp: JsonView, name: Seq<char>) -> Option<Seq<char>> {
    match resp.at_key(name) {
        Some(v) => v.str_value(),
        None => None,
    }
}

fn text_of_field<'a>(resp: &'a Json, name: &str) -> (r: Option<&'a str>)
    ensures
        match r {
            Some(s) => text_field(resp@, name@) == Some(s@),
            None => text_field(resp@, name@) is None,
        },
{
    match resp.get(name) {
        Some(v) => v.as_str(),
        None => None,
    }
}

/// How a call goes on once the network has said whether it takes the transaction.
pub open spec fn after_submission(job: JobView, reply: Result<JsonView, Seq<char>>) -> NextView {
    match reply {
        Err(e) => NextView::Failed(AppErrorView::Upstream(e)),
        Ok(resp) => if text_or(resp, "status"@, "UNKNOWN"@) == "ERROR"@ {
            NextView::Failed(
                AppErrorView::BadRequest(
                    "network rejected the transaction: "@ + json_text(canonical(resp)),
                ),
            )
        } else {
            match text_field(resp, "hash"@) {
                None => NextView::Failed(
                    AppErrorView::Upstream("sendTransaction response had no hash"@),
                ),
                Some(hash) => NextView::Ask(
                    job,
                    StageView::Confirmation(hash, 0),
                    ActionView::Poll(hash),
                ),
            }
        },
    }
}

fn go_on_from_submission(job: Job, reply: Result<Json, Failure>) -> (r: Next)
    ensures
        r@ == after_submission(job@, told(reply)),
{
    let resp = match reply {
        Ok(resp) => resp,
        Err(e) => return Next::Failed(AppError::upstream(e.message)),
    };
    if text_eq(text_in_or(&resp, "status", "UNKNOWN"), "ERROR") {
        return Next::Failed(
            AppError::bad_request(
                cat2("network rejected the transaction: ", resp.to_text().as_str()),
            ),
        );
    }
    match text_of_field(&resp, "hash") {
        None => Next::Failed(
            AppError::upstream("sendTransaction response had no hash".to_owned()),
        ),
        Some(hash) => Next::Ask(
            job,
            Stage::Confirmation(hash.to_owned(), 0),
            Action::Poll(hash.to_owned()),
        ),
    }
}

/// The return value in what the network says of a transaction: the value itself,
/// or the one in the metadata.
pub open spec fn confirmed_value(resp: JsonView) -> Option<ValView> {
    match plain_value(resp) {
        Some(v) => Some(v),
        None => match text_field(resp, "resultMetaXdr"@) {
            None => None,
            Some(s) => match meta_value(s) {
                Ok(v) => v,
                Err(_) => None,
            },
        },
    }
}

/// The return value that the network gives as such.
pub open spec fn plain_value(resp: JsonView) -> Option<ValView> {
    match text_field(resp, "returnValue"@) {
        None => None,
        Some(s) => val_of_base64(s),
    }
}

fn read_confirmed_value(resp: &Json) -> (r: Option<Val>)
    ensures
        crate::txbuild::val_option_view(r) == confirmed_value(resp@),
{
    if let Some(s) = text_of_field(resp, "returnValue") {
        if let Some(v) = Val::from_base64(s) {
            return Some(v);
        }
    }
    match text_of_field(resp, "resultMetaXdr") {
        None => None,
        Some(s) => match extract_return_value(s) {
            Ok(v) => v,
            Err(_) => None,
        },
    }
}

/// The return value in what the network says of a transaction, as JSON.
pub open spec fn confirmed_json(resp: JsonView) -> Option<JsonView> {
    match confirmed_value(resp) {
        Some(v) => Some(json_of(v)),
        None => None,
    }
}

/// The answer to a call that the network knows the outcome of.
pub open spec fn confirmed_answer(hash: Seq<char>, resp: JsonView) -> JsonView {
    object_view(
        seq![
            ("status"@, JsonView::String(text_or(resp, "status"@, "UNKNOWN"@))),
            ("hash"@, JsonView::String(hash)),
            ("return_value"@, or_null(confirmed_json(resp))),
            ("raw"@, resp),
        ],
    )
}

/// Makes the answer to a call that the network knows the outcome of.
pub fn answer_confirmed(hash: String, resp: Json) -> (r: Json)
    ensures
        r@ == confirmed_answer(hash@, resp@),
{
    let status = text_in_or(&resp, "status", "UNKNOWN").to_owned();
    let return_value = match read_confirmed_value(&resp) {
        Some(v) => Some(scval_to_json(&v)),
        None => None,
    };
    let ghost shown = resp@;
    assert(optional_view(return_value) == confirmed_json(shown));
    let pairs = vec![
        ("status".to_owned(), Json::String(status)),
        ("hash".to_owned(), Json::String(hash)),
        ("return_value".to_owned(), json_or_null(return_value)),
        ("raw".to_owned(), resp),
    ];
    assert(pair_views(pairs@) =~= seq![
        ("status"@, JsonView::String(text_or(shown, "status"@, "UNKNOWN"@))),
        ("hash"@, JsonView::String(hash@)),
        ("return_value"@, or_null(confirmed_json(shown))),
        ("raw"@, shown),
    ]);
    object(pairs)
}

/// How a call goes on once the network has been asked for its transaction, after
/// so many questions before.
pub open spec fn after_poll(
    job: JobView,
    hash: Seq<char>,
    polls: u32,
    reply: Result<JsonView, Seq<char>>,
) -> NextView {
    match reply {
        Err(e) => NextView::Failed(AppErrorView::Upstream(e)),
        Ok(resp) => if text_or(resp, "status"@, "NOT_FOUND"@) != "NOT_FOUND"@ {
            NextView::Done(confirmed_answer(hash, resp))
        } else if polls + 1 >= MAX_POLLS {
            NextView::Failed(
                AppErrorView::Upstream(
                    "timed out waiting for transaction "@ + hash
                        + " to be included in a ledger; it may still confirm later, check getTransaction manually"@,
                ),
            )
        } else {
            NextView::Ask(
                job,
                StageView::Confirmation(hash, (polls + 1) as u32),
                ActionView::Poll(hash),
            )
        },
    }
}

fn go_on_from_poll(job: Job, hash: String, polls: u32, reply: Result<Json, Failure>) -> (r: Next)
    ensures
        r@ == after_poll(job@, hash@, polls, told(reply)),
{
    let resp = match reply {
        Ok(resp) => resp,
        Err(e) => return Next::Failed(AppError::upstream(e.message)),
    };
    if !text_eq(text_in_or(&resp, "status", "NOT_FOUND"), "NOT_FOUND") {
        return Next::Done(answer_confirmed(hash, resp));
    }
    if polls >= MAX_POLLS - 1 {
        return Next::Failed(
            AppError::upstream(
                cat3(
                    "timed out waiting for transaction ",
                    hash.as_str(),
                    " to be included in a ledger; it may still confirm later, check getTransaction manually",
                ),
            ),
        );
    }
    let again = Action::Poll(hash.clone());
    Next::Ask(job, Stage::Confirmation(hash, polls + 1), again)
}

/// How a call goes on with the network's reply to what it waited for.
pub open spec fn resumed(
    job: JobView,
    stage: StageView,
    reply: Result<JsonView, Seq<char>>,
) -> NextView {
    match stage {
        StageView::Sequence(args) => after_sequence(job, args, reply),
        StageView::Simulation(unsigned) => after_simulation(job, unsigned, reply),
        StageView::Submission => after_submission(job, reply),
        StageView::Confirmation(hash, polls) => after_poll(job, hash, polls, reply),
    }
}

/// Goes on with a call, with the network's reply to what it waited for or the
/// failure to get one.
pub fn resume(job: Job, stage: Stage, reply: Result<Json, Failure>) -> (r: Next)
    ensures
        r@ == resumed(job@, stage@, told(reply)),
{
    match stage {
        Stage::Sequence(args) => go_on_from_sequence(job, args, reply),
        Stage::Simulation(unsigned) => go_on_from_simulation(job, unsigned, reply),
        Stage::Submission => go_on_from_submission(job, reply),
        Stage::Confirmation(hash, polls) => go_on_from_poll(job, hash, polls, reply),
    }
}

} // verus!
