//! What holds of every course that a call can take.

use vstd::prelude::*;

use crate::handlers::annotated;
use crate::handlers::CallRequestView;
use crate::interface::FieldView;
use crate::interface::FunctionView;
use crate::invoke::args_upto;
use crate::invoke::argument;
use crate::invoke::begun;
use crate::invoke::job_of;
use crate::invoke::resumed;
use crate::invoke::wrong_method;
use crate::invoke::ActionView;
use crate::invoke::JobView;
use crate::invoke::NextView;
use crate::invoke::StageView;
use crate::invoke::MAX_POLLS;
use crate::json::JsonView;
use crate::json_laws::law_object_lookup;
use crate::json_laws::lemma_with_key;
use crate::probe::is_get;
use crate::probe::is_read_only;
use crate::probe::ProbeReply;
use crate::spec::SpecView;
use crate::spec_json::fields_json;
use crate::spec_json::function_json;
use crate::spec_json::type_json;
use crate::transaction::EnvelopeView;
use crate::txbuild::envelope_sent;
use crate::txbuild::unsigned_call;

verus! {

/// Where a call stands after the network's replies, one after another.
pub open spec fn run(next: NextView, replies: Seq<Result<JsonView, Seq<char>>>) -> NextView
    decreases replies.len(),
{
    if replies.len() == 0 {
        next
    } else {
        match next {
            NextView::Ask(job, stage, _) => run(
                resumed(job, stage, replies[0]),
                replies.skip(1),
            ),
            _ => next,
        }
    }
}

/// Whether a call neither submits nor has submitted anything.
spec fn submits_nothing(next: NextView) -> bool {
    match next {
        NextView::Ask(job, stage, action) => {
            &&& !job.sign || job.secret_key is None
            &&& stage is Sequence || stage is Simulation
            &&& action is GetLedgerEntries || action is Simulate
        },
        _ => true,
    }
}

proof fn lemma_submits_nothing(next: NextView, replies: Seq<Result<JsonView, Seq<char>>>)
    requires
        submits_nothing(next),
    ensures
        submits_nothing(run(next, replies)),
    decreases replies.len(),
{
    if replies.len() > 0 {
        if let NextView::Ask(job, stage, _) = next {
            lemma_submits_nothing(resumed(job, stage, replies[0]), replies.skip(1));
        }
    }
}

/// A call that does not ask for signing, or that gives no secret key, submits
/// nothing to the network and waits for no transaction, whatever the network
/// replies.
pub proof fn law_nothing_is_submitted_unsigned(
    req: CallRequestView,
    spec: SpecView,
    use_get: bool,
    contract_id: Seq<char>,
    passphrase: Seq<char>,
    replies: Seq<Result<JsonView, Seq<char>>>,
)
    requires
        !req.sign || req.secret_key is None,
    ensures
        run(begun(req, spec, use_get, job_of(req, contract_id, passphrase)), replies) matches
            NextView::Ask(_, _, action) ==> action is GetLedgerEntries || action is Simulate,
{
    lemma_submits_nothing(
        begun(req, spec, use_get, job_of(req, contract_id, passphrase)),
        replies,
    );
}

/// Whether two calls stand at the same place but for the secret key.
spec fn same_but_key(a: NextView, b: NextView) -> bool {
    match (a, b) {
        (NextView::Ask(j, s, x), NextView::Ask(k, t, y)) => {
            &&& !j.sign
            &&& k == (JobView { secret_key: k.secret_key, ..j })
            &&& s == t
            &&& x == y
        },
        _ => a == b,
    }
}

proof fn lemma_same_but_key(a: NextView, b: NextView, replies: Seq<Result<JsonView, Seq<char>>>)
    requires
        same_but_key(a, b),
    ensures
        same_but_key(run(a, replies), run(b, replies)),
    decreases replies.len(),
{
    if replies.len() > 0 {
        if let NextView::Ask(j, s, _) = a {
            if let NextView::Ask(k, t, _) = b {
                lemma_same_but_key(
                    resumed(j, s, replies[0]),
                    resumed(k, t, replies[0]),
                    replies.skip(1),
                );
            }
        }
    }
}

/// A call that does not ask for signing asks the network the same questions and is
/// answered in the same way whatever secret key comes with it.
pub proof fn law_secret_key_is_for_signing_only(
    req: CallRequestView,
    secret_key: Option<Seq<char>>,
    spec: SpecView,
    use_get: bool,
    contract_id: Seq<char>,
    passphrase: Seq<char>,
    replies: Seq<Result<JsonView, Seq<char>>>,
)
    requires
        !req.sign,
    ensures
        ({
            let other = CallRequestView { secret_key, ..req };
            let a = run(begun(req, spec, use_get, job_of(req, contract_id, passphrase)), replies);
            let b = run(
                begun(other, spec, use_get, job_of(other, contract_id, passphrase)),
                replies,
            );
            match (a, b) {
                (NextView::Ask(_, s, x), NextView::Ask(_, t, y)) => s == t && x == y,
                _ => a == b,
            }
        }),
{
    let other = CallRequestView { secret_key, ..req };
    lemma_same_but_key(
        begun(req, spec, use_get, job_of(req, contract_id, passphrase)),
        begun(other, spec, use_get, job_of(other, contract_id, passphrase)),
        replies,
    );
}

/// Whether an envelope is the call that a request asks for, with some sequence
/// number.
pub open spec fn is_call_of(
    e: EnvelopeView,
    req: CallRequestView,
    spec: SpecView,
    contract_id: Seq<char>,
) -> bool {
    spec.find_function(req.function_name) matches Some(f) && match args_upto(
        f.inputs,
        req.args,
        spec,
        f.inputs.len() as int,
    ) {
        Err(_) => false,
        Ok(args) => exists|n: i64|
            #[trigger] unsigned_call(
                req.source_account,
                n,
                contract_id,
                req.function_name,
                args,
            ) == Ok::<EnvelopeView, Seq<char>>(e),
    }
}

/// Whether a call stands where its request leads it.
spec fn follows(
    next: NextView,
    req: CallRequestView,
    spec: SpecView,
    contract_id: Seq<char>,
    passphrase: Seq<char>,
) -> bool {
    match next {
        NextView::Ask(job, stage, action) => {
            &&& job == job_of(req, contract_id, passphrase)
            &&& match stage {
                StageView::Sequence(args) => {
                    &&& spec.find_function(req.function_name) is Some
                    &&& args_upto(
                        spec.find_function(req.function_name)->0.inputs,
                        req.args,
                        spec,
                        spec.find_function(req.function_name)->0.inputs.len() as int,
                    ) == Ok::<Seq<crate::value::ValView>, Seq<char>>(args)
                },
                StageView::Simulation(e) => {
                    &&& is_call_of(e, req, spec, contract_id)
                    &&& action matches ActionView::Simulate(tx) && envelope_sent(e) == Ok::<
                        Seq<char>,
                        Seq<char>,
                    >(tx)
                },
                _ => true,
            }
        },
        _ => true,
    }
}

proof fn lemma_follows(
    next: NextView,
    req: CallRequestView,
    spec: SpecView,
    contract_id: Seq<char>,
    passphrase: Seq<char>,
    replies: Seq<Result<JsonView, Seq<char>>>,
)
    requires
        follows(next, req, spec, contract_id, passphrase),
    ensures
        follows(run(next, replies), req, spec, contract_id, passphrase),
    decreases replies.len(),
{
    if replies.len() > 0 {
        if let NextView::Ask(job, stage, _) = next {
            let after = resumed(job, stage, replies[0]);
            assert(follows(after, req, spec, contract_id, passphrase));
            lemma_follows(after, req, spec, contract_id, passphrase, replies.skip(1));
        }
    }
}

/// The transaction that the network is asked to simulate is the call that the
/// request asks for: from its account, of its function of the contract that is
/// served, with its arguments read as the function's inputs.
pub proof fn law_simulated_is_the_call_asked_for(
    req: CallRequestView,
    spec: SpecView,
    use_get: bool,
    contract_id: Seq<char>,
    passphrase: Seq<char>,
    replies: Seq<Result<JsonView, Seq<char>>>,
)
    ensures
        run(begun(req, spec, use_get, job_of(req, contract_id, passphrase)), replies) matches
            NextView::Ask(_, StageView::Simulation(e), action) ==> is_call_of(
            e,
            req,
            spec,
            contract_id,
        ) && (action matches ActionView::Simulate(tx) && envelope_sent(e) == Ok::<
            Seq<char>,
            Seq<char>,
        >(tx)),
{
    lemma_follows(
        begun(req, spec, use_get, job_of(req, contract_id, passphrase)),
        req,
        spec,
        contract_id,
        passphrase,
        replies,
    );
}

/// Of the arguments only those count that have the name of an input, and one that is
/// missing counts as null.
pub proof fn law_only_named_arguments_count(
    inputs: Seq<FieldView>,
    a: JsonView,
    b: JsonView,
    spec: SpecView,
    n: int,
)
    requires
        0 <= n <= inputs.len(),
        forall|i: int|
            0 <= i < n ==> argument(a, (#[trigger] inputs[i]).name) == argument(b, inputs[i].name),
    ensures
        args_upto(inputs, a, spec, n) == args_upto(inputs, b, spec, n),
    decreases n,
{
    if n > 0 {
        assert(argument(a, inputs[n - 1].name) == argument(b, inputs[n - 1].name));
        law_only_named_arguments_count(inputs, a, b, spec, n - 1);
    }
}

/// How many replies a call can still wait for.
spec fn replies_left(next: NextView) -> int {
    match next {
        NextView::Ask(_, StageView::Sequence(_), _) => MAX_POLLS + 3,
        NextView::Ask(_, StageView::Simulation(_), _) => MAX_POLLS + 2,
        NextView::Ask(_, StageView::Submission, _) => MAX_POLLS + 1,
        NextView::Ask(_, StageView::Confirmation(_, polls), _) => if polls < MAX_POLLS {
            MAX_POLLS - polls
        } else {
            1
        },
        _ => 0,
    }
}

proof fn lemma_replies_left(next: NextView, replies: Seq<Result<JsonView, Seq<char>>>)
    ensures
        replies.len() >= replies_left(next) ==> !(run(next, replies) is Ask),
    decreases replies.len(),
{
    if replies.len() > 0 {
        if let NextView::Ask(job, stage, _) = next {
            assert(replies_left(resumed(job, stage, replies[0])) < replies_left(next));
            lemma_replies_left(resumed(job, stage, replies[0]), replies.skip(1));
        }
    }
}

/// A call is answered after at most 33 replies of the network: the account, the
/// simulation, the submission, and 30 questions for the transaction.
pub proof fn law_every_call_is_answered(
    req: CallRequestView,
    spec: SpecView,
    use_get: bool,
    job: JobView,
    replies: Seq<Result<JsonView, Seq<char>>>,
)
    requires
        replies.len() >= 33,
    ensures
        !(run(begun(req, spec, use_get, job), replies) is Ask),
{
    lemma_replies_left(begun(req, spec, use_get, job), replies);
}

/// A function that the contract has, called by the method that it is not called by,
/// is refused with the status 405, and the network is asked nothing.
pub proof fn law_wrong_method_is_refused(
    req: CallRequestView,
    spec: SpecView,
    use_get: bool,
    job: JobView,
)
    requires
        spec.find_function(req.function_name) is Some,
        req.is_get != use_get,
    ensures
        begun(req, spec, use_get, job) matches NextView::Failed(e) && e.status() == 405,
{
}

/// A function that the contract does not have is answered with the status 404.
pub proof fn law_unknown_function_is_not_found(
    req: CallRequestView,
    spec: SpecView,
    use_get: bool,
    job: JobView,
)
    requires
        spec.find_function(req.function_name) is None,
    ensures
        begun(req, spec, use_get, job) matches NextView::Failed(e) && e.status() == 404,
{
}

/// The method that a function is listed with is the one that it can be called by.
pub proof fn law_listed_method_is_accepted(f: FunctionView, use_get: bool, is_get: bool)
    ensures
        annotated(f, use_get).at_key("http_method"@) == Some(
            JsonView::String(
                if use_get {
                    "GET"@
                } else {
                    "POST"@
                },
            ),
        ),
        "GET"@ != "POST"@,
        wrong_method(f.name, f, is_get, use_get) is None <==> is_get == use_get,
{
    let pairs = function_json(f)->Object_0;
    lemma_function_keys(f, "name"@);
    lemma_with_key(
        pairs,
        "http_method"@,
        JsonView::String(
            if use_get {
                "GET"@
            } else {
                "POST"@
            },
        ),
        "name"@,
    );
    reveal_strlit("GET");
    reveal_strlit("POST");
    assert("GET"@.len() == 3 && "POST"@.len() == 4);
}

proof fn lemma_function_keys(f: FunctionView, key: Seq<char>)
    ensures
        crate::json::keys_increase(function_json(f)->Object_0),
{
    law_object_lookup(
        seq![
            ("name"@, JsonView::String(f.name)),
            ("doc"@, JsonView::String(f.doc)),
            ("inputs"@, fields_json(f.inputs)),
            (
                "output"@,
                if f.outputs.len() > 0 {
                    type_json(f.outputs[0])
                } else {
                    JsonView::Null
                },
            ),
        ],
        key,
    );
}

/// Apart from the method, a listed function is the one in the interface.
pub proof fn law_listing_keeps_the_function(f: FunctionView, use_get: bool, key: Seq<char>)
    requires
        key != "http_method"@,
    ensures
        annotated(f, use_get).at_key(key) == function_json(f).at_key(key),
{
    lemma_function_keys(f, key);
    lemma_with_key(
        function_json(f)->Object_0,
        "http_method"@,
        JsonView::String(
            if use_get {
                "GET"@
            } else {
                "POST"@
            },
        ),
        key,
    );
}

/// A function that takes arguments is called by `POST`, and so is one without whose
/// simulation fails or writes; one without whose simulation writes nothing is
/// called by `GET`.
pub proof fn law_get_is_for_plain_getters(f: FunctionView, reply: ProbeReply)
    ensures
        f.inputs.len() > 0 ==> !is_get(f, reply),
        f.inputs.len() == 0 ==> (is_get(f, reply) <==> (reply matches ProbeReply::Answered(resp)
            && is_read_only(resp@) == Ok::<bool, Seq<char>>(true))),
{
}

} // verus!
