//! Whether a function is called by `GET` or by `POST`.
//!
//! A function that takes arguments is called by `POST`. One that takes none is
//! simulated once, for an account that is made up; if the simulation writes
//! nothing, the function is read-only and called by `GET`, and otherwise by `POST`.
//! Nothing is signed or submitted.

use vstd::prelude::*;

use crate::encoding::account_text;
use crate::encoding::render_account;
use crate::error::Failure;
use crate::interface::FunctionView;
use crate::json::Json;
use crate::json::JsonView;
use crate::spec::ContractSpec;
use crate::table::Table;
use crate::txbuild::build_unsigned_invoke_tx;
use crate::txbuild::envelope_sent;
use crate::txbuild::envelope_to_base64;
use crate::txbuild::parse_simulation;
use crate::txbuild::simulation_of;
use crate::txbuild::unsigned_call;
use crate::value::key_views;
use crate::value::val_views;
use crate::value::Val;
use crate::value::ValView;
use crate::xdr::writes_held;
use crate::xdr::writes_of;
use crate::xdr_tx::sha256;
use crate::xdr_tx::sha256_of;

verus! {

/// The sequence number of the transactions that are only simulated.
pub const PROBE_SEQ_NUM: i64 = 1;

/// The account that functions are simulated for.
pub open spec fn probe_account() -> Seq<char> {
    account_text(
        sha256_of(vstd::utf8::encode_utf8("soroban-api-proxy:startup-probe-account"@)),
    )
}

/// The address of an account that is made up, the same at every start, and almost
/// certainly nobody's. Nothing is signed with it.
pub fn probe_source_account() -> (r: String)
    ensures
        r@ == probe_account(),
{
    render_account(&sha256("soroban-api-proxy:startup-probe-account".as_bytes()))
}

/// The transaction to simulate for a function without arguments, in base64, or
/// why there is none.
pub open spec fn probe_tx(contract_id: Seq<char>, name: Seq<char>) -> Result<Seq<char>, Seq<char>> {
    match unsigned_call(
        probe_account(),
        PROBE_SEQ_NUM,
        contract_id,
        name,
        Seq::<ValView>::empty(),
    ) {
        Err(e) => Err(e),
        Ok(e) => envelope_sent(e),
    }
}

/// Whether a simulation writes nothing, or why that is not known.
pub open spec fn is_read_only(resp: JsonView) -> Result<bool, Seq<char>> {
    match simulation_of(resp) {
        Err(e) => Err(e),
        Ok(sim) => Ok(writes_held(sim.soroban_data).len() == 0),
    }
}

/// What is to be done about a function: nothing, since it takes arguments; nothing
/// either, since its transaction cannot be built; or to simulate a transaction.
#[derive(Debug, PartialEq)]
pub enum Probe {
    TakesArguments,
    Failed(Failure),
    Simulate(String),
}

pub enum ProbeView {
    TakesArguments,
    Failed(Seq<char>),
    Simulate(Seq<char>),
}

impl View for Probe {
    type V = ProbeView;

    open spec fn view(&self) -> ProbeView {
        match *self {
            Probe::TakesArguments => ProbeView::TakesArguments,
            Probe::Failed(e) => ProbeView::Failed(e@),
            Probe::Simulate(tx) => ProbeView::Simulate(tx@),
        }
    }
}

/// What is to be done about a function.
pub open spec fn probe_of(contract_id: Seq<char>, f: FunctionView) -> ProbeView {
    if f.inputs.len() > 0 {
        ProbeView::TakesArguments
    } else {
        match probe_tx(contract_id, f.name) {
            Ok(tx) => ProbeView::Simulate(tx),
            Err(e) => ProbeView::Failed(e),
        }
    }
}

/// What is to be done about each function, in their order.
pub fn plan_probes(contract_id: &str, spec: &ContractSpec) -> (r: Vec<Probe>)
    ensures
        r@.len() == spec@.functions.len(),
        forall|i: int|
            0 <= i < r@.len() ==> (#[trigger] r@[i])@ == probe_of(
                contract_id@,
                spec@.functions[i],
            ),
{
    let account = probe_source_account();
    let mut out: Vec<Probe> = Vec::new();
    let mut i: usize = 0;
    while i < spec.functions.len()
        invariant
            i <= spec.functions@.len(),
            account@ == probe_account(),
            out@.len() == i,
            forall|k: int|
                0 <= k < i ==> (#[trigger] out@[k])@ == probe_of(
                    contract_id@,
                    spec@.functions[k],
                ),
        decreases spec.functions@.len() - i,
    {
        assert(spec@.functions[i as int] == spec.functions@[i as int]@);
        let f = &spec.functions[i];
        let probe = if f.inputs.len() > 0 {
            Probe::TakesArguments
        } else {
            let none: Vec<Val> = Vec::new();
            assert(val_views(none@) =~= Seq::<ValView>::empty());
            match build_unsigned_invoke_tx(
                account.as_str(),
                PROBE_SEQ_NUM,
                contract_id,
                f.name.as_str(),
                none,
            ) {
                Err(e) => Probe::Failed(e),
                Ok(envelope) => match envelope_to_base64(&envelope) {
                    Ok(tx) => Probe::Simulate(tx),
                    Err(e) => Probe::Failed(e),
                },
            }
        };
        out.push(probe);
        i += 1;
    }
    out
}

/// Whether a simulation writes nothing.
pub fn read_only_in(resp: &Json) -> (r: Result<bool, Failure>)
    ensures
        match r {
            Ok(b) => is_read_only(resp@) == Ok::<bool, Seq<char>>(b),
            Err(e) => is_read_only(resp@) == Err::<bool, Seq<char>>(e@),
        },
{
    match parse_simulation(resp) {
        Err(e) => Err(e),
        Ok(sim) => {
            let writes = writes_of(&sim.soroban_data);
            assert(key_views(writes@).len() == writes@.len());
            Ok(writes.len() == 0)
        },
    }
}

/// What came of a probe: nothing was asked, it failed, or the network answered.
#[derive(Debug, PartialEq)]
pub enum ProbeReply {
    NotAsked,
    Failed(Failure),
    Answered(Json),
}

/// Whether a function is read-only by what came of its probe, or why that is not
/// known.
pub open spec fn probe_result(reply: ProbeReply) -> Result<bool, Seq<char>> {
    match reply {
        ProbeReply::NotAsked => Ok(false),
        ProbeReply::Failed(e) => Err(e@),
        ProbeReply::Answered(resp) => is_read_only(resp@),
    }
}

/// Whether a function is called by `GET`: it takes no arguments, and its
/// simulation writes nothing.
pub open spec fn is_get(f: FunctionView, reply: ProbeReply) -> bool {
    f.inputs.len() == 0 && probe_result(reply) == Ok::<bool, Seq<char>>(true)
}

/// The place of the last of the first `n` functions with a name, or nothing.
pub open spec fn last_named(functions: Seq<FunctionView>, name: Seq<char>, n: int) -> Option<int>
    decreases n,
{
    if n <= 0 || n > functions.len() {
        None
    } else if functions[n - 1].name == name {
        Some(n - 1)
    } else {
        last_named(functions, name, n - 1)
    }
}

/// Which functions are called by `GET`, and for which of the others that is not
/// known, with the reason.
#[derive(Debug, PartialEq)]
pub struct Classification {
    pub methods: Table<bool>,
    pub warnings: Vec<(String, Failure)>,
}

/// The functions among the first `n` of which it is not known whether they are
/// read-only, with the reason.
pub open spec fn unknown_upto(
    functions: Seq<FunctionView>,
    replies: Seq<ProbeReply>,
    n: int,
) -> Seq<(Seq<char>, Seq<char>)>
    decreases n,
{
    if n <= 0 {
        Seq::empty()
    } else {
        let before = unknown_upto(functions, replies, n - 1);
        if functions[n - 1].inputs.len() > 0 {
            before
        } else {
            match probe_result(replies[n - 1]) {
                Ok(_) => before,
                Err(e) => before.push((functions[n - 1].name, e)),
            }
        }
    }
}

pub open spec fn warning_views(items: Seq<(String, Failure)>) -> Seq<(Seq<char>, Seq<char>)> {
    Seq::new(items.len(), |i: int| (items[i].0@, items[i].1@))
}

/// Classifies the functions of an interface by what came of their probes. Of two
/// functions with one name the later one counts.
pub fn classify_functions(spec: &ContractSpec, replies: &Vec<ProbeReply>) -> (r: Classification)
    requires
        replies@.len() == spec.functions@.len(),
    ensures
        forall|name: Seq<char>|
            #[trigger] r.methods.at(name) == match last_named(
                spec@.functions,
                name,
                spec@.functions.len() as int,
            ) {
                Some(i) => Some(is_get(spec@.functions[i], replies@[i])),
                None => None,
            },
        warning_views(r.warnings@) == unknown_upto(
            spec@.functions,
            replies@,
            replies@.len() as int,
        ),
{
    let ghost functions = spec@.functions;
    let mut methods: Table<bool> = Table::new();
    let mut warnings: Vec<(String, Failure)> = Vec::new();
    assert(warning_views(warnings@) =~= Seq::empty());
    let mut i: usize = 0;
    while i < spec.functions.len()
        invariant
            i <= spec.functions@.len(),
            functions == spec@.functions,
            functions.len() == spec.functions@.len(),
            replies@.len() == spec.functions@.len(),
            forall|name: Seq<char>|
                #[trigger] methods.at(name) == match last_named(functions, name, i as int) {
                    Some(k) => Some(is_get(functions[k], replies@[k])),
                    None => None,
                },
            warning_views(warnings@) == unknown_upto(functions, replies@, i as int),
        decreases spec.functions@.len() - i,
    {
        assert(functions[i as int] == spec.functions@[i as int]@);
        let f = &spec.functions[i];
        let read_only = if f.inputs.len() > 0 {
            false
        } else {
            let known = match &replies[i] {
                ProbeReply::NotAsked => Ok(false),
                ProbeReply::Failed(e) => Err(Failure::of(e.message.as_str())),
                ProbeReply::Answered(resp) => read_only_in(resp),
            };
            match known {
                Ok(b) => b,
                Err(e) => {
                    let ghost before = warning_views(warnings@);
                    warnings.push((f.name.clone(), e));
                    assert(warning_views(warnings@) =~= before.push((f.name@, e@)));
                    false
                },
            }
        };
        methods.insert(f.name.clone(), read_only);
        i += 1;
    }
    Classification { methods, warnings }
}

} // verus!
