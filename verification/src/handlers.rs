//! The requests that callers make, and the answers to them.

use vstd::prelude::*;

use crate::encoding::read_utf8;
use crate::error::AppError;
use crate::error::AppErrorView;
use crate::error::AppResult;
use crate::error::Failure;
use crate::interface::Function;
use crate::interface::FunctionView;
use crate::json::json_of_text;
use crate::json::json_views;
use crate::json::object;
use crate::json::object_view;
use crate::json::pair_views;
use crate::json::set_key;
use crate::json::with_key;
use crate::json::Json;
use crate::json::JsonView;
use crate::render::object1;
use crate::render::single;
use crate::spec::ContractSpec;
use crate::spec_json::function_json;
use crate::spec_json::function_to_json;
use crate::table::Table;
use crate::text::ascii_lower;
use crate::text::cat3;
use crate::text::chars_of;
use crate::text::contains;
use crate::text::has_part;
use crate::text::text_eq;

verus! {

/// The kind of failure to find an interface, by what its message says.
pub open spec fn lookup_error(msg: Seq<char>) -> AppErrorView {
    if has_part(msg, "must be exactly 32 bytes"@) || has_part(msg, "must be hex-encoded"@) {
        AppErrorView::BadRequest(msg)
    } else if has_part(msg, "no contract WASM found"@) {
        AppErrorView::NotFound(msg)
    } else if has_part(msg, "no `contractspecv0`"@) {
        AppErrorView::BadRequest(msg)
    } else {
        AppErrorView::Upstream(msg)
    }
}

/// Classifies a failure to find an interface. Such a failure is almost always a
/// mistake of the caller's, or the network's; the message tells which.
pub fn classify_lookup_err(e: Failure) -> (r: AppError)
    ensures
        r@ == lookup_error(e@),
{
    let msg = e.message;
    if contains(msg.as_str(), "must be exactly 32 bytes") || contains(
        msg.as_str(),
        "must be hex-encoded",
    ) {
        AppError::bad_request(msg)
    } else if contains(msg.as_str(), "no contract WASM found") {
        AppError::not_found(msg)
    } else if contains(msg.as_str(), "no `contractspecv0`") {
        AppError::bad_request(msg)
    } else {
        AppError::upstream(msg)
    }
}

/// Says that the instance is running.
pub fn health() -> (r: Json)
    ensures
        r@ == object1("status"@, JsonView::String("ok"@)),
{
    single("status", Json::text("ok"))
}

/// Passes on what the RPC service says of its network.
pub fn get_network(reply: Result<Json, Failure>) -> (r: AppResult<Json>)
    ensures
        match (reply, r) {
            (Ok(j), Ok(v)) => v@ == j@,
            (Err(f), Err(e)) => e@ == AppErrorView::Upstream(f@),
            _ => false,
        },
{
    match reply {
        Ok(j) => Ok(j),
        Err(f) => Err(AppError::upstream(f.message)),
    }
}

/// Renders the whole interface.
pub fn get_spec(spec: &ContractSpec) -> (r: Json)
    ensures
        r@ == crate::spec_json::spec_json(spec@),
{
    spec.to_json()
}

/// A function as JSON, with the method to call it by.
pub open spec fn annotated(f: FunctionView, use_get: bool) -> JsonView {
    JsonView::Object(
        with_key(
            function_json(f)->Object_0,
            "http_method"@,
            JsonView::String(
                if use_get {
                    "GET"@
                } else {
                    "POST"@
                },
            ),
        ),
    )
}

fn annotate(f: &Function, use_get: bool) -> (r: Json)
    ensures
        r@ == annotated(f@, use_get),
{
    let method = if use_get {
        "GET"
    } else {
        "POST"
    };
    match function_to_json(f) {
        Json::Object(mut pairs) => {
            set_key(&mut pairs, "http_method".to_owned(), Json::text(method));
            Json::Object(pairs)
        },
        _ => {
            assert(false);
            Json::Null
        },
    }
}

/// The functions as JSON, each with the method to call it by.
pub open spec fn annotated_functions(
    functions: Seq<FunctionView>,
    methods: Table<bool>,
) -> Seq<JsonView> {
    Seq::new(
        functions.len(),
        |i: int| annotated(functions[i], methods.at(functions[i].name) == Some(true)),
    )
}

/// Renders the functions, each with the method to call it by.
pub fn get_functions(spec: &ContractSpec, methods: &Table<bool>) -> (r: Json)
    ensures
        r@ == JsonView::Array(annotated_functions(spec@.functions, *methods)),
{
    let ghost wanted = annotated_functions(spec@.functions, *methods);
    let mut out: Vec<Json> = Vec::new();
    let mut i: usize = 0;
    while i < spec.functions.len()
        invariant
            i <= spec.functions@.len(),
            wanted == annotated_functions(spec@.functions, *methods),
            out@.len() == i,
            forall|k: int| 0 <= k < i ==> (#[trigger] out@[k])@ == wanted[k],
        decreases spec.functions@.len() - i,
    {
        assert(spec@.functions[i as int] == spec.functions@[i as int]@);
        let f = &spec.functions[i];
        let use_get = match methods.get(f.name.as_str()) {
            Some(b) => *b,
            None => false,
        };
        out.push(annotate(f, use_get));
        i += 1;
    }
    assert(json_views(out@) =~= wanted);
    Json::Array(out)
}

/// The text that a header's bytes are in UTF-8, if they are.
pub open spec fn header_text(value: Seq<u8>) -> Option<Seq<char>> {
    if vstd::utf8::valid_utf8(value) {
        Some(vstd::utf8::decode_utf8(value))
    } else {
        None
    }
}

/// The text of an optional header, or the complaint about it.
pub open spec fn header_of(value: Option<Vec<u8>>, name: Seq<char>) -> Result<
    Option<Seq<char>>,
    AppErrorView,
> {
    match value {
        None => Ok(None),
        Some(b) => match header_text(b@) {
            Some(s) => Ok(Some(s)),
            None => Err(
                AppErrorView::BadRequest("header `"@ + name + "` is not valid UTF-8"@),
            ),
        },
    }
}

/// Reads a header as text in UTF-8, if it is there.
pub fn header_str(value: &Option<Vec<u8>>, name: &str) -> (r: AppResult<Option<String>>)
    ensures
        match r {
            Ok(Some(s)) => header_of(*value, name@) == Ok::<Option<Seq<char>>, AppErrorView>(
                Some(s@),
            ),
            Ok(None) => header_of(*value, name@) == Ok::<Option<Seq<char>>, AppErrorView>(None),
            Err(e) => header_of(*value, name@) == Err::<Option<Seq<char>>, AppErrorView>(e@),
        },
{
    match value {
        None => Ok(None),
        Some(b) => match read_utf8(b) {
            Some(s) => Ok(Some(s)),
            None => Err(
                AppError::bad_request(cat3("header `", name, "` is not valid UTF-8")),
            ),
        },
    }
}

/// The bytes of the headers that a call reads, where they are there.
#[derive(Debug, PartialEq)]
pub struct CallHeaders {
    pub source_account: Option<Vec<u8>>,
    pub sign: Option<Vec<u8>>,
    pub secret_key: Option<Vec<u8>>,
}

/// Whether two texts are the same but for the case of ASCII letters.
pub open spec fn same_but_case(a: Seq<char>, b: Seq<char>) -> bool {
    &&& a.len() == b.len()
    &&& forall|i: int|
        0 <= i < a.len() ==> ascii_lower(#[trigger] a[i]) == ascii_lower(b[i])
}

/// Whether a header's text asks for signing.
pub open spec fn asks_for_signing(s: Seq<char>) -> bool {
    same_but_case(s, "true"@) || s == "1"@
}

fn lower(c: char) -> (r: char)
    ensures
        r == ascii_lower(c),
{
    if 'A' <= c && c <= 'Z' {
        (c as u8 + 32) as char
    } else {
        c
    }
}

/// Whether two texts are the same but for the case of ASCII letters.
pub fn eq_ignore_case(a: &str, b: &str) -> (r: bool)
    ensures
        r == same_but_case(a@, b@),
{
    let left = chars_of(a);
    let right = chars_of(b);
    if left.len() != right.len() {
        return false;
    }
    let mut i: usize = 0;
    while i < left.len()
        invariant
            i <= left@.len(),
            left@ == a@,
            right@ == b@,
            left@.len() == right@.len(),
            forall|k: int| 0 <= k < i ==> ascii_lower(#[trigger] a@[k]) == ascii_lower(b@[k]),
        decreases left@.len() - i,
    {
        if lower(left[i]) != lower(right[i]) {
            assert(ascii_lower(a@[i as int]) != ascii_lower(b@[i as int]));
            return false;
        }
        i += 1;
    }
    true
}

/// What the headers of a call say: the account that makes it, whether to sign it,
/// and the secret key.
pub open spec fn common_headers(h: CallHeaders) -> Result<
    (Seq<char>, bool, Option<Seq<char>>),
    AppErrorView,
> {
    match header_of(h.source_account, "x-source-account"@) {
        Err(e) => Err(e),
        Ok(None) => Err(
            AppErrorView::BadRequest("missing required header `x-source-account`"@),
        ),
        Ok(Some(account)) => match header_of(h.sign, "x-sign"@) {
            Err(e) => Err(e),
            Ok(sign) => match header_of(h.secret_key, "x-secret-key"@) {
                Err(e) => Err(e),
                Ok(secret) => Ok(
                    (
                        account,
                        match sign {
                            Some(s) => asks_for_signing(s),
                            None => false,
                        },
                        secret,
                    ),
                ),
            },
        },
    }
}

pub open spec fn text_option(s: Option<String>) -> Option<Seq<char>> {
    match s {
        Some(s) => Some(s@),
        None => None,
    }
}

/// Reads the headers of a call.
pub fn read_common_headers(h: &CallHeaders) -> (r: AppResult<(String, bool, Option<String>)>)
    ensures
        match r {
            Ok((account, sign, secret)) => common_headers(*h) == Ok::<
                (Seq<char>, bool, Option<Seq<char>>),
                AppErrorView,
            >((account@, sign, text_option(secret))),
            Err(e) => common_headers(*h) == Err::<
                (Seq<char>, bool, Option<Seq<char>>),
                AppErrorView,
            >(e@),
        },
{
    let account = match header_str(&h.source_account, "x-source-account") {
        Err(e) => return Err(e),
        Ok(None) => return Err(
            AppError::bad_request("missing required header `x-source-account`".to_owned()),
        ),
        Ok(Some(account)) => account,
    };
    let sign = match header_str(&h.sign, "x-sign") {
        Err(e) => return Err(e),
        Ok(None) => false,
        Ok(Some(s)) => eq_ignore_case(s.as_str(), "true") || text_eq(s.as_str(), "1"),
    };
    match header_str(&h.secret_key, "x-secret-key") {
        Err(e) => Err(e),
        Ok(secret) => Ok((account, sign, secret)),
    }
}

/// What a query value stands for: the JSON that it is, or itself as a string.
pub open spec fn query_value(raw: Seq<char>) -> JsonView {
    match json_of_text(raw) {
        Some(j) => j,
        None => JsonView::String(raw),
    }
}

/// Reads a query value as JSON where it is JSON, so that `5`, `true` and `[1,2]`
/// come through as what they are, and as a string otherwise.
pub fn query_value_to_json(raw: &str) -> (r: Json)
    ensures
        r@ == query_value(raw@),
{
    match Json::parse(raw) {
        Some(j) => j,
        None => Json::text(raw),
    }
}

pub open spec fn query_pairs(query: Seq<(String, String)>) -> Seq<(Seq<char>, JsonView)> {
    Seq::new(query.len(), |i: int| (query[i].0@, query_value(query[i].1@)))
}

/// The arguments that query parameters make.
pub fn query_args(query: Vec<(String, String)>) -> (r: Json)
    ensures
        r@ == object_view(query_pairs(query@)),
{
    let ghost all = query@;
    let mut pairs: Vec<(String, Json)> = Vec::new();
    for q in it: query
        invariant
            it.seq() == all,
            pairs@.len() == it.index(),
            forall|k: int|
                0 <= k < it.index() ==> (#[trigger] pairs@[k]).0@ == all[k].0@ && pairs@[k].1@
                    == query_value(all[k].1@),
    {
        let value = query_value_to_json(q.1.as_str());
        pairs.push((q.0, value));
    }
    assert(pair_views(pairs@) =~= query_pairs(all));
    object(pairs)
}

/// A request to call a function.
#[derive(Debug, PartialEq)]
pub struct CallRequest {
    pub function_name: String,
    pub args: Json,
    pub source_account: String,
    pub sign: bool,
    pub secret_key: Option<String>,
    pub is_get: bool,
}

pub struct CallRequestView {
    pub function_name: Seq<char>,
    pub args: JsonView,
    pub source_account: Seq<char>,
    pub sign: bool,
    pub secret_key: Option<Seq<char>>,
    pub is_get: bool,
}

impl View for CallRequest {
    type V = CallRequestView;

    open spec fn view(&self) -> CallRequestView {
        CallRequestView {
            function_name: self.function_name@,
            args: self.args@,
            source_account: self.source_account@,
            sign: self.sign,
            secret_key: text_option(self.secret_key),
            is_get: self.is_get,
        }
    }
}

/// The request to call a function with arguments, or what is wrong with its
/// headers.
pub open spec fn call_request(
    function_name: Seq<char>,
    args: JsonView,
    headers: CallHeaders,
    is_get: bool,
) -> Result<CallRequestView, AppErrorView> {
    match common_headers(headers) {
        Err(e) => Err(e),
        Ok((source_account, sign, secret_key)) => Ok(
            CallRequestView { function_name, args, source_account, sign, secret_key, is_get },
        ),
    }
}

/// What an answer stands for: the view of what came out, or the error.
pub open spec fn answered<T: View>(r: AppResult<T>) -> Result<T::V, AppErrorView> {
    match r {
        Ok(v) => Ok(v@),
        Err(e) => Err(e@),
    }
}

/// Reads the request of a `GET`, whose arguments are the query parameters.
pub fn invoke_get(function_name: &str, query: Vec<(String, String)>, headers: &CallHeaders) -> (r:
    AppResult<CallRequest>)
    ensures
        answered(r) == call_request(
            function_name@,
            object_view(query_pairs(query@)),
            *headers,
            true,
        ),
{
    match read_common_headers(headers) {
        Err(e) => Err(e),
        Ok((source_account, sign, secret_key)) => Ok(
            CallRequest {
                function_name: function_name.to_owned(),
                args: query_args(query),
                source_account,
                sign,
                secret_key,
                is_get: true,
            },
        ),
    }
}

/// Reads the request of a `POST`, whose arguments are the JSON body.
pub fn invoke_post(function_name: &str, args: Json, headers: &CallHeaders) -> (r: AppResult<
    CallRequest,
>)
    ensures
        answered(r) == call_request(function_name@, args@, *headers, false),
{
    match read_common_headers(headers) {
        Err(e) => Err(e),
        Ok((source_account, sign, secret_key)) => Ok(
            CallRequest {
                function_name: function_name.to_owned(),
                args,
                source_account,
                sign,
                secret_key,
                is_get: false,
            },
        ),
    }
}

} // verus!
