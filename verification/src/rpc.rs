//! JSON-RPC 2.0 requests to the network's RPC service, and its replies.

use vstd::prelude::*;

use crate::error::told;
use crate::error::Failure;
use crate::json::canonical;
use crate::json::json_debug;
use crate::json::json_text;
use crate::json::json_views;
use crate::json::object;
use crate::json::object_view;
use crate::json::pair_views;
use crate::json::Json;
use crate::json::JsonNumber;
use crate::json::JsonView;
use crate::render::object1;
use crate::render::single;
use crate::text::cat2;
use crate::text::cat3;
use crate::text::cat4;
use crate::text::cat6;
use crate::text::cat7;
use crate::text::decimal;
use crate::text::signed_text;

verus! {

/// The field of a reply, or the complaint that it is missing.
pub open spec fn field_of(j: JsonView, name: Seq<char>) -> Result<JsonView, Seq<char>> {
    match j.at_key(name) {
        Some(v) => Ok(v),
        None => Err(
            "expected field `"@ + name + "` in rpc response: "@ + json_text(canonical(j)),
        ),
    }
}

/// The text in a field of a reply, or the complaint that there is none.
pub open spec fn str_field_of(j: JsonView, name: Seq<char>) -> Result<Seq<char>, Seq<char>> {
    match field_of(j, name) {
        Err(e) => Err(e),
        Ok(v) => match v.str_value() {
            Some(s) => Ok(s),
            None => Err(
                "expected field `"@ + name + "` to be a string in: "@ + json_text(canonical(j)),
            ),
        },
    }
}

/// The fields of a reply, with failures that say what is wrong with it.
pub trait ValueExt {
    spec fn shown(&self) -> JsonView;

    fn field(&self, name: &str) -> (r: Result<&Json, Failure>)
        ensures
            match r {
                Ok(v) => field_of(self.shown(), name@) == Ok::<JsonView, Seq<char>>(v@),
                Err(e) => field_of(self.shown(), name@) == Err::<JsonView, Seq<char>>(e@),
            },
    ;

    fn as_str_field(&self, name: &str) -> (r: Result<&str, Failure>)
        ensures
            match r {
                Ok(s) => str_field_of(self.shown(), name@) == Ok::<Seq<char>, Seq<char>>(s@),
                Err(e) => str_field_of(self.shown(), name@) == Err::<Seq<char>, Seq<char>>(e@),
            },
    ;
}

impl ValueExt for Json {
    open spec fn shown(&self) -> JsonView {
        self@
    }

    fn field(&self, name: &str) -> (r: Result<&Json, Failure>) {
        match self.get(name) {
            Some(v) => Ok(v),
            None => Err(
                Failure::new(
                    cat4("expected field `", name, "` in rpc response: ", self.to_text().as_str()),
                ),
            ),
        }
    }

    fn as_str_field(&self, name: &str) -> (r: Result<&str, Failure>) {
        match self.field(name) {
            Err(e) => Err(e),
            Ok(v) => match v.as_str() {
                Some(s) => Ok(s),
                None => Err(
                    Failure::new(
                        cat4(
                            "expected field `",
                            name,
                            "` to be a string in: ",
                            self.to_text().as_str(),
                        ),
                    ),
                ),
            },
        }
    }
}

/// The elements of an array in a field of a reply; none if there is no such
/// array.
pub open spec fn list_in(j: JsonView, name: Seq<char>) -> Seq<JsonView> {
    match j.at_key(name) {
        Some(JsonView::Array(items)) => items,
        _ => Seq::empty(),
    }
}

/// The first element of an array in a field of a reply, if there is one.
pub fn first_in<'a>(j: &'a Json, name: &str) -> (r: Option<&'a Json>)
    ensures
        match r {
            Some(v) => list_in(j@, name@).len() > 0 && v@ == list_in(j@, name@)[0],
            None => list_in(j@, name@).len() == 0,
        },
{
    match j.get(name) {
        Some(Json::Array(items)) => if items.len() > 0 {
            assert(json_views(items@)[0] == items@[0]@);
            Some(&items[0])
        } else {
            None
        },
        _ => None,
    }
}

/// A request to the RPC service: the method, for the failures that concern it,
/// and the body to post.
#[derive(Debug, PartialEq)]
pub struct RpcRequest {
    pub method: String,
    pub body: Json,
}

/// The requests of one client, numbered from 1 on. The number after the last one
/// of 64 bits is 0.
#[derive(Debug, PartialEq)]
pub struct RpcClient {
    pub url: String,
    pub next_id: u64,
}

/// The body of a request.
pub open spec fn request_body(id: u64, method: Seq<char>, params: JsonView) -> JsonView {
    object_view(
        seq![
            ("jsonrpc"@, JsonView::String("2.0"@)),
            ("id"@, JsonView::Number(JsonNumber::Unsigned(id))),
            ("method"@, JsonView::String(method)),
            ("params"@, params),
        ],
    )
}

/// The number after a number of 64 bits.
pub open spec fn id_after(id: u64) -> u64 {
    if id == u64::MAX {
        0
    } else {
        (id + 1) as u64
    }
}

impl RpcClient {
    pub fn new(url: String) -> (r: RpcClient)
        ensures
            r.url@ == url@,
            r.next_id == 1,
    {
        RpcClient { url, next_id: 1 }
    }

    /// The request that calls a method.
    pub fn call(&mut self, method: &str, params: Json) -> (r: RpcRequest)
        ensures
            r.method@ == method@,
            r.body@ == request_body(old(self).next_id, method@, params@),
            final(self).url@ == old(self).url@,
            final(self).next_id == id_after(old(self).next_id),
    {
        let id: u64 = self.next_id;
        self.next_id = if id == u64::MAX {
            0
        } else {
            id + 1
        };
        let pairs = vec![
            ("jsonrpc".to_owned(), Json::text("2.0")),
            ("id".to_owned(), Json::Number(JsonNumber::Unsigned(id))),
            ("method".to_owned(), Json::text(method)),
            ("params".to_owned(), params),
        ];
        assert(pair_views(pairs@) =~= seq![
            ("jsonrpc"@, JsonView::String("2.0"@)),
            ("id"@, JsonView::Number(JsonNumber::Unsigned(id))),
            ("method"@, JsonView::String(method@)),
            ("params"@, params@),
        ]);
        RpcRequest { method: method.to_owned(), body: object(pairs) }
    }

    /// Asks which network the service serves.
    pub fn get_network(&mut self) -> (r: RpcRequest)
        ensures
            r.method@ == "getNetwork"@,
            r.body@ == request_body(
                old(self).next_id,
                "getNetwork"@,
                JsonView::Object(Seq::empty()),
            ),
            final(self).url@ == old(self).url@,
            final(self).next_id == id_after(old(self).next_id),
    {
        let none: Vec<(String, Json)> = Vec::new();
        assert(pair_views(none@) =~= Seq::empty());
        self.call("getNetwork", Json::Object(none))
    }

    /// Asks for ledger entries by their keys in base64.
    pub fn get_ledger_entries(&mut self, keys: Vec<String>) -> (r: RpcRequest)
        ensures
            r.method@ == "getLedgerEntries"@,
            r.body@ == request_body(
                old(self).next_id,
                "getLedgerEntries"@,
                object1("keys"@, JsonView::Array(texts(keys@))),
            ),
            final(self).url@ == old(self).url@,
            final(self).next_id == id_after(old(self).next_id),
    {
        let ghost all = keys@;
        let mut items: Vec<Json> = Vec::new();
        for key in it: keys
            invariant
                it.seq() == all,
                items@.len() == it.index(),
                forall|k: int|
                    0 <= k < it.index() ==> (#[trigger] items@[k])@ == JsonView::String(all[k]@),
        {
            items.push(Json::String(key));
        }
        assert(json_views(items@) =~= texts(all));
        self.call("getLedgerEntries", single("keys", Json::Array(items)))
    }

    /// Asks for the simulation of a transaction in base64.
    pub fn simulate_transaction(&mut self, envelope_xdr: &str) -> (r: RpcRequest)
        ensures
            r.method@ == "simulateTransaction"@,
            r.body@ == request_body(
                old(self).next_id,
                "simulateTransaction"@,
                object1("transaction"@, JsonView::String(envelope_xdr@)),
            ),
            final(self).url@ == old(self).url@,
            final(self).next_id == id_after(old(self).next_id),
    {
        self.call("simulateTransaction", single("transaction", Json::text(envelope_xdr)))
    }

    /// Submits a signed transaction in base64.
    pub fn send_transaction(&mut self, envelope_xdr: &str) -> (r: RpcRequest)
        ensures
            r.method@ == "sendTransaction"@,
            r.body@ == request_body(
                old(self).next_id,
                "sendTransaction"@,
                object1("transaction"@, JsonView::String(envelope_xdr@)),
            ),
            final(self).url@ == old(self).url@,
            final(self).next_id == id_after(old(self).next_id),
    {
        self.call("sendTransaction", single("transaction", Json::text(envelope_xdr)))
    }

    /// Asks what became of a transaction.
    pub fn get_transaction(&mut self, hash: &str) -> (r: RpcRequest)
        ensures
            r.method@ == "getTransaction"@,
            r.body@ == request_body(
                old(self).next_id,
                "getTransaction"@,
                object1("hash"@, JsonView::String(hash@)),
            ),
            final(self).url@ == old(self).url@,
            final(self).next_id == id_after(old(self).next_id),
    {
        self.call("getTransaction", single("hash", Json::text(hash)))
    }
}

pub open spec fn texts(items: Seq<String>) -> Seq<JsonView> {
    Seq::new(items.len(), |i: int| JsonView::String(items[i]@))
}

/// An error that the service reports.
#[derive(Debug, PartialEq)]
pub struct RpcError {
    pub code: i64,
    pub message: String,
    pub data: Option<Json>,
}

/// The body of a reply.
#[derive(Debug, PartialEq)]
pub struct RpcBody {
    pub result: Option<Json>,
    pub error: Option<RpcError>,
}

/// What came of posting a request: nothing could be sent, the reply could not be
/// read, the reply had a status that is no success, its body was not understood,
/// or it was.
#[derive(Debug, PartialEq)]
pub enum RpcReply {
    Unsent(String),
    Unread(String),
    Refused { status: String, body: String },
    Garbled { reason: String, body: String },
    Answered(RpcBody),
}

/// The debug notation of optional data.
pub open spec fn data_debug(data: Option<Json>) -> Seq<char> {
    match data {
        Some(j) => "Some("@ + json_debug(canonical(j@)) + ")"@,
        None => "None"@,
    }
}

/// What a reply to a method gives: the result, or the failure.
pub open spec fn reply_result(method: Seq<char>, reply: RpcReply) -> Result<JsonView, Seq<char>> {
    match reply {
        RpcReply::Unsent(e) => Err("rpc transport error calling "@ + method + ": "@ + e@),
        RpcReply::Unread(e) => Err(
            "failed reading rpc response body for "@ + method + ": "@ + e@,
        ),
        RpcReply::Refused { status, body } => Err(
            "rpc http error calling "@ + method + ": status="@ + status@ + " body="@ + body@,
        ),
        RpcReply::Garbled { reason, body } => Err(
            "failed parsing rpc response for "@ + method + ": "@ + reason@ + " body="@ + body@,
        ),
        RpcReply::Answered(b) => match b.error {
            Some(e) => Err(
                "rpc error calling "@ + method + ": code="@ + decimal(e.code as int)
                    + " message="@ + e.message@ + " data="@ + data_debug(e.data),
            ),
            None => match b.result {
                Some(j) => Ok(j@),
                None => Err("rpc response for "@ + method + " had neither result nor error"@),
            },
        },
    }
}

/// Takes the result out of a reply to a method.
pub fn take_result(method: &str, reply: RpcReply) -> (r: Result<Json, Failure>)
    ensures
        told(r) == reply_result(method@, reply),
{
    match reply {
        RpcReply::Unsent(e) => Err(
            Failure::new(cat4("rpc transport error calling ", method, ": ", e.as_str())),
        ),
        RpcReply::Unread(e) => Err(
            Failure::new(
                cat4("failed reading rpc response body for ", method, ": ", e.as_str()),
            ),
        ),
        RpcReply::Refused { status, body } => Err(
            Failure::new(
                cat6(
                    "rpc http error calling ",
                    method,
                    ": status=",
                    status.as_str(),
                    " body=",
                    body.as_str(),
                ),
            ),
        ),
        RpcReply::Garbled { reason, body } => Err(
            Failure::new(
                cat6(
                    "failed parsing rpc response for ",
                    method,
                    ": ",
                    reason.as_str(),
                    " body=",
                    body.as_str(),
                ),
            ),
        ),
        RpcReply::Answered(b) => match b.error {
            Some(e) => {
                let data = match &e.data {
                    Some(j) => cat3("Some(", j.to_debug().as_str(), ")"),
                    None => "None".to_owned(),
                };
                let head = cat7(
                    "rpc error calling ",
                    method,
                    ": code=",
                    signed_text(e.code as i128).as_str(),
                    " message=",
                    e.message.as_str(),
                    " data=",
                );
                Err(Failure::new(cat2(head.as_str(), data.as_str())))
            },
            None => match b.result {
                Some(j) => Ok(j),
                None => Err(
                    Failure::new(
                        cat3("rpc response for ", method, " had neither result nor error"),
                    ),
                ),
            },
        },
    }
}

} // verus!
