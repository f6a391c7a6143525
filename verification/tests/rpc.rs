use orcus_api::json::Json;
use orcus_api::rpc::first_in;
use orcus_api::rpc::take_result;
use orcus_api::rpc::RpcBody;
use orcus_api::rpc::RpcClient;
use orcus_api::rpc::RpcError;
use orcus_api::rpc::RpcReply;
use orcus_api::rpc::ValueExt;

fn json(text: &str) -> Json {
    Json::parse(text).unwrap()
}

#[test]
fn requests_are_numbered() {
    let mut rpc = RpcClient::new("http://x".to_string());
    let first = rpc.get_network();
    assert_eq!(first.method, "getNetwork");
    assert_eq!(
        first.body.to_text(),
        "{\"id\":1,\"jsonrpc\":\"2.0\",\"method\":\"getNetwork\",\"params\":{}}"
    );
    assert_eq!(
        rpc.get_transaction("ab").body.to_text(),
        "{\"id\":2,\"jsonrpc\":\"2.0\",\"method\":\"getTransaction\",\"params\":{\"hash\":\"ab\"}}"
    );
    assert_eq!(rpc.next_id, 3);
    rpc.next_id = u64::MAX;
    rpc.get_network();
    assert_eq!((rpc.next_id, rpc.url.as_str()), (0, "http://x"));
}

#[test]
fn requests_carry_their_parameters() {
    let mut rpc = RpcClient::new(String::new());
    let params = |body: &Json| body.get("params").unwrap().to_text();
    let keys = rpc.get_ledger_entries(vec!["k1".to_string(), "k2".to_string()]);
    assert_eq!(params(&keys.body), "{\"keys\":[\"k1\",\"k2\"]}");
    assert_eq!(keys.method, "getLedgerEntries");
    assert_eq!(
        params(&rpc.simulate_transaction("AAA").body),
        "{\"transaction\":\"AAA\"}"
    );
    let sent = rpc.send_transaction("BBB");
    assert_eq!(params(&sent.body), "{\"transaction\":\"BBB\"}");
    assert_eq!(sent.body.get("method").unwrap().as_str(), Some("sendTransaction"));
    assert_eq!(params(&rpc.call("m", Json::Bool(true)).body), "true");
}

#[test]
fn results_are_taken_out_of_replies() {
    let taken = |reply: RpcReply| take_result("m", reply).map_err(|e| e.message);
    assert_eq!(
        taken(RpcReply::Answered(RpcBody { result: Some(Json::Bool(true)), error: None })),
        Ok(Json::Bool(true))
    );
    assert_eq!(
        taken(RpcReply::Unsent("e".to_string())),
        Err("rpc transport error calling m: e".to_string())
    );
    assert_eq!(
        taken(RpcReply::Unread("e".to_string())),
        Err("failed reading rpc response body for m: e".to_string())
    );
    assert_eq!(
        taken(RpcReply::Refused { status: "500 Oops".to_string(), body: "b".to_string() }),
        Err("rpc http error calling m: status=500 Oops body=b".to_string())
    );
    assert_eq!(
        taken(RpcReply::Garbled { reason: "r".to_string(), body: "b".to_string() }),
        Err("failed parsing rpc response for m: r body=b".to_string())
    );
    assert_eq!(
        taken(RpcReply::Answered(RpcBody { result: None, error: None })),
        Err("rpc response for m had neither result nor error".to_string())
    );
}

#[test]
fn reported_errors_come_before_results() {
    let reported = |data: Option<Json>| {
        let error = RpcError { code: -32600, message: "bad".to_string(), data };
        let body = RpcBody { result: Some(Json::Null), error: Some(error) };
        take_result("m", RpcReply::Answered(body)).unwrap_err().message
    };
    assert_eq!(reported(None), "rpc error calling m: code=-32600 message=bad data=None");
    let data = json("[\"x\"]");
    assert_eq!(
        reported(Some(data.copy())),
        format!(
            "rpc error calling m: code=-32600 message=bad data={:?}",
            Some(data.to_value())
        )
    );
}

#[test]
fn fields_are_found_or_complained_of() {
    let j = json("{\"b\":1,\"a\":\"x\"}");
    assert_eq!(j.field("b").unwrap(), &json("1"));
    assert_eq!(j.as_str_field("a").unwrap(), "x");
    assert_eq!(
        j.field("c").unwrap_err().message,
        "expected field `c` in rpc response: {\"a\":\"x\",\"b\":1}"
    );
    assert_eq!(
        j.as_str_field("b").unwrap_err().message,
        "expected field `b` to be a string in: {\"a\":\"x\",\"b\":1}"
    );
    assert_eq!(
        j.as_str_field("c").unwrap_err().message,
        "expected field `c` in rpc response: {\"a\":\"x\",\"b\":1}"
    );
    assert_eq!(first_in(&json("{\"l\":[4,5]}"), "l"), Some(&json("4")));
    assert_eq!(first_in(&json("{\"l\":[]}"), "l"), None);
    assert_eq!(first_in(&json("{\"l\":4}"), "l"), None);
}
