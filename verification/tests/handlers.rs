use orcus_api::error::AppError;
use orcus_api::error::Failure;
use orcus_api::handlers::classify_lookup_err;
use orcus_api::handlers::eq_ignore_case;
use orcus_api::handlers::get_functions;
use orcus_api::handlers::get_network;
use orcus_api::handlers::get_spec;
use orcus_api::handlers::header_str;
use orcus_api::handlers::health;
use orcus_api::handlers::invoke_get;
use orcus_api::handlers::invoke_post;
use orcus_api::handlers::query_args;
use orcus_api::handlers::query_value_to_json;
use orcus_api::handlers::read_common_headers;
use orcus_api::handlers::CallHeaders;
use orcus_api::handlers::CallRequest;
use orcus_api::interface::Function;
use orcus_api::interface::SpecEntry;
use orcus_api::json::Json;
use orcus_api::spec::ContractSpec;
use orcus_api::table::Table;

fn json(text: &str) -> Json {
    Json::parse(text).unwrap()
}

fn headers(account: Option<&[u8]>, sign: Option<&[u8]>, key: Option<&[u8]>) -> CallHeaders {
    CallHeaders {
        source_account: account.map(|b| b.to_vec()),
        sign: sign.map(|b| b.to_vec()),
        secret_key: key.map(|b| b.to_vec()),
    }
}

fn spec() -> ContractSpec {
    let function = |name: &str| {
        SpecEntry::Function(Function {
            doc: String::new(),
            name: name.to_string(),
            inputs: vec![],
            outputs: vec![],
        })
    };
    ContractSpec::from_entries(vec![function("get"), function("put"), function("new")])
}

#[test]
fn health_is_ok() {
    assert_eq!(health().to_text(), "{\"status\":\"ok\"}");
}

#[test]
fn the_network_is_passed_on() {
    assert_eq!(get_network(Ok(json("{\"p\":22}"))), Ok(json("{\"p\":22}")));
    assert_eq!(
        get_network(Err(Failure::of("down"))),
        Err(AppError::Upstream("down".to_string()))
    );
}

#[test]
fn lookup_failures_are_classified() {
    let class = |m: &str| classify_lookup_err(Failure::of(m));
    let m = "wasm hash must be exactly 32 bytes (64 hex characters)";
    assert_eq!(class(m), AppError::BadRequest(m.to_string()));
    let m = "wasm hash must be hex-encoded: Odd number of digits";
    assert_eq!(class(m), AppError::BadRequest(m.to_string()));
    let m = "no contract WASM found on-chain for hash `x`";
    assert_eq!(class(m), AppError::NotFound(m.to_string()));
    let m = "WASM module has no `contractspecv0` custom section";
    assert_eq!(class(m), AppError::BadRequest(m.to_string()));
    let m = "rpc transport error calling getLedgerEntries: x";
    assert_eq!(class(m), AppError::Upstream(m.to_string()));
}

#[test]
fn functions_are_listed_with_their_method() {
    let mut methods: Table<bool> = Table::new();
    methods.insert("get".to_string(), true);
    methods.insert("put".to_string(), false);
    assert_eq!(
        get_functions(&spec(), &methods).to_text(),
        "[{\"doc\":\"\",\"http_method\":\"GET\",\"inputs\":[],\"name\":\"get\",\"output\":null},\
         {\"doc\":\"\",\"http_method\":\"POST\",\"inputs\":[],\"name\":\"put\",\"output\":null},\
         {\"doc\":\"\",\"http_method\":\"POST\",\"inputs\":[],\"name\":\"new\",\"output\":null}]"
    );
    assert_eq!(get_spec(&spec()), spec().to_json());
}

#[test]
fn headers_are_utf8() {
    assert_eq!(header_str(&None, "h"), Ok(None));
    assert_eq!(header_str(&Some(b"a b\t~".to_vec()), "h"), Ok(Some("a b\t~".to_string())));
    let refused = Err(AppError::BadRequest("header `h` is not valid UTF-8".to_string()));
    assert_eq!(header_str(&Some(vec![0xc3, 0xa9]), "h"), Ok(Some("\u{e9}".to_string())));
    assert_eq!(header_str(&Some(vec![]), "h"), Ok(Some(String::new())));
    assert_eq!(header_str(&Some(vec![0xc3]), "h"), refused);
    assert_eq!(header_str(&Some(vec![b'a', 0xff]), "h"), refused);
    assert_eq!(header_str(&Some(vec![0xed, 0xa0, 0x80]), "h"), refused);
}

#[test]
fn the_headers_of_a_call_are_read() {
    let account = Some(&b"GA"[..]);
    assert_eq!(
        read_common_headers(&headers(account, None, None)),
        Ok(("GA".to_string(), false, None))
    );
    for (sign, wanted) in [("true", true), ("TrUe", true), ("1", true), ("false", false), ("yes", false)] {
        assert_eq!(
            read_common_headers(&headers(account, Some(sign.as_bytes()), Some(b"S"))),
            Ok(("GA".to_string(), wanted, Some("S".to_string())))
        );
    }
    assert_eq!(
        read_common_headers(&headers(None, None, None)),
        Err(AppError::BadRequest("missing required header `x-source-account`".to_string()))
    );
    let refused = |h: CallHeaders| read_common_headers(&h).unwrap_err().message().to_string();
    assert_eq!(
        refused(headers(Some(&[200]), None, None)),
        "header `x-source-account` is not valid UTF-8"
    );
    assert_eq!(refused(headers(account, Some(&[200]), None)), "header `x-sign` is not valid UTF-8");
    assert_eq!(
        refused(headers(account, None, Some(&[200]))),
        "header `x-secret-key` is not valid UTF-8"
    );
    assert!(eq_ignore_case("aZ1", "Az1"));
    assert!(!eq_ignore_case("a", "ab"));
    assert!(!eq_ignore_case("[", "{"));
}

#[test]
fn query_values_are_json_where_they_can_be() {
    assert_eq!(query_value_to_json("5"), json("5"));
    assert_eq!(query_value_to_json("[1,2]"), json("[1,2]"));
    assert_eq!(query_value_to_json("{\"x\":1}"), json("{\"x\":1}"));
    assert_eq!(query_value_to_json("hello"), Json::String("hello".to_string()));
    assert_eq!(query_value_to_json(""), Json::String(String::new()));
    assert_eq!(
        query_args(vec![
            ("b".to_string(), "true".to_string()),
            ("a".to_string(), "word".to_string()),
        ]),
        json("{\"a\":\"word\",\"b\":true}")
    );
}

#[test]
fn requests_are_put_together() {
    let h = headers(Some(b"GA"), Some(b"1"), None);
    let wanted = |args: &str, is_get: bool| CallRequest {
        function_name: "f".to_string(),
        args: json(args),
        source_account: "GA".to_string(),
        sign: true,
        secret_key: None,
        is_get,
    };
    let query = vec![("n".to_string(), "5".to_string())];
    assert_eq!(invoke_get("f", query, &h), Ok(wanted("{\"n\":5}", true)));
    assert_eq!(invoke_post("f", json("{\"n\":6}"), &h), Ok(wanted("{\"n\":6}", false)));
    assert!(invoke_post("f", Json::Null, &headers(None, None, None)).is_err());
    assert!(invoke_get("f", vec![], &headers(None, None, None)).is_err());
}
