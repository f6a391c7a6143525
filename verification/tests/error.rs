use orcus_api::error::AppError;
use orcus_api::error::Failure;

fn answer(e: AppError) -> (u16, String, String) {
    let (status, body) = e.into_response();
    (status, body.to_text(), e.to_text())
}

#[test]
fn errors_are_answered_by_their_kind() {
    let m = || "m".to_string();
    let body = "{\"error\":\"m\"}".to_string();
    assert_eq!(
        answer(AppError::bad_request(m())),
        (400, body.clone(), "bad request: m".to_string())
    );
    assert_eq!(
        answer(AppError::not_found(m())),
        (404, body.clone(), "not found: m".to_string())
    );
    assert_eq!(
        answer(AppError::method_not_allowed(m())),
        (405, body.clone(), "method not allowed: m".to_string())
    );
    assert_eq!(
        answer(AppError::upstream(m())),
        (502, body.clone(), "upstream error: m".to_string())
    );
    assert_eq!(
        answer(AppError::from(Failure::of("m"))),
        (500, body, "internal error: m".to_string())
    );
    assert_eq!(AppError::upstream(m()).message(), "m");
}
