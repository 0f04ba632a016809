use heimdall::error::{AppErr, Source, StoreFailure};
use heimdall::text::IntError;

fn parts(e: &AppErr) -> (u16, &str, Option<&str>) {
    (e.status(), e.subject(), e.content())
}

#[test]
fn plain_errors() {
    assert_eq!(parts(&AppErr::new(418, "teapot")), (418, "teapot", None));
    assert_eq!(parts(&AppErr::default()), (500, "server error", None));
    assert_eq!(parts(&AppErr::from_message("boom")), (500, "boom", None));
    assert_eq!(parts(&AppErr::with_content(409, "conflict", "x")), (409, "conflict", Some("x")));
}

#[test]
fn helpers() {
    assert_eq!(parts(&AppErr::bad_request("a")), (400, "bad request", Some("a")));
    assert_eq!(parts(&AppErr::forbidden("b")), (403, "forbidden", Some("b")));
    assert_eq!(parts(&AppErr::not_found("c")), (404, "not found", Some("c")));
    assert_eq!(parts(&AppErr::from_response(413, "too large")), (413, "Err", Some("too large")));
}

#[test]
fn storage_failures() {
    assert_eq!(parts(&AppErr::from_store(&StoreFailure::RowNotFound)), (404, "not found", None));
    assert_eq!(
        parts(&AppErr::from_store(&StoreFailure::Database(Some("2067".to_string())))),
        (400, "a similar item was found", None)
    );
    assert_eq!(
        parts(&AppErr::from_store(&StoreFailure::Database(Some("1555".to_string())))),
        (500, "server error", None)
    );
    assert_eq!(
        parts(&AppErr::from_store(&StoreFailure::Database(None))),
        (500, "server error", None)
    );
    assert_eq!(parts(&AppErr::from_store(&StoreFailure::Other)), (500, "server error", None));
}

#[test]
fn outside_errors_keep_their_name() {
    let names = [
        (Source::Io, "io::Error"),
        (Source::Payload, "PayloadError"),
        (Source::ParseFloat, "ParseFloatError"),
        (Source::ParseInt, "ParseIntError"),
        (Source::FromUtf8, "FromUtf8Error"),
        (Source::Json, "serde_json::Error"),
        (Source::ToStr, "ToStrError"),
    ];
    for (source, name) in names {
        assert_eq!(source.as_str(), name);
        assert_eq!(parts(&AppErr::wrapped(source, "why")), (500, name, Some("why")));
    }
    assert_eq!(
        parts(&AppErr::from_int_error(IntError::InvalidDigit)),
        (500, "ParseIntError", Some("invalid digit found in string"))
    );
    assert_eq!(
        parts(&AppErr::from_int_error(IntError::Empty)),
        (500, "ParseIntError", Some("cannot parse integer from empty string"))
    );
}

#[test]
fn status_code_is_a_status_of_http() {
    assert_eq!(AppErr::new(404, "x").status_code(), 404);
    assert_eq!(AppErr::new(100, "x").status_code(), 100);
    assert_eq!(AppErr::new(999, "x").status_code(), 999);
    assert_eq!(AppErr::new(99, "x").status_code(), 500);
    assert_eq!(AppErr::new(1000, "x").status_code(), 500);
    assert_eq!(AppErr::new(0, "x").status_code(), 500);
    assert_eq!(AppErr::new(u16::MAX, "x").status_code(), 500);
}
