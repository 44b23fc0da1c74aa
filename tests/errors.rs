use web_backend::error::{ClientError, Error, InternalError};
use web_backend::http::{Reply, Request};
use web_backend::request::check_json_content_type;
use web_backend::text::IntErrorKind;

fn request(headers: &[(&str, &[u8])]) -> Request {
    Request {
        method: "DELETE".to_string(),
        path: "/thing".to_string(),
        query: None,
        headers: headers.iter().map(|(n, v)| (n.to_string(), v.to_vec())).collect(),
    }
}

fn answer(e: Error) -> (u16, String) {
    let r = e.into_response();
    assert_eq!(r.headers, vec![("content-type".to_string(), "application/json; charset=utf-8".to_string())]);
    (r.status, r.body)
}

#[test]
fn client_error_statuses_and_bodies() {
    let req = request(&[]);
    assert_eq!(answer(Error::unauthorized()), (401, "{\"Unauthorized\":null}".to_string()));
    assert_eq!(answer(Error::forbidden()), (403, "{\"Forbidden\":null}".to_string()));
    assert_eq!(answer(Error::path_not_found(&req)), (404, "{\"PathNotFound\":\"/thing\"}".to_string()));
    assert_eq!(answer(Error::method_not_found(&req)), (405, "{\"MethodNotFound\":\"DELETE\"}".to_string()));
    assert_eq!(
        answer(Error::path_data_before_root("x".to_string())),
        (400, "{\"PathDataBeforeRoot\":\"x\"}".to_string())
    );
    assert_eq!(answer(Error::unparseable_cookie("c")), (400, "{\"UnparseableCookie\":\"c\"}".to_string()));
    assert_eq!(
        answer(Error::ClientError(ClientError::InvalidIndexPath("bad".to_string()))),
        (400, "{\"InvalidIndexPath\":\"bad\"}".to_string())
    );
    assert_eq!(
        answer(Error::ClientError(ClientError::InvalidJson("eof\n".to_string()))),
        (400, "{\"InvalidJson\":\"eof\\n\"}".to_string())
    );
}

#[test]
fn internal_errors_are_generic() {
    let kinds = vec![
        (InternalError::Connection("reset".to_string()), "Connection(reset)"),
        (InternalError::InvalidHeader("h".to_string()), "InvalidHeader(h)"),
        (InternalError::Db("PoolTimedOut".to_string()), "Db(PoolTimedOut)"),
        (InternalError::OIDCRequestError("r".to_string()), "OIDCRequestError(r)"),
        (InternalError::TamperedOIDCLogin("t".to_string()), "TamperedOIDCLogin(t)"),
        (InternalError::RenderingError("x".to_string()), "RenderingError(x)"),
    ];
    for (e, line) in kinds {
        assert_eq!(e.describe(), line);
        let e = Error::InternalError(e);
        assert_eq!(e.log_line(), Some(line.to_string()));
        assert_eq!(answer(e), (500, "{\"InternalError\":null}".to_string()));
    }
    assert_eq!(Error::unauthorized().log_line(), None);
}

#[test]
fn content_length_messages() {
    let msg = |e: Error| match e {
        Error::ClientError(ClientError::InvalidContentLength(m)) => m,
        _ => panic!("expected an invalid content length"),
    };
    assert_eq!(msg(Error::content_length_missing()), "No content length given");
    assert_eq!(
        msg(Error::content_length_not_int(IntErrorKind::PosOverflow)),
        "Invalid unsigned int: number too large to fit in target type"
    );
    assert_eq!(msg(Error::content_length_too_large(70, 64)), "Too large. Maximum allowed is 64, received 70");
    assert_eq!(msg(Error::content_length_mismatch(3, 10)), "Mismatch. Header is 10, received  3");
    assert_eq!(msg(Error::content_length_mismatch(12, 10)), "Mismatch. Header is 10, received  at least 12");
}

#[test]
fn unreadable_header_and_content_type_messages() {
    match Error::unreadable_header("cookie") {
        Error::ClientError(ClientError::UnreadableHeader(m)) => {
            assert_eq!(m, "Error reading header cookie: failed to convert header to a str")
        },
        _ => panic!("expected an unreadable header"),
    }
    match Error::invalid_content_type("application/json; charset=utf-8", "text/plain") {
        Error::ClientError(ClientError::InvalidContentType(m)) => {
            assert_eq!(m, "Expected application/json; charset=utf-8, received text/plain")
        },
        _ => panic!("expected an invalid content type"),
    }
}

#[test]
fn json_content_type_is_required() {
    assert!(check_json_content_type(&request(&[("content-type", b"application/json; charset=utf-8")])).is_ok());
    match check_json_content_type(&request(&[])) {
        Err(Error::ClientError(ClientError::InvalidContentType(m))) => {
            assert_eq!(m, "Expected application/json; charset=utf-8, received ")
        },
        _ => panic!("expected an invalid content type"),
    }
    assert!(matches!(
        check_json_content_type(&request(&[("content-type", b"application/json")])),
        Err(Error::ClientError(ClientError::InvalidContentType(_)))
    ));
}

#[test]
fn duplicate_cookie_error_fields() {
    match Error::duplicate_cookies("n", "v", "o") {
        Error::ClientError(ClientError::DuplicateCookies { name, value, old_value }) => {
            assert_eq!((name.as_str(), value.as_str(), old_value.as_str()), ("n", "v", "o"))
        },
        _ => panic!("expected duplicate cookies"),
    }
}

#[test]
fn errors_convert_into_error() {
    let e: Error = ClientError::Forbidden.into();
    assert!(matches!(e, Error::ClientError(ClientError::Forbidden)));
    let e = Error::from(InternalError::Db("down".to_string()));
    assert!(matches!(e, Error::InternalError(InternalError::Db(ref d)) if d == "down"));
}

#[test]
fn json_payloads_are_escaped() {
    let e = Error::ClientError(ClientError::InvalidJson("a\"b\\c\u{8}\t\n\u{c}\r\u{1}\u{1f}é/".to_string()));
    assert_eq!(
        answer(e).1,
        "{\"InvalidJson\":\"a\\\"b\\\\c\\b\\t\\n\\f\\r\\u0001\\u001fé/\"}"
    );
}
