use web_backend::cookies::{cookie_value, parse_cookie_header, parse_cookies};
use web_backend::error::{ClientError, Error};
use web_backend::http::{Reply, Request};
use web_backend::request::{get_header, validate_get_content_len, BodyReader};
use web_backend::response::{add_header, css, empty, json, not_modified, redirect, set_status};
use web_backend::text::{parse_usize, to_decimal, trim, IntErrorKind};

fn request(headers: &[(&str, &[u8])]) -> Request {
    Request {
        method: "POST".to_string(),
        path: "/upload".to_string(),
        query: None,
        headers: headers.iter().map(|(n, v)| (n.to_string(), v.to_vec())).collect(),
    }
}

fn content_length_message(r: Result<usize, Error>) -> String {
    match r {
        Err(Error::ClientError(ClientError::InvalidContentLength(m))) => m,
        _ => panic!("expected an invalid content length"),
    }
}

#[test]
fn header_lookup() {
    let req = request(&[("a", b"one"), ("a", b"two"), ("b", b"bad\x01")]);
    assert_eq!(get_header(&req, "a").ok().unwrap(), Some("one".to_string()));
    assert_eq!(get_header(&req, "c").ok().unwrap(), None);
    match get_header(&req, "b") {
        Err(Error::ClientError(ClientError::UnreadableHeader(m))) => {
            assert_eq!(m, "Error reading header b: failed to convert header to a str")
        },
        _ => panic!("expected an unreadable header"),
    }
    let req = request(&[("t", b"tab\there")]);
    assert_eq!(get_header(&req, "t").ok().unwrap(), Some("tab\there".to_string()));
}

#[test]
fn content_length_validation() {
    let ok = request(&[("content-length", b"12")]);
    assert_eq!(validate_get_content_len(&ok, 100).ok(), Some(12));
    let plus = request(&[("content-length", b"+7")]);
    assert_eq!(validate_get_content_len(&plus, 100).ok(), Some(7));
    assert_eq!(content_length_message(validate_get_content_len(&request(&[]), 100)), "No content length given");
    assert_eq!(
        content_length_message(validate_get_content_len(&request(&[("content-length", b"1x")]), 100)),
        "Invalid unsigned int: invalid digit found in string"
    );
    assert_eq!(
        content_length_message(validate_get_content_len(&request(&[("content-length", b"")]), 100)),
        "Invalid unsigned int: cannot parse integer from empty string"
    );
    assert_eq!(
        content_length_message(validate_get_content_len(&request(&[("content-length", b"101")]), 100)),
        "Too large. Maximum allowed is 100, received 101"
    );
}

#[test]
fn body_of_declared_length_is_complete() {
    let req = request(&[("content-length", b"5")]);
    let mut reader = BodyReader::new(&req, 10).ok().expect("a reader");
    assert!(reader.push_chunk(b"he", 3).is_ok());
    assert!(reader.push_chunk(b"llo", 0).is_ok());
    assert_eq!(reader.finish().ok(), Some(b"hello".to_vec()));
}

#[test]
fn short_body_is_mismatch() {
    let req = request(&[("content-length", b"5")]);
    let mut reader = BodyReader::new(&req, 10).ok().expect("a reader");
    assert!(reader.push_chunk(b"abc", 0).is_ok());
    match reader.finish() {
        Err(Error::ClientError(ClientError::InvalidContentLength(m))) => {
            assert_eq!(m, "Mismatch. Header is 5, received  3")
        },
        _ => panic!("expected a mismatch"),
    }
}

#[test]
fn overrunning_body_is_mismatch() {
    let req = request(&[("content-length", b"4")]);
    let mut reader = BodyReader::new(&req, 10).ok().expect("a reader");
    assert!(reader.push_chunk(b"abc", 10).is_ok());
    match reader.push_chunk(b"de", 6) {
        Err(Error::ClientError(ClientError::InvalidContentLength(m))) => {
            assert_eq!(m, "Mismatch. Header is 4, received  at least 11")
        },
        _ => panic!("expected a mismatch"),
    }
}

#[test]
fn empty_body_of_zero_length() {
    let req = request(&[("content-length", b"0")]);
    let reader = BodyReader::new(&req, 0).ok().expect("a reader");
    assert_eq!(reader.finish().ok(), Some(vec![]));
}

#[test]
fn cookie_parsing() {
    let c = parse_cookie_header(" a=1; b=x=y ;;c=").ok().expect("cookies");
    assert_eq!(c, vec![("a".to_string(), "1".to_string()), ("b".to_string(), "x=y".to_string()), ("c".to_string(), "".to_string())]);
    let c = parse_cookie_header("a=1; a=1").ok().expect("cookies");
    assert_eq!(c.len(), 1);
    match parse_cookie_header("a=1; a=2") {
        Err(Error::ClientError(ClientError::DuplicateCookies { name, value, old_value })) => {
            assert_eq!((name.as_str(), value.as_str(), old_value.as_str()), ("a", "2", "1"));
        },
        _ => panic!("expected duplicate cookies"),
    }
    match parse_cookie_header("a=1; junk") {
        Err(Error::ClientError(ClientError::UnparseableCookie(t))) => assert_eq!(t, "junk"),
        _ => panic!("expected an unparseable cookie"),
    }
    assert_eq!(cookie_value(&vec![("session".to_string(), "s".to_string())], "session"), Some("s".to_string()));
    assert_eq!(parse_cookies(&request(&[])).ok(), Some(vec![]));
}

#[test]
fn duplicate_cookie_body() {
    let e = parse_cookie_header("k=new; k=\"q\"").err().expect("an error");
    let r = e.into_response();
    assert_eq!(r.status, 400);
    assert_eq!(r.body, "{\"DuplicateCookies\":{\"name\":\"k\",\"value\":\"\\\"q\\\"\",\"old_value\":\"new\"}}");
}

#[test]
fn integers() {
    assert_eq!(parse_usize("0"), Ok(0));
    assert_eq!(parse_usize("18446744073709551615"), Ok(usize::MAX));
    assert_eq!(parse_usize("18446744073709551616"), Err(IntErrorKind::PosOverflow));
    assert_eq!(parse_usize("99999999999999999999x"), Err(IntErrorKind::PosOverflow));
    assert_eq!(parse_usize("+"), Err(IntErrorKind::InvalidDigit));
    assert_eq!(parse_usize("-1"), Err(IntErrorKind::InvalidDigit));
    assert_eq!(parse_usize(""), Err(IntErrorKind::Empty));
    assert_eq!(to_decimal(0), "0");
    assert_eq!(to_decimal(1234567), "1234567");
    assert_eq!(trim("  a b  "), "a b");
}

#[test]
fn response_constructors() {
    let r = empty().ok().unwrap();
    assert_eq!((r.status, r.body.as_str(), r.headers.len()), (204, "", 0));
    assert_eq!(not_modified().ok().unwrap().status, 304);
    let r = redirect("https://example.com/x").ok().unwrap();
    assert_eq!(r.status, 303);
    assert_eq!(r.headers, vec![("location".to_string(), "https://example.com/x".to_string())]);
    let bad = redirect("https://example.com/\n").err().expect("an error");
    assert!(bad.log_line().unwrap().starts_with("InvalidHeader("));
    assert_eq!(bad.into_response().status, 500);
    let r = css("p {}").ok().unwrap();
    assert_eq!(r.headers[0].1, "text/css; charset=utf-8");
    let r = json("[1]".to_string()).ok().unwrap();
    assert_eq!((r.body.as_str(), r.headers[0].1.as_str()), ("[1]", "application/json; charset=utf-8"));
    let r = set_status(json("{}".to_string()), 201).ok().unwrap();
    assert_eq!(r.status, 201);
    let r = add_header(empty(), "x-a", "1".to_string()).ok().unwrap();
    assert_eq!(r.headers, vec![("x-a".to_string(), "1".to_string())]);
}

#[test]
fn header_names_ignore_case() {
    let req = request(&[("content-length", b"5"), ("X-Mixed", b"m")]);
    assert_eq!(get_header(&req, "Content-Length").ok().unwrap(), Some("5".to_string()));
    assert_eq!(get_header(&req, "x-mixed").ok().unwrap(), Some("m".to_string()));
    assert_eq!(validate_get_content_len(&req, 10).ok(), Some(5));
}

#[test]
fn body_reader_reports_length_check_errors() {
    match BodyReader::new(&request(&[("Content-Length", b"11")]), 10) {
        Err(Error::ClientError(ClientError::InvalidContentLength(m))) => {
            assert_eq!(m, "Too large. Maximum allowed is 10, received 11")
        },
        _ => panic!("expected an invalid content length"),
    }
    match BodyReader::new(&request(&[("content-length", b"\x7f")]), 10) {
        Err(Error::ClientError(ClientError::UnreadableHeader(m))) => {
            assert_eq!(m, "Error reading header Content-Length: failed to convert header to a str")
        },
        _ => panic!("expected an unreadable header"),
    }
}
