use web_backend::auth::{start_oidc_login_flow, LoginFlow};
use web_backend::error::{ClientError, Error};
use web_backend::http::{Reply, Request, Response};
use web_backend::response::html;
use web_backend::routes::{route, Route};
use web_backend::routing::{split_path, verify_method, verify_method_path_end, verify_path_end};
use web_backend::secure::SecureStep;

fn request(method: &str, path: &str, query: Option<&str>, headers: &[(&str, &[u8])]) -> Request {
    Request {
        method: method.to_string(),
        path: path.to_string(),
        query: query.map(|q| q.to_string()),
        headers: headers.iter().map(|(n, v)| (n.to_string(), v.to_vec())).collect(),
    }
}

fn header<'a>(r: &'a Response, name: &str) -> Option<&'a str> {
    r.headers.iter().find(|(n, _)| n == name).map(|(_, v)| v.as_str())
}

#[test]
fn get_root_serves_landing_page() {
    for path in ["/", "", "/index.html"] {
        let req = request("GET", path, None, &[]);
        assert!(matches!(route(&req), Ok(Route::Index)));
    }
    let page = html("<p>hello</p>".to_string()).into_response();
    assert_eq!(page.status, 200);
    assert_eq!(header(&page, "content-type"), Some("text/html; charset=utf-8"));
    assert_eq!(page.body, "<p>hello</p>");
}

#[test]
fn post_root_is_method_not_found() {
    let req = request("POST", "/", None, &[]);
    let r = route(&req).err().expect("an error").into_response();
    assert_eq!(r.status, 405);
    assert_eq!(r.body, "{\"MethodNotFound\":\"POST\"}");
    assert_eq!(header(&r, "content-type"), Some("application/json; charset=utf-8"));
}

#[test]
fn unknown_path_is_not_found() {
    for path in ["/nope", "/index.html/more", "/post-login/x", "/a/b/c"] {
        let req = request("GET", path, None, &[]);
        let r = route(&req).err().expect("an error").into_response();
        assert_eq!(r.status, 404);
        assert_eq!(r.body, format!("{{\"PathNotFound\":\"{}\"}}", path));
    }
}

#[test]
fn not_found_path_is_escaped_as_json() {
    let req = request("GET", "/a\"b", None, &[]);
    let r = route(&req).err().expect("an error").into_response();
    assert_eq!(r.status, 404);
    assert_eq!(r.body, "{\"PathNotFound\":\"/a\\\"b\"}");
}

#[test]
fn text_before_root_is_refused() {
    let req = request("GET", "wrong/path", None, &[]);
    match route(&req) {
        Err(Error::ClientError(ClientError::PathDataBeforeRoot(d))) => assert_eq!(d, "wrong"),
        other => panic!("unexpected {:?}", other.is_ok()),
    }
    let req = request("GET", "noslash", None, &[]);
    let r = route(&req).err().expect("an error").into_response();
    assert_eq!(r.status, 400);
    assert_eq!(r.body, "{\"PathDataBeforeRoot\":\"noslash\"}");
}

#[test]
fn secure_without_cookie_starts_login() {
    let req = request("GET", "/secure", None, &[]);
    assert!(matches!(route(&req), Ok(Route::Secure(SecureStep::StartLogin))));
    let url = "https://accounts.example.com/auth?state=xyz";
    let r = start_oidc_login_flow(format!("<a href=\"{}\">login</a>", url)).into_response();
    assert_eq!(r.status, 200);
    assert_eq!(header(&r, "cache-control"), Some("no-store"));
    assert_eq!(header(&r, "content-type"), Some("text/html; charset=utf-8"));
    assert!(r.body.contains(url));
}

#[test]
fn secure_with_cookie_looks_up_session() {
    let req = request("GET", "/secure/", None, &[("cookie", b"theme=dark; session=abc123")]);
    match route(&req) {
        Ok(Route::Secure(SecureStep::LookupSession { session_id, rest })) => {
            assert_eq!(session_id, "abc123");
            assert_eq!(rest, vec!["".to_string()]);
        },
        _ => panic!("expected a session lookup"),
    }
}

#[test]
fn wrong_method_on_post_login() {
    let req = request("PUT", "/post-login", Some("code=a&state=b"), &[]);
    let r = route(&req).err().expect("an error").into_response();
    assert_eq!(r.status, 405);
    assert_eq!(r.body, "{\"MethodNotFound\":\"PUT\"}");
}

#[test]
fn post_login_reads_code_and_state() {
    let req = request("GET", "/post-login", Some("code=a%20b&state=s%2F1&extra=1"), &[]);
    match route(&req) {
        Ok(Route::PostLogin(LoginFlow::AwaitingNonce { code, state_token })) => {
            assert_eq!(code, "a b");
            assert_eq!(state_token, "s/1");
        },
        _ => panic!("expected the login flow"),
    }
}

#[test]
fn post_login_query_errors() {
    let cases = [
        (None, "missing field `code`"),
        (Some("state=x"), "missing field `code`"),
        (Some("code=x"), "missing field `state`"),
        (Some("code=x&code=y&state=z"), "duplicate field `code`"),
    ];
    for (q, msg) in cases {
        let req = request("GET", "/post-login", q, &[]);
        match route(&req) {
            Err(Error::ClientError(ClientError::InvalidUrlEncoding(m))) => assert_eq!(m, msg),
            _ => panic!("expected an encoding error"),
        }
    }
}

#[test]
fn split_path_keeps_empty_segments() {
    assert_eq!(split_path("/a//b/"), vec!["", "a", "", "b", ""]);
    assert_eq!(split_path(""), vec![""]);
}

#[test]
fn leaf_checks_come_in_order() {
    let req = request("POST", "/x", None, &[]);
    let left = vec!["more".to_string()];
    assert!(matches!(verify_path_end(&left, &req), Err(Error::ClientError(ClientError::PathNotFound(_)))));
    assert!(verify_path_end(&vec![], &req).is_ok());
    assert!(matches!(verify_method(&req, "GET"), Err(Error::ClientError(ClientError::MethodNotFound(m))) if m == "POST"));
    assert!(verify_method(&req, "POST").is_ok());
    assert!(matches!(
        verify_method_path_end(&left, &req, "GET"),
        Err(Error::ClientError(ClientError::PathNotFound(p))) if p == "/x"
    ));
}
