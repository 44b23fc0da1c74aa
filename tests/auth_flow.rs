use web_backend::auth::{finish_oidc_login_flow, LoginEvent, LoginFlow, SessionData};
use web_backend::error::{ClientError, Error, InternalError};
use web_backend::http::{Reply, Request, Response};
use web_backend::routes::{route, Route};
use web_backend::secure::{serve, SecurePage, SecureStep};

fn request(method: &str, path: &str, query: Option<&str>, headers: &[(&str, &[u8])]) -> Request {
    Request {
        method: method.to_string(),
        path: path.to_string(),
        query: query.map(|q| q.to_string()),
        headers: headers.iter().map(|(n, v)| (n.to_string(), v.to_vec())).collect(),
    }
}

fn header<'a>(r: &'a Response, name: &str) -> Option<&'a str> {
    r.headers.iter().find(|(n, _)| n == name).map(|(_, v)| v.as_str())
}

fn callback(code: &str, state: &str) -> LoginFlow {
    let req = request("GET", "/post-login", Some(&format!("code={}&state={}", code, state)), &[]);
    match route(&req) {
        Ok(Route::PostLogin(flow)) => flow,
        _ => panic!("expected the login flow"),
    }
}

fn finished(flow: LoginFlow) -> Result<Response, Error> {
    match flow {
        LoginFlow::Done(r) => r,
        _ => panic!("flow not finished"),
    }
}

fn run_to_session(email: &str) -> LoginFlow {
    let flow = callback("abc", "tok");
    let flow = flow.advance(LoginEvent::NonceLookedUp(Some("n1".to_string())));
    match &flow {
        LoginFlow::AwaitingTokens { code, nonce } => {
            assert_eq!(code, "abc");
            assert_eq!(nonce, "n1");
        },
        _ => panic!("expected the code exchange"),
    }
    let flow = flow.advance(LoginEvent::CodeExchanged { has_id_token: true });
    assert!(matches!(&flow, LoginFlow::AwaitingClaims { nonce } if nonce == "n1"));
    let flow = flow.advance(LoginEvent::ClaimsChecked { email: Some(email.to_string()) });
    assert!(matches!(&flow, LoginFlow::AwaitingUser { email: e } if e == email));
    flow.advance(LoginEvent::UserLookedUp(Some(7)))
}

#[test]
fn unknown_login_process_is_client_error() {
    let flow = callback("abc", "unknown-token");
    assert!(matches!(&flow, LoginFlow::AwaitingNonce { state_token, .. } if state_token == "unknown-token"));
    let r = finished(flow.advance(LoginEvent::NonceLookedUp(None))).into_response();
    assert_eq!(r.status, 400);
    assert_eq!(r.body, "{\"UnknownOIDCProcess\":null}");
}

#[test]
fn tampered_claims_are_internal_error() {
    let flow = callback("abc", "valid");
    let flow = flow.advance(LoginEvent::NonceLookedUp(Some("n".to_string())));
    let flow = flow.advance(LoginEvent::CodeExchanged { has_id_token: true });
    let flow = flow.advance(LoginEvent::Fault(InternalError::TamperedOIDCLogin("nonce mismatch".to_string())));
    let err = finished(flow).err().expect("an error");
    assert_eq!(err.log_line(), Some("TamperedOIDCLogin(nonce mismatch)".to_string()));
    let r = err.into_response();
    assert_eq!(r.status, 500);
    assert_eq!(r.body, "{\"InternalError\":null}");
}

#[test]
fn missing_token_email_or_user() {
    let flow = callback("c", "s").advance(LoginEvent::NonceLookedUp(Some("n".to_string())));
    let r = finished(flow.advance(LoginEvent::CodeExchanged { has_id_token: false })).into_response();
    assert_eq!((r.status, r.body.as_str()), (400, "{\"OIDCGaveNoToken\":null}"));

    let flow = callback("c", "s")
        .advance(LoginEvent::NonceLookedUp(Some("n".to_string())))
        .advance(LoginEvent::CodeExchanged { has_id_token: true });
    let r = finished(flow.advance(LoginEvent::ClaimsChecked { email: None })).into_response();
    assert_eq!((r.status, r.body.as_str()), (400, "{\"OIDCGaveNoEmail\":null}"));

    let flow = callback("c", "s")
        .advance(LoginEvent::NonceLookedUp(Some("n".to_string())))
        .advance(LoginEvent::CodeExchanged { has_id_token: true })
        .advance(LoginEvent::ClaimsChecked { email: Some("x@y.z".to_string()) });
    let r = finished(flow.advance(LoginEvent::UserLookedUp(None))).into_response();
    assert_eq!((r.status, r.body.as_str()), (400, "{\"UserNotFound\":\"x@y.z\"}"));
}

#[test]
fn session_ids_are_32_url_safe_symbols() {
    let flow = run_to_session("a@b.c");
    match flow {
        LoginFlow::AwaitingSession { session_id, user_id } => {
            assert_eq!(user_id, 7);
            assert_eq!(session_id.chars().count(), 32);
            assert!(session_id.chars().all(|c| c.is_ascii_alphanumeric() || c == '_' || c == '-'));
        },
        _ => panic!("expected the session to be stored"),
    }
}

#[test]
fn successful_login_sets_session_cookie() {
    let flow = run_to_session("user@example.com");
    let id = match &flow {
        LoginFlow::AwaitingSession { session_id, .. } => session_id.clone(),
        _ => panic!("expected the session to be stored"),
    };
    let r = finished(flow.advance(LoginEvent::SessionStored)).ok().expect("a response");
    assert_eq!(r.status, 200);
    let cookie = header(&r, "set-cookie").expect("a cookie");
    assert_eq!(cookie, format!("session={}; Secure; HttpOnly; SameSite=Strict", id));
    assert_eq!(header(&r, "cache-control"), Some("no-store"));
    assert!(r.body.contains("history.back();"));

    // the user agent comes back with the cookie
    let cookie_header = format!("session={}", id);
    let req = request("GET", "/secure", None, &[("cookie", cookie_header.as_bytes())]);
    let rest = match route(&req) {
        Ok(Route::Secure(SecureStep::LookupSession { session_id, rest })) => {
            assert_eq!(session_id, id);
            rest
        },
        _ => panic!("expected a session lookup"),
    };
    let session = SessionData { session_id: id, user_id: 7, email: "user@example.com".to_string() };
    match serve(&req, &rest, Some(session)) {
        Ok(SecurePage::Show { email }) => assert_eq!(email, "user@example.com"),
        _ => panic!("expected the page"),
    }
}

#[test]
fn stale_session_starts_login() {
    let req = request("GET", "/secure", None, &[("cookie", b"session=gone")]);
    assert!(matches!(serve(&req, &vec![], None), Ok(SecurePage::StartLogin)));
}

#[test]
fn secure_area_checks_path_and_method() {
    let session = || Some(SessionData { session_id: "s".to_string(), user_id: 1, email: "e".to_string() });
    let req = request("GET", "/secure/other", None, &[]);
    assert!(matches!(
        serve(&req, &vec!["other".to_string()], session()),
        Err(Error::ClientError(ClientError::PathNotFound(p))) if p == "/secure/other"
    ));
    let req = request("POST", "/secure", None, &[]);
    let r = serve(&req, &vec![], session()).err().expect("an error").into_response();
    assert_eq!((r.status, r.body.as_str()), (405, "{\"MethodNotFound\":\"POST\"}"));
    let req = request("GET", "/secure/", None, &[]);
    assert!(matches!(serve(&req, &vec!["".to_string()], session()), Ok(SecurePage::Show { .. })));
}

#[test]
fn finished_flow_ignores_further_events() {
    let flow = callback("c", "s").advance(LoginEvent::NonceLookedUp(None));
    let flow = flow.advance(LoginEvent::SessionStored);
    assert!(matches!(finished(flow), Err(Error::ClientError(ClientError::UnknownOIDCProcess))));
}

#[test]
fn mismatched_event_leaves_flow_waiting() {
    let flow = callback("c", "s").advance(LoginEvent::SessionStored);
    assert!(matches!(flow, LoginFlow::AwaitingNonce { .. }));
}

#[test]
fn finish_reads_query() {
    let req = request("GET", "/post-login", Some("state=t&code=k"), &[]);
    match finish_oidc_login_flow(&req) {
        Ok(LoginFlow::AwaitingNonce { code, state_token }) => {
            assert_eq!(code, "k");
            assert_eq!(state_token, "t");
        },
        _ => panic!("expected the flow"),
    }
}
