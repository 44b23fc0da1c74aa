//! The OpenID-Connect authorization-code login, as a state machine: the
//! caller performs the pending step of each state against the identity
//! provider and the store, and hands the outcome back as an event.
use vstd::prelude::*;
use crate::cookies::pairs_view;
use crate::error::{ClientError, Error, InternalError};
use crate::http::{Request, Response, ResponseView};
use crate::response::{html, html_content_type, invalid_header, is_valid_header_value, valid_header_value};

verus! {

/// A name for the name/value pairs that serde_urlencoded decodes from a
/// query text, or its error message.
pub uninterp spec fn url_decoded(q: Seq<char>) -> Result<Seq<(Seq<char>, Seq<char>)>, Seq<char>>;

/// Relies on serde_urlencoded::from_str into a list of string pairs: it
/// percent-decodes the `name=value` pairs of the text in order, a function
/// of the text alone.
#[verifier::external_body]
fn decode_query(q: &str) -> (r: Result<Vec<(String, String)>, String>)
    ensures
        match url_decoded(q@) {
            Ok(p) => r matches Ok(v) && pairs_view(v@) == p,
            Err(m) => r matches Err(e) && e@ == m,
        },
{
    serde_urlencoded::from_str::<Vec<(String, String)>>(q).map_err(|e| e.to_string())
}

/// Reads the `code` and `state` fields of the callback's query pairs, after
/// those already found: unknown names are ignored, a repeated or missing
/// field is an error.
pub open spec fn scan_login_query(
    pairs: Seq<(Seq<char>, Seq<char>)>,
    code: Option<Seq<char>>,
    state: Option<Seq<char>>,
) -> Result<(Seq<char>, Seq<char>), Seq<char>>
    decreases pairs.len(),
{
    if pairs.len() == 0 {
        match (code, state) {
            (None, _) => Err("missing field `code`"@),
            (Some(_), None) => Err("missing field `state`"@),
            (Some(c), Some(s)) => Ok((c, s)),
        }
    } else if pairs[0].0 == "code"@ {
        if code is Some {
            Err("duplicate field `code`"@)
        } else {
            scan_login_query(pairs.drop_first(), Some(pairs[0].1), state)
        }
    } else if pairs[0].0 == "state"@ {
        if state is Some {
            Err("duplicate field `state`"@)
        } else {
            scan_login_query(pairs.drop_first(), code, Some(pairs[0].1))
        }
    } else {
        scan_login_query(pairs.drop_first(), code, state)
    }
}

/// The query text of a request; none counts as empty.
pub open spec fn query_text(req: Request) -> Seq<char> {
    match req.query {
        Some(q) => q@,
        None => Seq::empty(),
    }
}

/// The code and CSRF state token of the callback's query, or the decoding
/// error's message.
pub open spec fn login_query(req: Request) -> Result<(Seq<char>, Seq<char>), Seq<char>> {
    match url_decoded(query_text(req)) {
        Err(m) => Err(m),
        Ok(p) => scan_login_query(p, None, None),
    }
}

/// The code and state token of the identity provider's callback.
pub struct PostLoginQueryData {
    pub code: String,
    pub state: String,
}

/// Decodes the callback's query into its code and state token.
pub fn parse_login_query(req: &Request) -> (r: Result<PostLoginQueryData, Error>)
    ensures
        match login_query(*req) {
            Ok((c, s)) => r matches Ok(d) && d.code@ == c && d.state@ == s,
            Err(m) => r matches Err(Error::ClientError(ClientError::InvalidUrlEncoding(x))) && x@ == m,
        },
{
    let decoded = match &req.query {
        Some(q) => decode_query(q.as_str()),
        None => {
            proof {
                reveal_strlit("");
            }
            assert(""@ =~= Seq::<char>::empty());
            decode_query("")
        },
    };
    let pairs = match decoded {
        Ok(p) => p,
        Err(m) => {
            return Err(Error::ClientError(ClientError::InvalidUrlEncoding(m)));
        },
    };
    let ghost all = pairs_view(pairs@);
    let mut code: Option<String> = None;
    let mut state: Option<String> = None;
    let code_name = String::from_str("code");
    let state_name = String::from_str("state");
    let mut i: usize = 0;
    assert(all.skip(0) =~= all);
    while i < pairs.len()
        invariant
            i <= pairs@.len(),
            all == pairs_view(pairs@),
            code_name@ == "code"@,
            state_name@ == "state"@,
            url_decoded(query_text(*req)) == Ok::<_, Seq<char>>(all),
            login_query(*req) == scan_login_query(
                all.skip(i as int),
                match code { Some(c) => Some(c@), None => None },
                match state { Some(s) => Some(s@), None => None },
            ),
        decreases pairs@.len() - i,
    {
        assert(all.skip(i as int).drop_first() =~= all.skip(i + 1));
        assert(all.skip(i as int)[0] == all[i as int]);
        let name = &pairs[i].0;
        if *name == code_name {
            if code.is_some() {
                return Err(Error::ClientError(ClientError::InvalidUrlEncoding(
                    String::from_str("duplicate field `code`"),
                )));
            }
            code = Some(pairs[i].1.clone());
        } else if *name == state_name {
            if state.is_some() {
                return Err(Error::ClientError(ClientError::InvalidUrlEncoding(
                    String::from_str("duplicate field `state`"),
                )));
            }
            state = Some(pairs[i].1.clone());
        }
        i = i + 1;
    }
    assert(all.skip(i as int) =~= Seq::<(Seq<char>, Seq<char>)>::empty());
    match (code, state) {
        (None, _) => Err(Error::ClientError(ClientError::InvalidUrlEncoding(
            String::from_str("missing field `code`"),
        ))),
        (Some(_), None) => Err(Error::ClientError(ClientError::InvalidUrlEncoding(
            String::from_str("missing field `state`"),
        ))),
        (Some(c), Some(s)) => Ok(PostLoginQueryData { code: c, state: s }),
    }
}

/// A live session joined with its user, as the store returns it.
#[derive(Debug)]
pub struct SessionData {
    pub session_id: String,
    pub user_id: i64,
    pub email: String,
}

/// A character of the URL-safe alphabet that session identifiers use.
pub open spec fn session_id_char(c: char) -> bool {
    ('a' <= c && c <= 'z') || ('A' <= c && c <= 'Z') || ('0' <= c && c <= '9') || c == '_' || c == '-'
}

/// An opaque session identifier: 32 symbols of the URL-safe alphabet.
pub open spec fn is_session_id(s: Seq<char>) -> bool {
    s.len() == 32 && forall|i: int| 0 <= i < s.len() ==> session_id_char(#[trigger] s[i])
}

/// Relies on nanoid::format with nanoid's default entropy-seeded random
/// source and its URL-safe alphabet (the expansion of `nanoid!(32)`): it
/// returns 32 symbols of that alphabet. It panics if the operating system
/// has no random source to give (rand's `from_entropy`).
#[verifier::external_body]
fn new_session_id() -> (r: String)
    ensures
        is_session_id(r@),
{
    nanoid::format(nanoid::rngs::default, &nanoid::alphabet::SAFE, 32)
}

/// The `Set-Cookie` value that hands a session to the user agent.
pub open spec fn session_cookie(id: Seq<char>) -> Seq<char> {
    "session="@ + id + "; Secure; HttpOnly; SameSite=Strict"@
}

/// The page that takes the user agent back to where the login began.
pub open spec fn login_success_page() -> Seq<char> {
    LOGIN_SUCCESS_PAGE@
}

pub const LOGIN_SUCCESS_PAGE: &'static str = "<!DOCTYPE html>
<html>
  <head>
    <title>Successful login, redirecting you back</title>
    <script type=\"text/javascript\">
      history.back();
    </script>
  </head>
  <body>
    If your browser didn't redirect you, you can get back to where you were
    going by pressing the back button.
  </body>
</html>
";

/// The response that ends a successful login: the page, the session cookie,
/// and no caching.
pub open spec fn login_success_view(id: Seq<char>) -> ResponseView {
    ResponseView {
        status: 200,
        headers: seq![
            ("content-type"@, html_content_type()),
            ("set-cookie"@, session_cookie(id)),
            ("cache-control"@, "no-store"@),
        ],
        body: login_success_page(),
    }
}

proof fn lemma_session_cookie_valid(id: Seq<char>)
    requires
        is_session_id(id),
    ensures
        valid_header_value(session_cookie(id)),
{
    reveal_strlit("session=");
    reveal_strlit("; Secure; HttpOnly; SameSite=Strict");
    let a = "session="@;
    let b = "; Secure; HttpOnly; SameSite=Strict"@;
    let c = session_cookie(id);
    assert forall|i: int| 0 <= i < c.len() implies crate::response::header_value_char(#[trigger] c[i]) by {
        if i < a.len() {
            assert(c[i] == a[i]);
        } else if i < a.len() + id.len() {
            assert(c[i] == id[i - a.len()]);
            assert(session_id_char(id[i - a.len()]));
        } else {
            assert(c[i] == b[i - a.len() - id.len()]);
        }
    }
}

/// The response that ends a successful login for session `session_id`.
fn login_success(session_id: &String) -> (r: Result<Response, Error>)
    requires
        is_session_id(session_id@),
    ensures
        r matches Ok(x) && x@ == login_success_view(session_id@),
{
    let mut cookie = String::from_str("session=");
    cookie.append(session_id.as_str());
    cookie.append("; Secure; HttpOnly; SameSite=Strict");
    proof {
        lemma_session_cookie_valid(session_id@);
    }
    if !is_valid_header_value(cookie.as_str()) {
        return Err(invalid_header());
    }
    let mut r = match html(String::from_str(LOGIN_SUCCESS_PAGE)) {
        Ok(r) => r,
        Err(e) => {
            return Err(e);
        },
    };
    r.append_header("set-cookie", cookie);
    r.append_header("cache-control", String::from_str("no-store"));
    assert(r.header_seq() =~= login_success_view(session_id@).headers);
    Ok(r)
}

/// The login flow, named by the step it waits for.
pub enum LoginFlow {
    /// Look up the nonce stored under `state_token`.
    AwaitingNonce { code: String, state_token: String },
    /// Exchange `code` with the identity provider.
    AwaitingTokens { code: String, nonce: String },
    /// Verify the identity token's claims against `nonce`.
    AwaitingClaims { nonce: String },
    /// Look up the user registered under `email`.
    AwaitingUser { email: String },
    /// Store session `session_id` for `user_id`.
    AwaitingSession { session_id: String, user_id: i64 },
    /// The flow's final outcome.
    Done(Result<Response, Error>),
}

/// The outcome of a step.
pub enum LoginEvent {
    /// The nonce of the login process, if the store has one.
    NonceLookedUp(Option<String>),
    /// The provider answered the exchange, with or without an identity token.
    CodeExchanged { has_id_token: bool },
    /// The claims checked out; the email claim, if any.
    ClaimsChecked { email: Option<String> },
    /// The id of the user with the email, if there is one.
    UserLookedUp(Option<i64>),
    SessionStored,
    /// A collaborator failed.
    Fault(InternalError),
}

/// One transition of the login flow. A finished flow stays as it is; a
/// collaborator's fault ends it; an event that does not answer the pending
/// step leaves it unchanged.
pub open spec fn login_transition(s: LoginFlow, e: LoginEvent, r: LoginFlow) -> bool {
    match (s, e) {
        (LoginFlow::Done(_), _) => r == s,
        (_, LoginEvent::Fault(f)) => r == LoginFlow::Done(Err(Error::InternalError(f))),
        (LoginFlow::AwaitingNonce { code, .. }, LoginEvent::NonceLookedUp(found)) => match found {
            None => r matches LoginFlow::Done(Err(Error::ClientError(ClientError::UnknownOIDCProcess))),
            Some(n) => r == LoginFlow::AwaitingTokens { code, nonce: n },
        },
        (LoginFlow::AwaitingTokens { nonce, .. }, LoginEvent::CodeExchanged { has_id_token }) =>
            if has_id_token {
                r == LoginFlow::AwaitingClaims { nonce }
            } else {
                r matches LoginFlow::Done(Err(Error::ClientError(ClientError::OIDCGaveNoToken)))
            },
        (LoginFlow::AwaitingClaims { .. }, LoginEvent::ClaimsChecked { email }) => match email {
            None => r matches LoginFlow::Done(Err(Error::ClientError(ClientError::OIDCGaveNoEmail))),
            Some(m) => r == LoginFlow::AwaitingUser { email: m },
        },
        (LoginFlow::AwaitingUser { email }, LoginEvent::UserLookedUp(user)) => match user {
            None => r matches LoginFlow::Done(Err(Error::ClientError(ClientError::UserNotFound(x))))
                && x@ == email@,
            Some(id) => r matches LoginFlow::AwaitingSession { session_id, user_id } && user_id == id
                && is_session_id(session_id@),
        },
        (LoginFlow::AwaitingSession { session_id, .. }, LoginEvent::SessionStored) => r matches
            LoginFlow::Done(Ok(resp)) && resp@ == login_success_view(session_id@),
        _ => r == s,
    }
}

/// Every session the flow is about to store has a well-formed identifier.
pub open spec fn login_flow_wf(s: LoginFlow) -> bool {
    match s {
        LoginFlow::AwaitingSession { session_id, .. } => is_session_id(session_id@),
        _ => true,
    }
}

impl LoginFlow {
    /// Moves the flow on by the outcome of its pending step.
    pub fn advance(self, event: LoginEvent) -> (r: LoginFlow)
        requires
            login_flow_wf(self),
        ensures
            login_transition(self, event, r),
            login_flow_wf(r),
    {
        match (self, event) {
            (LoginFlow::Done(x), _) => LoginFlow::Done(x),
            (_, LoginEvent::Fault(f)) => LoginFlow::Done(Err(Error::InternalError(f))),
            (LoginFlow::AwaitingNonce { code, state_token }, LoginEvent::NonceLookedUp(found)) => match found {
                None => LoginFlow::Done(Err(Error::ClientError(ClientError::UnknownOIDCProcess))),
                Some(n) => LoginFlow::AwaitingTokens { code, nonce: n },
            },
            (LoginFlow::AwaitingTokens { code, nonce }, LoginEvent::CodeExchanged { has_id_token }) => {
                if has_id_token {
                    LoginFlow::AwaitingClaims { nonce }
                } else {
                    LoginFlow::Done(Err(Error::ClientError(ClientError::OIDCGaveNoToken)))
                }
            },
            (LoginFlow::AwaitingClaims { nonce }, LoginEvent::ClaimsChecked { email }) => match email {
                None => LoginFlow::Done(Err(Error::ClientError(ClientError::OIDCGaveNoEmail))),
                Some(m) => LoginFlow::AwaitingUser { email: m },
            },
            (LoginFlow::AwaitingUser { email }, LoginEvent::UserLookedUp(user)) => match user {
                None => LoginFlow::Done(Err(Error::ClientError(ClientError::UserNotFound(email)))),
                Some(id) => LoginFlow::AwaitingSession { session_id: new_session_id(), user_id: id },
            },
            (LoginFlow::AwaitingSession { session_id, user_id }, LoginEvent::SessionStored) => {
                LoginFlow::Done(login_success(&session_id))
            },
            (s, _) => s,
        }
    }
}

/// A login that ends in success always sets the session cookie, and the
/// cookie is a 32-symbol identifier followed by exactly the attributes
/// `Secure; HttpOnly; SameSite=Strict`.
pub proof fn lemma_login_cookie_attributes(s: LoginFlow, e: LoginEvent, r: LoginFlow)
    requires
        login_flow_wf(s),
        !(s is Done),
        login_transition(s, e, r),
        r matches LoginFlow::Done(Ok(_)),
    ensures
        r matches LoginFlow::Done(Ok(resp)) && exists|id: Seq<char>| #[trigger] is_session_id(id)
            && resp@.headers.contains(("set-cookie"@, "session="@ + id + "; Secure; HttpOnly; SameSite=Strict"@)),
{
    if let LoginFlow::AwaitingSession { session_id, .. } = s {
        if let LoginFlow::Done(Ok(resp)) = r {
            assert(resp@.headers[1] == ("set-cookie"@, session_cookie(session_id@)));
            assert(is_session_id(session_id@));
        }
    }
}

/// Begins the callback half of the login: the identity provider's code and
/// state token are read from the query, and the flow waits for the nonce
/// stored under that token.
pub fn finish_oidc_login_flow(req: &Request) -> (r: Result<LoginFlow, Error>)
    ensures
        match login_query(*req) {
            Ok((c, s)) => r matches Ok(LoginFlow::AwaitingNonce { code, state_token }) && code@ == c
                && state_token@ == s,
            Err(m) => r matches Err(Error::ClientError(ClientError::InvalidUrlEncoding(x))) && x@ == m,
        },
        r matches Ok(f) ==> login_flow_wf(f),
{
    let q = parse_login_query(req)?;
    Ok(LoginFlow::AwaitingNonce { code: q.code, state_token: q.state })
}

/// The page that starts a login, sent with no caching since the provider URL
/// in it carries a single-use state token.
pub fn start_oidc_login_flow(page: String) -> (r: Result<Response, Error>)
    ensures
        r matches Ok(x) && x@ == (ResponseView {
            status: 200,
            headers: seq![("content-type"@, html_content_type()), ("cache-control"@, "no-store"@)],
            body: page@,
        }),
{
    let mut r = match html(page) {
        Ok(r) => r,
        Err(e) => {
            return Err(e);
        },
    };
    r.append_header("cache-control", String::from_str("no-store"));
    assert(r.header_seq() =~= seq![("content-type"@, html_content_type()), ("cache-control"@, "no-store"@)]);
    Ok(r)
}

} // verus!
