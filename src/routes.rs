//! The top-level router.
use vstd::prelude::*;
use crate::auth::{finish_oidc_login_flow, login_flow_wf, login_query, LoginFlow};
use crate::cookies::{cookie_error, lookup, request_cookies};
use crate::error::{error_response, unreadable_header_message, ClientError, Error};
use crate::http::Request;
use crate::routing::{leaf_check, split_path, verify_method_path_end, LeafCheck};
use crate::secure::SecureStep;
use crate::text::{before_first, json_quote, lemma_split_first, split_spec, strings_view};

verus! {

/// Where routing sends a request.
pub enum Route {
    /// The landing page.
    Index,
    /// The identity provider's callback, with the login flow it resumes.
    PostLogin(LoginFlow),
    /// The authenticated area.
    Secure(SecureStep),
}

/// What the path and method alone decide.
pub enum RouteDecision {
    /// Text before the leading `/`.
    BeforeRoot(Seq<char>),
    NotFound,
    WrongMethod,
    Index,
    PostLogin,
    /// The authenticated area, with the segments left after it.
    Secure(Seq<Seq<char>>),
}

/// The segment after the leading `/`; none counts as empty.
pub open spec fn next_segment(segs: Seq<Seq<char>>) -> Seq<char> {
    if segs.len() > 1 { segs[1] } else { Seq::empty() }
}

/// The segments after the one that picks the route.
pub open spec fn path_rest(segs: Seq<Seq<char>>) -> Seq<Seq<char>> {
    if segs.len() > 2 { segs.skip(2) } else { Seq::empty() }
}

pub open spec fn leaf_decision(rest: Seq<Seq<char>>, method: Seq<char>, d: RouteDecision) -> RouteDecision {
    match leaf_check(rest, method, "GET"@) {
        LeafCheck::PathNotFound => RouteDecision::NotFound,
        LeafCheck::MethodNotFound => RouteDecision::WrongMethod,
        LeafCheck::Pass => d,
    }
}

/// Routing by path and method: the text before the first `/` must be empty;
/// the next segment picks the landing page (empty or `index.html`), the
/// login callback, or the authenticated area; anything else is not found.
/// The landing page and the callback are leaves served to GET only.
pub open spec fn route_decision(path: Seq<char>, method: Seq<char>) -> RouteDecision {
    let segs = split_spec(path, '/');
    if segs[0].len() > 0 {
        RouteDecision::BeforeRoot(segs[0])
    } else {
        let next = next_segment(segs);
        let rest = path_rest(segs);
        if next.len() == 0 || next == "index.html"@ {
            leaf_decision(rest, method, RouteDecision::Index)
        } else if next == "post-login"@ {
            leaf_decision(rest, method, RouteDecision::PostLogin)
        } else if next == "secure"@ {
            RouteDecision::Secure(rest)
        } else {
            RouteDecision::NotFound
        }
    }
}

/// The outcome of routing `req`, as far as the router decides it.
pub open spec fn route_outcome(req: Request, r: Result<Route, Error>) -> bool {
    match route_decision(req.path@, req.method@) {
        RouteDecision::BeforeRoot(d) => r matches Err(
            Error::ClientError(ClientError::PathDataBeforeRoot(x)),
        ) && x@ == d,
        RouteDecision::NotFound => r matches Err(Error::ClientError(ClientError::PathNotFound(p)))
            && p@ == req.path@,
        RouteDecision::WrongMethod => r matches Err(Error::ClientError(ClientError::MethodNotFound(m)))
            && m@ == req.method@,
        RouteDecision::Index => r matches Ok(Route::Index),
        RouteDecision::PostLogin => match login_query(req) {
            Ok((c, s)) => r matches Ok(Route::PostLogin(LoginFlow::AwaitingNonce { code, state_token }))
                && code@ == c && state_token@ == s,
            Err(m) => r matches Err(Error::ClientError(ClientError::InvalidUrlEncoding(x))) && x@ == m,
        },
        RouteDecision::Secure(rest) => match request_cookies(req) {
            None => r matches Err(Error::ClientError(ClientError::UnreadableHeader(m)))
                && m@ == unreadable_header_message("Cookie"@),
            Some(Err(f)) => r matches Err(e) && cookie_error(e, f),
            Some(Ok(c)) => match lookup(c, "session"@) {
                None => r matches Ok(Route::Secure(SecureStep::StartLogin)),
                Some(id) => r matches Ok(Route::Secure(SecureStep::LookupSession { session_id, rest: v }))
                    && session_id@ == id && strings_view(v@) == rest,
            },
        },
    }
}

/// Routes a request by its path and method.
pub fn route(req: &Request) -> (r: Result<Route, Error>)
    ensures
        route_outcome(*req, r),
        r matches Ok(Route::PostLogin(f)) ==> login_flow_wf(f),
{
    let segs = split_path(req.path.as_str());
    let ghost sv = split_spec(req.path@, '/');
    proof {
        crate::text::lemma_split_len(req.path@, '/');
    }
    if segs[0].unicode_len() > 0 {
        return Err(Error::path_data_before_root(segs[0].clone()));
    }
    let next = if segs.len() > 1 { segs[1].clone() } else { String::new() };
    let mut rest: Vec<String> = Vec::new();
    let mut i: usize = 2;
    while i < segs.len()
        invariant
            2 <= i,
            i <= segs@.len() || segs@.len() < 2,
            strings_view(segs@) == sv,
            strings_view(rest@) == (if segs@.len() >= 2 { sv.subrange(2, i as int) } else { Seq::empty() }),
        decreases segs@.len() - i,
    {
        let ghost before = rest@;
        rest.push(segs[i].clone());
        assert(strings_view(rest@) =~= strings_view(before).push(segs@[i as int]@));
        assert(sv.subrange(2, i + 1) =~= sv.subrange(2, i as int).push(sv[i as int]));
        i = i + 1;
    }
    assert(strings_view(rest@) =~= path_rest(sv));
    let index = String::from_str("index.html");
    let post_login = String::from_str("post-login");
    let secure = String::from_str("secure");
    if next.unicode_len() == 0 || next == index {
        verify_method_path_end(&rest, req, "GET")?;
        Ok(Route::Index)
    } else if next == post_login {
        verify_method_path_end(&rest, req, "GET")?;
        let flow = finish_oidc_login_flow(req)?;
        Ok(Route::PostLogin(flow))
    } else if next == secure {
        let step = crate::secure::route(req, rest)?;
        Ok(Route::Secure(step))
    } else {
        Err(Error::path_not_found(req))
    }
}

/// Any text before the first `/` of a path (the whole path, if it has no
/// `/`) makes the path malformed, and the error carries that text.
pub proof fn lemma_data_before_root(path: Seq<char>, method: Seq<char>)
    requires
        before_first(path, '/').len() > 0,
    ensures
        route_decision(path, method) == RouteDecision::BeforeRoot(before_first(path, '/')),
{
    lemma_split_first(path, '/');
}

/// A path that starts with `/` and names no resource: its first segment
/// is none of the known ones, or it names a leaf and goes on past it.
pub open spec fn unknown_leaf_path(path: Seq<char>) -> bool {
    let segs = split_spec(path, '/');
    let next = next_segment(segs);
    let leaf = next.len() == 0 || next == "index.html"@ || next == "post-login"@;
    segs[0].len() == 0 && ((!leaf && next != "secure"@) || (leaf && path_rest(segs).len() > 0))
}

/// An unknown path is answered with 404 and the path as the JSON payload
/// of `PathNotFound`, whatever the method.
pub proof fn lemma_unknown_path_response(req: Request, r: Result<Route, Error>)
    requires
        route_outcome(req, r),
        unknown_leaf_path(req.path@),
    ensures
        r matches Err(e) && error_response(e).status == 404
            && error_response(e).body == "{\"PathNotFound\":"@ + json_quote(req.path@) + "}"@,
{
}

/// A path that names one of the leaves served to GET, and ends there.
pub open spec fn get_leaf_path(path: Seq<char>) -> bool {
    let segs = split_spec(path, '/');
    let next = next_segment(segs);
    segs[0].len() == 0 && (next.len() == 0 || next == "index.html"@ || next == "post-login"@)
        && path_rest(segs).len() == 0
}

/// A known leaf asked with another method than GET is answered with 405
/// and the method as the JSON payload of `MethodNotFound`.
pub proof fn lemma_wrong_method_response(req: Request, r: Result<Route, Error>)
    requires
        route_outcome(req, r),
        get_leaf_path(req.path@),
        req.method@ != "GET"@,
    ensures
        r matches Err(e) && error_response(e).status == 405
            && error_response(e).body == "{\"MethodNotFound\":"@ + json_quote(req.method@) + "}"@,
{
}

} // verus!
