//! The authenticated area: reached only with a live session, else the
//! login begins.
use vstd::prelude::*;
use crate::auth::SessionData;
use crate::cookies::{cookie_error, lookup, parse_cookies, request_cookies, pairs_view};
use crate::error::{unreadable_header_message, ClientError, Error};
use crate::http::Request;
use crate::routing::{leaf_check, verify_method_path_end, LeafCheck};
use crate::text::strings_view;

verus! {

/// What the authenticated area needs next.
pub enum SecureStep {
    /// Look up the session `session_id`; `rest` is the path left to route.
    LookupSession { session_id: String, rest: Vec<String> },
    /// No session cookie was sent: begin the login.
    StartLogin,
}

/// What the authenticated area serves once the session lookup is done.
pub enum SecurePage {
    /// No live session has that identifier: begin the login.
    StartLogin,
    /// The area's page, for the user with this email.
    Show { email: String },
}

/// Reads the session cookie of a request to the authenticated area.
pub fn route(req: &Request, path_vec: Vec<String>) -> (r: Result<SecureStep, Error>)
    ensures
        match request_cookies(*req) {
            None => r matches Err(Error::ClientError(ClientError::UnreadableHeader(m)))
                && m@ == unreadable_header_message("Cookie"@),
            Some(Err(f)) => r matches Err(e) && cookie_error(e, f),
            Some(Ok(c)) => match lookup(c, "session"@) {
                None => r matches Ok(SecureStep::StartLogin),
                Some(id) => r matches Ok(SecureStep::LookupSession { session_id, rest })
                    && session_id@ == id && rest == path_vec,
            },
        },
{
    let cookies = parse_cookies(req)?;
    match crate::cookies::cookie_value(&cookies, "session") {
        Some(id) => Ok(SecureStep::LookupSession { session_id: id, rest: path_vec }),
        None => Ok(SecureStep::StartLogin),
    }
}

/// The checks of the area's one page: the path ends here (an empty segment
/// counts as the end), and the method is GET.
pub open spec fn secure_leaf(rest: Seq<Seq<char>>, method: Seq<char>) -> LeafCheck {
    if rest.len() == 0 {
        leaf_check(rest, method, "GET"@)
    } else if rest[0].len() == 0 {
        leaf_check(rest.drop_first(), method, "GET"@)
    } else {
        LeafCheck::PathNotFound
    }
}

/// Serves the authenticated area once the session is looked up.
pub fn serve(req: &Request, path_vec: &Vec<String>, session: Option<SessionData>) -> (r: Result<
    SecurePage,
    Error,
>)
    ensures
        match session {
            None => r matches Ok(SecurePage::StartLogin),
            Some(s) => match secure_leaf(strings_view(path_vec@), req.method@) {
                LeafCheck::Pass => r matches Ok(SecurePage::Show { email }) && email@ == s.email@,
                LeafCheck::PathNotFound => r matches Err(Error::ClientError(ClientError::PathNotFound(p)))
                    && p@ == req.path@,
                LeafCheck::MethodNotFound => r matches Err(
                    Error::ClientError(ClientError::MethodNotFound(m)),
                ) && m@ == req.method@,
            },
        },
{
    let s = match session {
        None => {
            return Ok(SecurePage::StartLogin);
        },
        Some(s) => s,
    };
    let mut rest: Vec<String> = Vec::new();
    if path_vec.len() > 0 {
        if path_vec[0].unicode_len() > 0 {
            return Err(Error::path_not_found(req));
        }
        let mut i: usize = 1;
        while i < path_vec.len()
            invariant
                1 <= i <= path_vec@.len(),
                strings_view(rest@) == strings_view(path_vec@).subrange(1, i as int),
            decreases path_vec@.len() - i,
        {
            let ghost before = rest@;
            rest.push(path_vec[i].clone());
            assert(strings_view(rest@) =~= strings_view(path_vec@).subrange(1, i + 1)) by {
                assert(strings_view(rest@) =~= strings_view(before).push(path_vec@[i as int]@));
            }
            i = i + 1;
        }
        assert(strings_view(rest@) =~= strings_view(path_vec@).drop_first());
    } else {
        assert(strings_view(rest@) =~= strings_view(path_vec@));
    }
    verify_method_path_end(&rest, req, "GET")?;
    Ok(SecurePage::Show { email: s.email })
}

} // verus!
