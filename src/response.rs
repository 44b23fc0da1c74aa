//! Response constructors.
use vstd::prelude::*;
use crate::error::{Error, InternalError};
use crate::http::{Response, ResponseView};

verus! {

/// A character that may stand in a header value.
pub open spec fn header_value_char(c: char) -> bool {
    (c as u32 >= 32 && c as u32 != 127) || c == '\t'
}

pub open spec fn valid_header_value(s: Seq<char>) -> bool {
    forall|i: int| 0 <= i < s.len() ==> header_value_char(#[trigger] s[i])
}

/// Relies on hyper's `HeaderValue::from_str`, which accepts a text exactly
/// when each of its UTF-8 bytes is a tab or at least 32 and not 127; every
/// byte of a character past ASCII is at least 128.
#[verifier::external_body]
pub(crate) fn is_valid_header_value(s: &str) -> (r: bool)
    ensures
        r == valid_header_value(s@),
{
    hyper::header::HeaderValue::from_str(s).is_ok()
}

/// The fault of a header value that the HTTP layer refuses.
pub fn invalid_header() -> (r: Error)
    ensures
        r matches Error::InternalError(InternalError::InvalidHeader(d)) && d@ == "InvalidHeaderValue"@,
{
    Error::InternalError(InternalError::InvalidHeader(String::from_str("InvalidHeaderValue")))
}

pub open spec fn html_content_type() -> Seq<char> {
    "text/html; charset=utf-8"@
}

/// The response that `html` gives for a body.
pub open spec fn html_view(body: Seq<char>) -> ResponseView {
    ResponseView { status: 200, headers: seq![("content-type"@, html_content_type())], body }
}

/// An empty success response (204).
pub fn empty() -> (r: Result<Response, Error>)
    ensures
        r matches Ok(x) && x@ == (ResponseView { status: 204, headers: Seq::empty(), body: Seq::empty() }),
{
    let r = Response::new(204, String::new());
    Ok(r)
}

/// An empty not-modified response (304), for conditional requests.
pub fn not_modified() -> (r: Result<Response, Error>)
    ensures
        r matches Ok(x) && x@ == (ResponseView { status: 304, headers: Seq::empty(), body: Seq::empty() }),
{
    let r = Response::new(304, String::new());
    Ok(r)
}

/// The given text as an HTML page.
pub fn html(data: String) -> (r: Result<Response, Error>)
    ensures
        r matches Ok(x) && x@ == html_view(data@),
{
    let mut r = Response::new(200, data);
    r.append_header("content-type", String::from_str("text/html; charset=utf-8"));
    assert(r.header_seq() =~= seq![("content-type"@, html_content_type())]);
    Ok(r)
}

/// Sends the client to `target` with a GET (303). A target that cannot be a
/// header value is an internal fault.
pub fn redirect(target: &str) -> (r: Result<Response, Error>)
    ensures
        valid_header_value(target@) ==> (r matches Ok(x) && x@ == (ResponseView {
            status: 303,
            headers: seq![("location"@, target@)],
            body: Seq::empty(),
        })),
        !valid_header_value(target@) ==> (r matches Err(Error::InternalError(InternalError::InvalidHeader(_)))),
{
    if !is_valid_header_value(target) {
        return Err(invalid_header());
    }
    let mut r = Response::new(303, String::new());
    r.append_header("location", String::from_str(target));
    assert(r.header_seq() =~= seq![("location"@, target@)]);
    Ok(r)
}

/// The given text as a stylesheet.
pub fn css(data: &str) -> (r: Result<Response, Error>)
    ensures
        r matches Ok(x) && x@ == (ResponseView {
            status: 200,
            headers: seq![("content-type"@, "text/css; charset=utf-8"@)],
            body: data@,
        }),
{
    let mut r = Response::new(200, String::from_str(data));
    r.append_header("content-type", String::from_str("text/css; charset=utf-8"));
    assert(r.header_seq() =~= seq![("content-type"@, "text/css; charset=utf-8"@)]);
    Ok(r)
}

/// A JSON text, already serialized, as a response.
pub fn json(data: String) -> (r: Result<Response, Error>)
    ensures
        r matches Ok(x) && x@ == (ResponseView {
            status: 200,
            headers: seq![("content-type"@, "application/json; charset=utf-8"@)],
            body: data@,
        }),
{
    let mut r = Response::new(200, data);
    r.append_header("content-type", String::from_str("application/json; charset=utf-8"));
    assert(r.header_seq() =~= seq![("content-type"@, "application/json; charset=utf-8"@)]);
    Ok(r)
}

/// Sets the status of a successful response; an error stays as it is.
pub fn set_status(re: Result<Response, Error>, status: u16) -> (r: Result<Response, Error>)
    ensures
        match re {
            Ok(x) => r matches Ok(y) && y@ == (ResponseView { status, ..x@ }),
            Err(e) => r == Err::<Response, Error>(e),
        },
{
    match re {
        Ok(mut x) => {
            x.status = status;
            Ok(x)
        },
        Err(e) => Err(e),
    }
}

/// Appends a header to a successful response; an error stays as it is.
pub fn add_header(re: Result<Response, Error>, header: &str, value: String) -> (r: Result<
    Response,
    Error,
>)
    ensures
        match re {
            Ok(x) => r matches Ok(y) && y@ == (ResponseView {
                headers: x@.headers.push((header@, value@)),
                ..x@
            }),
            Err(e) => r == Err::<Response, Error>(e),
        },
{
    match re {
        Ok(mut x) => {
            x.append_header(header, value);
            Ok(x)
        },
        Err(e) => Err(e),
    }
}

} // verus!
