//! The failure taxonomy and its single conversion into a response.
use vstd::prelude::*;
use crate::http::{Reply, Request, Response, ResponseView};
use crate::text::{
    decimal, int_error_message, json_string, json_quote, to_decimal, IntErrorKind,
};

verus! {

/// Faults of collaborators. Each carries the collaborator's own diagnostic
/// text, which is logged and never shown to the client.
#[derive(Debug)]
pub enum InternalError {
    Connection(String),
    InvalidHeader(String),
    Db(String),
    OIDCRequestError(String),
    TamperedOIDCLogin(String),
    RenderingError(String),
}

/// Failures caused by the caller; they are disclosed verbatim.
#[derive(Debug)]
pub enum ClientError {
    InternalError,
    PathNotFound(String),
    MethodNotFound(String),
    Unauthorized,
    Forbidden,
    PathDataBeforeRoot(String),
    UnreadableHeader(String),
    UnparseableCookie(String),
    DuplicateCookies { name: String, value: String, old_value: String },
    InvalidContentLength(String),
    InvalidContentType(String),
    InvalidJson(String),
    InvalidUrlEncoding(String),
    InvalidIndexPath(String),
    UnknownOIDCProcess,
    OIDCGaveNoToken,
    OIDCGaveNoEmail,
    UserNotFound(String),
}

/// The one failure type that crosses component boundaries.
#[derive(Debug)]
pub enum Error {
    InternalError(InternalError),
    ClientError(ClientError),
}

pub open spec fn json_content_type() -> Seq<char> {
    "application/json; charset=utf-8"@
}

/// A JSON object with one key whose value is a JSON string: `prefix` holds
/// the opening brace, the quoted key and the colon.
pub open spec fn tagged(prefix: Seq<char>, s: Seq<char>) -> Seq<char> {
    prefix + json_quote(s) + "}"@
}

/// HTTP status of a client error.
pub open spec fn client_error_status(e: ClientError) -> u16 {
    match e {
        ClientError::InternalError => 500,
        ClientError::PathNotFound(_) => 404,
        ClientError::MethodNotFound(_) => 405,
        ClientError::Unauthorized => 401,
        ClientError::Forbidden => 403,
        _ => 400,
    }
}

/// The externally tagged JSON body of a client error: the variant name is
/// the only key, the associated data (or null) its value.
pub open spec fn client_error_body(e: ClientError) -> Seq<char> {
    match e {
        ClientError::InternalError => "{\"InternalError\":null}"@,
        ClientError::PathNotFound(s) => tagged("{\"PathNotFound\":"@, s@),
        ClientError::MethodNotFound(s) => tagged("{\"MethodNotFound\":"@, s@),
        ClientError::Unauthorized => "{\"Unauthorized\":null}"@,
        ClientError::Forbidden => "{\"Forbidden\":null}"@,
        ClientError::PathDataBeforeRoot(s) => tagged("{\"PathDataBeforeRoot\":"@, s@),
        ClientError::UnreadableHeader(s) => tagged("{\"UnreadableHeader\":"@, s@),
        ClientError::UnparseableCookie(s) => tagged("{\"UnparseableCookie\":"@, s@),
        ClientError::DuplicateCookies { name, value, old_value } =>
            "{\"DuplicateCookies\":{\"name\":"@ + json_quote(name@)
            + ",\"value\":"@ + json_quote(value@)
            + ",\"old_value\":"@ + json_quote(old_value@) + "}}"@,
        ClientError::InvalidContentLength(s) => tagged("{\"InvalidContentLength\":"@, s@),
        ClientError::InvalidContentType(s) => tagged("{\"InvalidContentType\":"@, s@),
        ClientError::InvalidJson(s) => tagged("{\"InvalidJson\":"@, s@),
        ClientError::InvalidUrlEncoding(s) => tagged("{\"InvalidUrlEncoding\":"@, s@),
        ClientError::InvalidIndexPath(s) => tagged("{\"InvalidIndexPath\":"@, s@),
        ClientError::UnknownOIDCProcess => "{\"UnknownOIDCProcess\":null}"@,
        ClientError::OIDCGaveNoToken => "{\"OIDCGaveNoToken\":null}"@,
        ClientError::OIDCGaveNoEmail => "{\"OIDCGaveNoEmail\":null}"@,
        ClientError::UserNotFound(s) => tagged("{\"UserNotFound\":"@, s@),
    }
}

/// The response for a client error: its status, a JSON content type and its
/// JSON body.
pub open spec fn client_error_response(e: ClientError) -> ResponseView {
    ResponseView {
        status: client_error_status(e),
        headers: seq![("content-type"@, json_content_type())],
        body: client_error_body(e),
    }
}

/// The response for any error; internal ones all get the same generic body.
pub open spec fn error_response(e: Error) -> ResponseView {
    match e {
        Error::InternalError(_) => client_error_response(ClientError::InternalError),
        Error::ClientError(c) => client_error_response(c),
    }
}

fn tagged_body(prefix: &str, s: &String) -> (r: String)
    ensures
        r@ == tagged(prefix@, s@),
{
    let mut r = String::from_str(prefix);
    let q = json_string(s.as_str());
    r.append(q.as_str());
    r.append("}");
    r
}

fn json_response(status: u16, body: String) -> (r: Response)
    ensures
        r@ == (ResponseView {
            status,
            headers: seq![("content-type"@, json_content_type())],
            body: body@,
        }),
{
    let mut r = Response::new(status, body);
    r.append_header("content-type", String::from_str("application/json; charset=utf-8"));
    assert(r.header_seq() =~= seq![("content-type"@, json_content_type())]);
    r
}

impl ClientError {
    /// The JSON body of this error.
    pub fn body(&self) -> (r: String)
        ensures
            r@ == client_error_body(*self),
    {
        match self {
            ClientError::InternalError => String::from_str("{\"InternalError\":null}"),
            ClientError::PathNotFound(s) => tagged_body("{\"PathNotFound\":", s),
            ClientError::MethodNotFound(s) => tagged_body("{\"MethodNotFound\":", s),
            ClientError::Unauthorized => String::from_str("{\"Unauthorized\":null}"),
            ClientError::Forbidden => String::from_str("{\"Forbidden\":null}"),
            ClientError::PathDataBeforeRoot(s) => tagged_body("{\"PathDataBeforeRoot\":", s),
            ClientError::UnreadableHeader(s) => tagged_body("{\"UnreadableHeader\":", s),
            ClientError::UnparseableCookie(s) => tagged_body("{\"UnparseableCookie\":", s),
            ClientError::DuplicateCookies { name, value, old_value } => {
                let mut r = String::from_str("{\"DuplicateCookies\":{\"name\":");
                r.append(json_string(name.as_str()).as_str());
                r.append(",\"value\":");
                r.append(json_string(value.as_str()).as_str());
                r.append(",\"old_value\":");
                r.append(json_string(old_value.as_str()).as_str());
                r.append("}}");
                r
            },
            ClientError::InvalidContentLength(s) => tagged_body("{\"InvalidContentLength\":", s),
            ClientError::InvalidContentType(s) => tagged_body("{\"InvalidContentType\":", s),
            ClientError::InvalidJson(s) => tagged_body("{\"InvalidJson\":", s),
            ClientError::InvalidUrlEncoding(s) => tagged_body("{\"InvalidUrlEncoding\":", s),
            ClientError::InvalidIndexPath(s) => tagged_body("{\"InvalidIndexPath\":", s),
            ClientError::UnknownOIDCProcess => String::from_str("{\"UnknownOIDCProcess\":null}"),
            ClientError::OIDCGaveNoToken => String::from_str("{\"OIDCGaveNoToken\":null}"),
            ClientError::OIDCGaveNoEmail => String::from_str("{\"OIDCGaveNoEmail\":null}"),
            ClientError::UserNotFound(s) => tagged_body("{\"UserNotFound\":", s),
        }
    }

    /// The HTTP status of this error.
    pub fn status(&self) -> (r: u16)
        ensures
            r == client_error_status(*self),
    {
        match self {
            ClientError::InternalError => 500,
            ClientError::PathNotFound(_) => 404,
            ClientError::MethodNotFound(_) => 405,
            ClientError::Unauthorized => 401,
            ClientError::Forbidden => 403,
            _ => 400,
        }
    }
}

impl Reply for ClientError {
    open spec fn reply(self) -> ResponseView {
        client_error_response(self)
    }

    fn into_response(self) -> (r: Response) {
        let status = self.status();
        let body = self.body();
        json_response(status, body)
    }
}

impl InternalError {
    /// The diagnostic line for the operator log: the fault's kind and its
    /// collaborator's text.
    pub fn describe(&self) -> (r: String)
        ensures
            r@ == internal_error_line(*self),
    {
        let (kind, detail) = match self {
            InternalError::Connection(d) => ("Connection(", d),
            InternalError::InvalidHeader(d) => ("InvalidHeader(", d),
            InternalError::Db(d) => ("Db(", d),
            InternalError::OIDCRequestError(d) => ("OIDCRequestError(", d),
            InternalError::TamperedOIDCLogin(d) => ("TamperedOIDCLogin(", d),
            InternalError::RenderingError(d) => ("RenderingError(", d),
        };
        let mut r = String::from_str(kind);
        r.append(detail.as_str());
        r.append(")");
        r
    }
}

/// The log line of an internal error.
pub open spec fn internal_error_line(e: InternalError) -> Seq<char> {
    match e {
        InternalError::Connection(d) => "Connection("@ + d@ + ")"@,
        InternalError::InvalidHeader(d) => "InvalidHeader("@ + d@ + ")"@,
        InternalError::Db(d) => "Db("@ + d@ + ")"@,
        InternalError::OIDCRequestError(d) => "OIDCRequestError("@ + d@ + ")"@,
        InternalError::TamperedOIDCLogin(d) => "TamperedOIDCLogin("@ + d@ + ")"@,
        InternalError::RenderingError(d) => "RenderingError("@ + d@ + ")"@,
    }
}

impl Reply for InternalError {
    open spec fn reply(self) -> ResponseView {
        client_error_response(ClientError::InternalError)
    }

    fn into_response(self) -> (r: Response) {
        ClientError::InternalError.into_response()
    }
}

impl Reply for Error {
    open spec fn reply(self) -> ResponseView {
        error_response(self)
    }

    fn into_response(self) -> (r: Response) {
        match self {
            Error::InternalError(e) => e.into_response(),
            Error::ClientError(e) => e.into_response(),
        }
    }
}

impl Error {
    /// The line to write to the operator log before this error is answered:
    /// internal faults are logged, client errors are not.
    pub fn log_line(&self) -> (r: Option<String>)
        ensures
            match *self {
                Error::InternalError(e) => r is Some && r->0@ == internal_error_line(e),
                Error::ClientError(_) => r is None,
            },
    {
        match self {
            Error::InternalError(e) => Some(e.describe()),
            Error::ClientError(_) => None,
        }
    }
}

impl From<ClientError> for Error {
    fn from(e: ClientError) -> (r: Error) {
        Error::ClientError(e)
    }
}

impl vstd::std_specs::convert::FromSpecImpl<ClientError> for Error {
    open spec fn obeys_from_spec() -> bool {
        true
    }

    open spec fn from_spec(e: ClientError) -> Error {
        Error::ClientError(e)
    }
}

impl From<InternalError> for Error {
    fn from(e: InternalError) -> (r: Error) {
        Error::InternalError(e)
    }
}

impl vstd::std_specs::convert::FromSpecImpl<InternalError> for Error {
    open spec fn obeys_from_spec() -> bool {
        true
    }

    open spec fn from_spec(e: InternalError) -> Error {
        Error::InternalError(e)
    }
}

/// The message of a content length that does not match what was received.
pub open spec fn mismatch_message(given: nat, promised: nat) -> Seq<char> {
    "Mismatch. Header is "@ + decimal(promised) + ", received "@
        + (if given > promised { " at least"@ } else { ""@ }) + " "@ + decimal(given)
}

/// The message of a content length above the maximum.
pub open spec fn too_large_message(parsed: nat, max: nat) -> Seq<char> {
    "Too large. Maximum allowed is "@ + decimal(max) + ", received "@ + decimal(parsed)
}

/// The message of a header whose value is not visible ASCII text.
pub open spec fn unreadable_header_message(header: Seq<char>) -> Seq<char> {
    "Error reading header "@ + header + ": failed to convert header to a str"@
}

impl Error {
    pub fn path_data_before_root(data: String) -> (r: Error)
        ensures
            r == Error::ClientError(ClientError::PathDataBeforeRoot(data)),
    {
        Error::ClientError(ClientError::PathDataBeforeRoot(data))
    }

    /// The requested path was not found.
    pub fn path_not_found(req: &Request) -> (r: Error)
        ensures
            r matches Error::ClientError(ClientError::PathNotFound(p)) && p@ == req.path@,
    {
        Error::ClientError(ClientError::PathNotFound(req.path.clone()))
    }

    /// The requested path does not take the request's method.
    pub fn method_not_found(req: &Request) -> (r: Error)
        ensures
            r matches Error::ClientError(ClientError::MethodNotFound(m)) && m@ == req.method@,
    {
        Error::ClientError(ClientError::MethodNotFound(req.method.clone()))
    }

    pub fn unauthorized() -> (r: Error)
        ensures
            r == Error::ClientError(ClientError::Unauthorized),
    {
        Error::ClientError(ClientError::Unauthorized)
    }

    pub fn forbidden() -> (r: Error)
        ensures
            r == Error::ClientError(ClientError::Forbidden),
    {
        Error::ClientError(ClientError::Forbidden)
    }

    /// The value of header `header` is not visible ASCII text.
    pub fn unreadable_header(header: &str) -> (r: Error)
        ensures
            r matches Error::ClientError(ClientError::UnreadableHeader(m))
                && m@ == unreadable_header_message(header@),
    {
        let mut m = String::from_str("Error reading header ");
        m.append(header);
        m.append(": failed to convert header to a str");
        Error::ClientError(ClientError::UnreadableHeader(m))
    }

    pub fn unparseable_cookie(cookie_data: &str) -> (r: Error)
        ensures
            r matches Error::ClientError(ClientError::UnparseableCookie(c)) && c@ == cookie_data@,
    {
        Error::ClientError(ClientError::UnparseableCookie(String::from_str(cookie_data)))
    }

    /// Cookie `name` was sent twice, with `old_value` and then `value`.
    pub fn duplicate_cookies(name: &str, value: &str, old_value: &str) -> (r: Error)
        ensures
            r matches Error::ClientError(ClientError::DuplicateCookies { name: n, value: v, old_value: o })
                && n@ == name@ && v@ == value@ && o@ == old_value@,
    {
        Error::ClientError(ClientError::DuplicateCookies {
            name: String::from_str(name),
            value: String::from_str(value),
            old_value: String::from_str(old_value),
        })
    }

    pub fn content_length_missing() -> (r: Error)
        ensures
            r matches Error::ClientError(ClientError::InvalidContentLength(m))
                && m@ == "No content length given"@,
    {
        Error::ClientError(ClientError::InvalidContentLength(String::from_str("No content length given")))
    }

    /// The content length is not an unsigned integer, for the given reason.
    pub fn content_length_not_int(err: IntErrorKind) -> (r: Error)
        ensures
            r matches Error::ClientError(ClientError::InvalidContentLength(m))
                && m@ == "Invalid unsigned int: "@ + int_error_message(err),
    {
        let mut m = String::from_str("Invalid unsigned int: ");
        match err {
            IntErrorKind::Empty => m.append("cannot parse integer from empty string"),
            IntErrorKind::InvalidDigit => m.append("invalid digit found in string"),
            IntErrorKind::PosOverflow => m.append("number too large to fit in target type"),
        }
        Error::ClientError(ClientError::InvalidContentLength(m))
    }

    pub fn content_length_too_large(parsed: usize, max: usize) -> (r: Error)
        ensures
            r matches Error::ClientError(ClientError::InvalidContentLength(m))
                && m@ == too_large_message(parsed as nat, max as nat),
    {
        let mut m = String::from_str("Too large. Maximum allowed is ");
        m.append(to_decimal(max).as_str());
        m.append(", received ");
        m.append(to_decimal(parsed).as_str());
        Error::ClientError(ClientError::InvalidContentLength(m))
    }

    /// `given` bytes arrived (at least, if more than promised) where the
    /// header promised `promised`.
    pub fn content_length_mismatch(given: usize, promised: usize) -> (r: Error)
        ensures
            r matches Error::ClientError(ClientError::InvalidContentLength(m))
                && m@ == mismatch_message(given as nat, promised as nat),
    {
        let at_least = if given > promised { " at least" } else { "" };
        let mut m = String::from_str("Mismatch. Header is ");
        m.append(to_decimal(promised).as_str());
        m.append(", received ");
        m.append(at_least);
        m.append(" ");
        m.append(to_decimal(given).as_str());
        Error::ClientError(ClientError::InvalidContentLength(m))
    }

    pub fn invalid_content_type(parsed: &str, expected: &str) -> (r: Error)
        ensures
            r matches Error::ClientError(ClientError::InvalidContentType(m))
                && m@ == "Expected "@ + parsed@ + ", received "@ + expected@,
    {
        let mut m = String::from_str("Expected ");
        m.append(parsed);
        m.append(", received ");
        m.append(expected);
        Error::ClientError(ClientError::InvalidContentType(m))
    }
}

} // verus!
