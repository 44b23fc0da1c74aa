//! The HTTP messages as the library sees them, and the conversion of any
//! outcome into a response.
use vstd::prelude::*;

verus! {

/// An inbound request: method, path, query string and headers. Header names
/// are lower case, as HTTP libraries hand them out; values are raw bytes.
#[derive(Debug)]
pub struct Request {
    pub method: String,
    pub path: String,
    pub query: Option<String>,
    pub headers: Vec<(String, Vec<u8>)>,
}

/// An outbound response: status code, headers in order, body text.
#[derive(Debug)]
pub struct Response {
    pub status: u16,
    pub headers: Vec<(String, String)>,
    pub body: String,
}

/// The mathematical content of a response.
pub struct ResponseView {
    pub status: u16,
    pub headers: Seq<(Seq<char>, Seq<char>)>,
    pub body: Seq<char>,
}

/// The headers of a response as (name, value) texts.
pub open spec fn headers_view(h: Seq<(String, String)>) -> Seq<(Seq<char>, Seq<char>)> {
    h.map_values(|p: (String, String)| (p.0@, p.1@))
}

impl View for Response {
    type V = ResponseView;

    open spec fn view(&self) -> ResponseView {
        ResponseView { status: self.status, headers: self.header_seq(), body: self.body@ }
    }
}

impl Response {
    pub open spec fn header_seq(&self) -> Seq<(Seq<char>, Seq<char>)> {
        headers_view(self.headers@)
    }

    /// A response with the given status, no headers and the given body.
    pub fn new(status: u16, body: String) -> (r: Response)
        ensures
            r.status == status,
            r.header_seq() == Seq::<(Seq<char>, Seq<char>)>::empty(),
            r.body@ == body@,
    {
        let r = Response { status, headers: Vec::new(), body };
        assert(r.header_seq() =~= Seq::<(Seq<char>, Seq<char>)>::empty());
        r
    }

    /// Appends a header after the ones already set.
    pub fn append_header(&mut self, name: &str, value: String)
        ensures
            final(self).status == old(self).status,
            final(self).body@ == old(self).body@,
            final(self).header_seq() == old(self).header_seq().push((name@, value@)),
    {
        let n = String::from_str(name);
        let ghost v = value@;
        self.headers.push((n, value));
        assert(self.header_seq() =~= old(self).header_seq().push((name@, v)));
    }
}

/// Anything that can be turned into a response: responses themselves,
/// errors, and results of those.
pub trait Reply: Sized {
    spec fn reply(self) -> ResponseView;

    fn into_response(self) -> (r: Response)
        ensures
            r@ == self.reply(),
    ;
}

impl Reply for Response {
    open spec fn reply(self) -> ResponseView {
        self@
    }

    fn into_response(self) -> (r: Response) {
        self
    }
}

impl<T: Reply, E: Reply> Reply for Result<T, E> {
    open spec fn reply(self) -> ResponseView {
        match self {
            Ok(t) => t.reply(),
            Err(e) => e.reply(),
        }
    }

    fn into_response(self) -> (r: Response) {
        match self {
            Ok(t) => t.into_response(),
            Err(e) => e.into_response(),
        }
    }
}

} // verus!
