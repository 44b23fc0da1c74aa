//! Extraction of headers, body and query from a request, with strict
//! validation.
use vstd::prelude::*;
use crate::error::{mismatch_message, too_large_message, unreadable_header_message, ClientError, Error};
use crate::http::Request;
use crate::text::{
    ascii_lower, int_error_message, parse_usize, parse_usize_spec, push_char, to_ascii_lower, IntErrorKind,
};

verus! {

/// A byte that may stand in a header value read as text.
pub open spec fn visible_ascii(b: u8) -> bool {
    (32 <= b && b < 127) || b == 9
}

/// The text of bytes that are all ASCII.
pub open spec fn ascii_text(b: Seq<u8>) -> Seq<char> {
    b.map_values(|x: u8| x as char)
}

pub open spec fn headers_of(req: Request) -> Seq<(Seq<char>, Seq<u8>)> {
    req.headers@.map_values(|h: (String, Vec<u8>)| (h.0@, h.1@))
}

/// The value of the first header named `name`, if any. Header names are
/// compared without regard to ASCII case.
pub open spec fn find_header(h: Seq<(Seq<char>, Seq<u8>)>, name: Seq<char>) -> Option<Seq<u8>>
    decreases h.len(),
{
    if h.len() == 0 {
        None
    } else if ascii_lower(h[0].0) == ascii_lower(name) {
        Some(h[0].1)
    } else {
        find_header(h.drop_first(), name)
    }
}

/// What reading header `name` as text gives: nothing if it is absent, its
/// text if it is visible ASCII, else an unreadable-header error.
pub open spec fn header_text(req: Request, name: Seq<char>) -> Option<Option<Seq<char>>> {
    match find_header(headers_of(req), name) {
        None => Some(None),
        Some(v) => if forall|i: int| 0 <= i < v.len() ==> visible_ascii(#[trigger] v[i]) {
            Some(Some(ascii_text(v)))
        } else {
            None
        },
    }
}

fn bytes_to_text(b: &Vec<u8>) -> (r: String)
    ensures
        r@ == ascii_text(b@),
{
    let mut r = String::new();
    let mut i: usize = 0;
    while i < b.len()
        invariant
            i <= b@.len(),
            r@ == ascii_text(b@.take(i as int)),
        decreases b@.len() - i,
    {
        proof {
            assert(ascii_text(b@.take(i + 1)) =~= ascii_text(b@.take(i as int)).push(b@[i as int] as char));
        }
        push_char(&mut r, b[i] as char);
        i = i + 1;
    }
    proof {
        assert(b@.take(b@.len() as int) =~= b@);
    }
    r
}

/// The value of header `header_name` as text, if the request has it.
/// Header names are compared without regard to ASCII case.
pub fn get_header(req: &Request, header_name: &str) -> (r: Result<Option<String>, Error>)
    ensures
        match header_text(*req, header_name@) {
            None => r matches Err(Error::ClientError(ClientError::UnreadableHeader(m)))
                && m@ == unreadable_header_message(header_name@),
            Some(None) => r matches Ok(None),
            Some(Some(t)) => r matches Ok(Some(v)) && v@ == t,
        },
{
    let ghost hs = headers_of(*req);
    let wanted = to_ascii_lower(header_name);
    let mut i: usize = 0;
    assert(hs.skip(0) =~= hs);
    while i < req.headers.len()
        invariant
            i <= req.headers@.len(),
            hs == headers_of(*req),
            wanted@ == ascii_lower(header_name@),
            find_header(hs, header_name@) == find_header(hs.skip(i as int), header_name@),
        decreases req.headers@.len() - i,
    {
        proof {
            assert(hs.skip(i as int).drop_first() =~= hs.skip(i + 1));
        }
        assert(hs.skip(i as int)[0] == hs[i as int]);
        let name = to_ascii_lower(req.headers[i].0.as_str());
        if name == wanted {
            let v = &req.headers[i].1;
            let mut j: usize = 0;
            assert(find_header(hs, header_name@) == Some(v@));
            while j < v.len()
                invariant
                    j <= v@.len(),
                    hs == headers_of(*req),
                    find_header(hs, header_name@) == Some(v@),
                    forall|k: int| 0 <= k < j ==> visible_ascii(#[trigger] v@[k]),
                decreases v@.len() - j,
            {
                let b = v[j];
                if !((32 <= b && b < 127) || b == 9) {
                    assert(!visible_ascii(v@[j as int]));
                    return Err(Error::unreadable_header(header_name));
                }
                j = j + 1;
            }
            return Ok(Some(bytes_to_text(v)));
        }
        i = i + 1;
    }
    Ok(None)
}

/// What the content length check gives: the declared length if the header
/// is readable, present, an unsigned integer and at most `max_len`.
pub open spec fn content_len_outcome(req: Request, max_len: usize) -> Result<usize, Seq<char>> {
    match header_text(req, "Content-Length"@) {
        None => Err(unreadable_header_message("Content-Length"@)),
        Some(None) => Err("No content length given"@),
        Some(Some(t)) => match parse_usize_spec(t) {
            Err(k) => Err("Invalid unsigned int: "@ + int_error_message(k)),
            Ok(n) => if n <= max_len {
                Ok(n)
            } else {
                Err(too_large_message(n as nat, max_len as nat))
            },
        },
    }
}

/// The declared body length, validated against `max_len`. The error is an
/// invalid content length, but for an unreadable header.
pub fn validate_get_content_len(req: &Request, max_len: usize) -> (r: Result<usize, Error>)
    ensures
        match content_len_outcome(*req, max_len) {
            Ok(n) => r == Ok::<usize, Error>(n),
            Err(m) => if header_text(*req, "Content-Length"@) is None {
                r matches Err(Error::ClientError(ClientError::UnreadableHeader(x))) && x@ == m
            } else {
                r matches Err(Error::ClientError(ClientError::InvalidContentLength(x))) && x@ == m
            },
        },
{
    let header = get_header(req, "Content-Length")?;
    match header {
        Some(x) => match parse_usize(x.as_str()) {
            Err(k) => Err(Error::content_length_not_int(k)),
            Ok(length) => if length <= max_len {
                Ok(length)
            } else {
                Err(Error::content_length_too_large(length, max_len))
            },
        },
        None => Err(Error::content_length_missing()),
    }
}

/// How reading a body ends.
pub enum BodyOutcome {
    Complete(Seq<u8>),
    /// `given` bytes (an estimate of at least that many, on overrun) where
    /// `promised` were declared.
    Mismatch { given: nat, promised: nat },
}

pub open spec fn min_nat(a: nat, b: nat) -> nat {
    if a <= b { a } else { b }
}

/// The estimate of a body's size on overrun: what arrived, what came in the
/// chunk that overran, and the transport's lower bound on what is left.
pub open spec fn overrun_estimate(received: nat, chunk: nat, hint: nat) -> nat {
    min_nat(received + chunk + hint, usize::MAX as nat)
}

/// Reading a body chunk by chunk, each chunk with the transport's lower bound
/// on the bytes still to come: it stops at the first chunk that would take
/// the body past `expected`, and ends short if the stream ends early.
pub open spec fn read_body(expected: nat, received: Seq<u8>, chunks: Seq<(Seq<u8>, nat)>) -> BodyOutcome
    decreases chunks.len(),
{
    if chunks.len() == 0 {
        if received.len() < expected {
            BodyOutcome::Mismatch { given: received.len(), promised: expected }
        } else {
            BodyOutcome::Complete(received)
        }
    } else if received.len() + chunks[0].0.len() > expected {
        BodyOutcome::Mismatch {
            given: overrun_estimate(received.len(), chunks[0].0.len(), chunks[0].1),
            promised: expected,
        }
    } else {
        read_body(expected, received + chunks[0].0, chunks.drop_first())
    }
}

/// The number of bytes in all chunks.
pub open spec fn total_len(chunks: Seq<(Seq<u8>, nat)>) -> nat
    decreases chunks.len(),
{
    if chunks.len() == 0 {
        0
    } else {
        chunks[0].0.len() + total_len(chunks.drop_first())
    }
}

/// All bytes of all chunks, in order.
pub open spec fn all_bytes(chunks: Seq<(Seq<u8>, nat)>) -> Seq<u8>
    decreases chunks.len(),
{
    if chunks.len() == 0 {
        Seq::empty()
    } else {
        chunks[0].0 + all_bytes(chunks.drop_first())
    }
}

/// A body whose length differs from the declared one is reported as a
/// mismatch against the declared length: an undershoot with the exact number
/// of bytes received, an overrun with an estimate above the declared length
/// (when the declared length is below the largest size there is), found at
/// the first chunk that takes the body past it, with no later chunk read.
/// A body of exactly the declared length is complete and holds every byte.
pub proof fn lemma_body_length_checked(expected: nat, received: Seq<u8>, chunks: Seq<(Seq<u8>, nat)>)
    requires
        expected <= usize::MAX,
        received.len() <= expected,
    ensures
        received.len() + total_len(chunks) < expected ==> read_body(expected, received, chunks)
            == (BodyOutcome::Mismatch { given: received.len() + total_len(chunks), promised: expected }),
        received.len() + total_len(chunks) > expected ==> (read_body(expected, received, chunks) matches
            BodyOutcome::Mismatch { given, promised } && promised == expected && given >= expected
            && (expected < usize::MAX ==> given > expected)),
        received.len() + total_len(chunks) == expected ==> read_body(expected, received, chunks)
            == BodyOutcome::Complete(received + all_bytes(chunks)),
    decreases chunks.len(),
{
    if chunks.len() == 0 {
        assert(received + all_bytes(chunks) =~= received);
    } else if received.len() + chunks[0].0.len() > expected {
    } else {
        lemma_body_length_checked(expected, received + chunks[0].0, chunks.drop_first());
        assert(received + chunks[0].0 + all_bytes(chunks.drop_first()) =~= received + all_bytes(chunks));
    }
}

/// Once the chunks received run past the declared length, whatever would
/// follow them changes nothing: the overrun is reported without reading on.
pub proof fn lemma_overrun_reads_no_further(
    expected: nat,
    received: Seq<u8>,
    chunks: Seq<(Seq<u8>, nat)>,
    more: Seq<(Seq<u8>, nat)>,
)
    requires
        received.len() <= expected,
        received.len() + total_len(chunks) > expected,
    ensures
        read_body(expected, received, chunks + more) == read_body(expected, received, chunks),
    decreases chunks.len(),
{
    let all = chunks + more;
    assert(all[0] == chunks[0]);
    if received.len() + chunks[0].0.len() <= expected {
        assert(all.drop_first() =~= chunks.drop_first() + more);
        lemma_overrun_reads_no_further(expected, received + chunks[0].0, chunks.drop_first(), more);
    }
}

/// A body being received against its declared length.
pub struct BodyReader {
    pub expected: usize,
    pub bytes: Vec<u8>,
}

impl BodyReader {
    pub open spec fn wf(&self) -> bool {
        self.bytes@.len() <= self.expected
    }

    /// Starts reading the body of `req` once its declared length is valid.
    pub fn new(req: &Request, max_len: usize) -> (r: Result<BodyReader, Error>)
        ensures
            match content_len_outcome(*req, max_len) {
                Ok(n) => r matches Ok(b) && b.wf() && b.bytes@.len() == 0 && b.expected == n,
                Err(m) => if header_text(*req, "Content-Length"@) is None {
                    r matches Err(Error::ClientError(ClientError::UnreadableHeader(x))) && x@ == m
                } else {
                    r matches Err(Error::ClientError(ClientError::InvalidContentLength(x))) && x@ == m
                },
            },
    {
        let expected = validate_get_content_len(req, max_len)?;
        Ok(BodyReader { expected, bytes: Vec::new() })
    }

    /// Takes the next chunk; `remaining_hint` is the transport's lower bound
    /// on the bytes still to come. A chunk that would take the body past the
    /// declared length is a mismatch with an estimate of the full size.
    pub fn push_chunk(&mut self, chunk: &[u8], remaining_hint: u64) -> (r: Result<(), Error>)
        requires
            old(self).wf(),
        ensures
            final(self).wf(),
            final(self).expected == old(self).expected,
            forall|rest: Seq<(Seq<u8>, nat)>| #[trigger] read_body(
                old(self).expected as nat,
                old(self).bytes@,
                seq![(chunk@, remaining_hint as nat)] + rest,
            ) == if r is Ok {
                read_body(final(self).expected as nat, final(self).bytes@, rest)
            } else {
                BodyOutcome::Mismatch {
                    given: overrun_estimate(old(self).bytes@.len(), chunk@.len(), remaining_hint as nat),
                    promised: old(self).expected as nat,
                }
            },
            old(self).bytes@.len() + chunk@.len() > old(self).expected ==> (r matches
                Err(Error::ClientError(ClientError::InvalidContentLength(m)))
                && m@ == mismatch_message(
                    overrun_estimate(old(self).bytes@.len(), chunk@.len(), remaining_hint as nat),
                    old(self).expected as nat,
                )),
            old(self).bytes@.len() + chunk@.len() <= old(self).expected ==> r is Ok
                && final(self).bytes@ == old(self).bytes@ + chunk@,
    {
        let have = self.bytes.len();
        if chunk.len() > self.expected - have {
            let hint: usize = if remaining_hint > usize::MAX as u64 { usize::MAX } else { remaining_hint as usize };
            let estimate: usize = if chunk.len() > usize::MAX - have {
                usize::MAX
            } else if hint > usize::MAX - (have + chunk.len()) {
                usize::MAX
            } else {
                have + chunk.len() + hint
            };
            assert forall|rest: Seq<(Seq<u8>, nat)>| #[trigger] read_body(
                self.expected as nat,
                self.bytes@,
                seq![(chunk@, remaining_hint as nat)] + rest,
            ) == (BodyOutcome::Mismatch {
                given: overrun_estimate(have as nat, chunk@.len(), remaining_hint as nat),
                promised: self.expected as nat,
            }) by {
                assert((seq![(chunk@, remaining_hint as nat)] + rest)[0] == (chunk@, remaining_hint as nat));
            }
            return Err(Error::content_length_mismatch(estimate, self.expected));
        }
        let mut i: usize = 0;
        let ghost start = self.bytes@;
        while i < chunk.len()
            invariant
                i <= chunk@.len(),
                self.expected == old(self).expected,
                start == old(self).bytes@,
                start.len() + chunk@.len() <= self.expected,
                self.bytes@ == start + chunk@.take(i as int),
            decreases chunk@.len() - i,
        {
            self.bytes.push(chunk[i]);
            i = i + 1;
            assert(self.bytes@ =~= start + chunk@.take(i as int));
        }
        assert(chunk@.take(chunk@.len() as int) =~= chunk@);
        assert forall|rest: Seq<(Seq<u8>, nat)>| #[trigger] read_body(
            old(self).expected as nat,
            old(self).bytes@,
            seq![(chunk@, remaining_hint as nat)] + rest,
        ) == read_body(self.expected as nat, self.bytes@, rest) by {
            let all = seq![(chunk@, remaining_hint as nat)] + rest;
            assert(all[0] == (chunk@, remaining_hint as nat));
            assert(all.drop_first() =~= rest);
        }
        Ok(())
    }

    /// Ends reading: a body shorter than declared is a mismatch.
    pub fn finish(self) -> (r: Result<Vec<u8>, Error>)
        requires
            self.wf(),
        ensures
            match read_body(self.expected as nat, self.bytes@, Seq::empty()) {
                BodyOutcome::Complete(b) => r matches Ok(v) && v@ == b,
                BodyOutcome::Mismatch { given, promised } => r matches
                    Err(Error::ClientError(ClientError::InvalidContentLength(m)))
                    && m@ == mismatch_message(given, promised),
            },
    {
        if self.bytes.len() < self.expected {
            Err(Error::content_length_mismatch(self.bytes.len(), self.expected))
        } else {
            Ok(self.bytes)
        }
    }
}

/// The content type that structured bodies must declare.
pub open spec fn json_type() -> Seq<char> {
    "application/json; charset=utf-8"@
}

/// Requires a JSON body: the content type must be exactly the JSON type
/// (a missing header counts as empty text).
pub fn check_json_content_type(req: &Request) -> (r: Result<(), Error>)
    ensures
        match header_text(*req, "Content-Type"@) {
            None => r matches Err(Error::ClientError(ClientError::UnreadableHeader(m)))
                && m@ == unreadable_header_message("Content-Type"@),
            Some(t) => {
                let given = match t { Some(x) => x, None => Seq::empty() };
                if given == json_type() {
                    r is Ok
                } else {
                    r matches Err(Error::ClientError(ClientError::InvalidContentType(m)))
                        && m@ == "Expected "@ + json_type() + ", received "@ + given
                }
            },
        },
{
    let expected = String::from_str("application/json; charset=utf-8");
    let given = match get_header(req, "Content-Type")? {
        Some(x) => x,
        None => String::new(),
    };
    if given == expected {
        Ok(())
    } else {
        Err(Error::invalid_content_type(expected.as_str(), given.as_str()))
    }
}

} // verus!
