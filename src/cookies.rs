//! Parsing of the `Cookie` request header.
use vstd::prelude::*;
use crate::error::{unreadable_header_message, ClientError, Error};
use crate::http::Request;
use crate::request::{get_header, header_text};
use crate::text::{find_char, position_of, split_by, split_spec, strings_view, trim, trim_spaces};

verus! {

/// Why a cookie header was refused.
pub enum CookieFault {
    /// A piece without `=`.
    Unparseable(Seq<char>),
    /// A name sent twice with distinct values: name, new value, old value.
    Duplicate(Seq<char>, Seq<char>, Seq<char>),
}

/// The value held for `name`, if any.
pub open spec fn lookup(acc: Seq<(Seq<char>, Seq<char>)>, name: Seq<char>) -> Option<Seq<char>>
    decreases acc.len(),
{
    if acc.len() == 0 {
        None
    } else if acc[0].0 == name {
        Some(acc[0].1)
    } else {
        lookup(acc.drop_first(), name)
    }
}

/// Reads the pieces of a cookie header (the texts between `;`) into
/// name/value pairs, after `acc`. Each piece is trimmed of spaces; empty
/// pieces are skipped; the name ends at the first `=`. A name repeated with
/// the same value is kept once.
pub open spec fn parse_pieces(pieces: Seq<Seq<char>>, acc: Seq<(Seq<char>, Seq<char>)>) -> Result<
    Seq<(Seq<char>, Seq<char>)>,
    CookieFault,
>
    decreases pieces.len(),
{
    if pieces.len() == 0 {
        Ok(acc)
    } else {
        let t = trim_spaces(pieces[0]);
        let rest = pieces.drop_first();
        if t.len() == 0 {
            parse_pieces(rest, acc)
        } else {
            match find_char(t, '=') {
                None => Err(CookieFault::Unparseable(t)),
                Some(k) => {
                    let name = t.take(k as int);
                    let value = t.skip(k as int + 1);
                    match lookup(acc, name) {
                        Some(old) => if old == value {
                            parse_pieces(rest, acc)
                        } else {
                            Err(CookieFault::Duplicate(name, value, old))
                        },
                        None => parse_pieces(rest, acc.push((name, value))),
                    }
                },
            }
        }
    }
}

/// The cookies of a header text.
pub open spec fn parse_cookie_text(h: Seq<char>) -> Result<Seq<(Seq<char>, Seq<char>)>, CookieFault> {
    parse_pieces(split_spec(h, ';'), Seq::empty())
}

pub open spec fn pairs_view(v: Seq<(String, String)>) -> Seq<(Seq<char>, Seq<char>)> {
    v.map_values(|p: (String, String)| (p.0@, p.1@))
}

/// `r` is the error that `f` describes.
pub open spec fn cookie_error(r: Error, f: CookieFault) -> bool {
    match f {
        CookieFault::Unparseable(t) => r matches Error::ClientError(ClientError::UnparseableCookie(x))
            && x@ == t,
        CookieFault::Duplicate(n, v, o) => r matches Error::ClientError(
            ClientError::DuplicateCookies { name, value, old_value },
        ) && name@ == n && value@ == v && old_value@ == o,
    }
}

fn find_cookie(acc: &Vec<(String, String)>, name: &String) -> (r: Option<usize>)
    ensures
        match lookup(pairs_view(acc@), name@) {
            None => r is None,
            Some(v) => r matches Some(i) && i < acc@.len() && acc@[i as int].1@ == v,
        },
{
    let ghost all = pairs_view(acc@);
    let mut i: usize = 0;
    assert(all.skip(0) =~= all);
    while i < acc.len()
        invariant
            i <= acc@.len(),
            all == pairs_view(acc@),
            lookup(all, name@) == lookup(all.skip(i as int), name@),
        decreases acc@.len() - i,
    {
        assert(all.skip(i as int).drop_first() =~= all.skip(i + 1));
        assert(all.skip(i as int)[0] == all[i as int]);
        if acc[i].0 == *name {
            return Some(i);
        }
        i = i + 1;
    }
    None
}

/// Parses a cookie header text into its name/value pairs.
pub fn parse_cookie_header(h: &str) -> (r: Result<Vec<(String, String)>, Error>)
    ensures
        match parse_cookie_text(h@) {
            Ok(c) => r matches Ok(v) && pairs_view(v@) == c,
            Err(f) => r matches Err(e) && cookie_error(e, f),
        },
{
    let pieces = split_by(h, ';');
    let ghost ps = split_spec(h@, ';');
    let mut acc: Vec<(String, String)> = Vec::new();
    let mut i: usize = 0;
    assert(ps.skip(0) =~= ps);
    assert(pairs_view(acc@) =~= Seq::<(Seq<char>, Seq<char>)>::empty());
    while i < pieces.len()
        invariant
            i <= pieces@.len(),
            ps == split_spec(h@, ';'),
            strings_view(pieces@) == ps,
            parse_cookie_text(h@) == parse_pieces(ps.skip(i as int), pairs_view(acc@)),
        decreases pieces@.len() - i,
    {
        let ghost rest = ps.skip(i as int);
        assert(rest.drop_first() =~= ps.skip(i + 1));
        assert(rest[0] == pieces@[i as int]@);
        let t = trim(pieces[i].as_str());
        if t.unicode_len() > 0 {
            match position_of(t.as_str(), '=') {
                None => {
                    return Err(Error::unparseable_cookie(t.as_str()));
                },
                Some(k) => {
                    let name = t.as_str().substring_char(0, k).to_owned();
                    let value = t.as_str().substring_char(k + 1, t.unicode_len()).to_owned();
                    assert(name@ =~= t@.take(k as int));
                    assert(value@ =~= t@.skip(k + 1));
                    assert(find_char(t@, '=') == Some(k as nat));
                    assert(trim_spaces(rest[0]) == t@);
                    match find_cookie(&acc, &name) {
                        Some(j) => {
                            assert(lookup(pairs_view(acc@), name@) == Some(acc@[j as int].1@));
                            if !(acc[j].1 == value) {
                                return Err(
                                    Error::duplicate_cookies(
                                        name.as_str(),
                                        value.as_str(),
                                        acc[j].1.as_str(),
                                    ),
                                );
                            }
                        },
                        None => {
                            let ghost before = acc@;
                            acc.push((name, value));
                            assert(pairs_view(acc@) =~= pairs_view(before).push((name@, value@)));
                        },
                    }
                },
            }
        }
        i = i + 1;
    }
    Ok(acc)
}

/// What reading the cookies of a request gives: none without a cookie
/// header, else the header's cookies or the fault in them.
pub open spec fn request_cookies(req: Request) -> Option<Result<Seq<(Seq<char>, Seq<char>)>, CookieFault>> {
    match header_text(req, "Cookie"@) {
        None => None,
        Some(None) => Some(Ok(Seq::empty())),
        Some(Some(t)) => Some(parse_cookie_text(t)),
    }
}

/// The cookies of a request, by name.
pub fn parse_cookies(req: &Request) -> (r: Result<Vec<(String, String)>, Error>)
    ensures
        match request_cookies(*req) {
            None => r matches Err(Error::ClientError(ClientError::UnreadableHeader(m)))
                && m@ == unreadable_header_message("Cookie"@),
            Some(Ok(c)) => r matches Ok(v) && pairs_view(v@) == c,
            Some(Err(f)) => r matches Err(e) && cookie_error(e, f),
        },
{
    match get_header(req, "Cookie")? {
        None => {
            let v: Vec<(String, String)> = Vec::new();
            assert(pairs_view(v@) =~= Seq::<(Seq<char>, Seq<char>)>::empty());
            Ok(v)
        },
        Some(h) => parse_cookie_header(h.as_str()),
    }
}

/// The value of cookie `name`, if it was sent.
pub fn cookie_value(cookies: &Vec<(String, String)>, name: &str) -> (r: Option<String>)
    ensures
        match lookup(pairs_view(cookies@), name@) {
            None => r is None,
            Some(v) => r matches Some(x) && x@ == v,
        },
{
    let n = String::from_str(name);
    match find_cookie(cookies, &n) {
        None => None,
        Some(i) => Some(cookies[i].1.clone()),
    }
}

} // verus!
