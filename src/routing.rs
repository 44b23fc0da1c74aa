//! Routing helpers: path segments and the checks every leaf makes.
use vstd::prelude::*;
use crate::error::{ClientError, Error};
use crate::http::Request;
use crate::text::{split_by, split_spec, strings_view};

verus! {

/// The segments of a path, split at every `/`.
pub fn split_path(path: &str) -> (r: Vec<String>)
    ensures
        strings_view(r@) == split_spec(path@, '/'),
{
    split_by(path, '/')
}

/// Fails with path-not-found if any path segment is left.
pub fn verify_path_end(path_vec: &Vec<String>, req: &Request) -> (r: Result<(), Error>)
    ensures
        path_vec@.len() == 0 ==> r is Ok,
        path_vec@.len() > 0 ==> (r matches Err(Error::ClientError(ClientError::PathNotFound(p)))
            && p@ == req.path@),
{
    if path_vec.len() > 0 {
        Err(Error::path_not_found(req))
    } else {
        Ok(())
    }
}

/// Fails with method-not-found unless the request has `expected_method`.
pub fn verify_method(req: &Request, expected_method: &str) -> (r: Result<(), Error>)
    ensures
        req.method@ == expected_method@ ==> r is Ok,
        req.method@ != expected_method@ ==> (r matches Err(Error::ClientError(ClientError::MethodNotFound(m)))
            && m@ == req.method@),
{
    let expected = String::from_str(expected_method);
    if req.method == expected {
        Ok(())
    } else {
        Err(Error::method_not_found(req))
    }
}

/// The outcome of the two checks of a leaf, in their order.
pub open spec fn leaf_check(rest: Seq<Seq<char>>, method: Seq<char>, expected: Seq<char>) -> LeafCheck {
    if rest.len() > 0 {
        LeafCheck::PathNotFound
    } else if method != expected {
        LeafCheck::MethodNotFound
    } else {
        LeafCheck::Pass
    }
}

pub enum LeafCheck {
    PathNotFound,
    MethodNotFound,
    Pass,
}

/// The checks of a leaf: no path left, then the one method it takes.
pub fn verify_method_path_end(path_vec: &Vec<String>, req: &Request, expected_method: &str) -> (r: Result<
    (),
    Error,
>)
    ensures
        match leaf_check(strings_view(path_vec@), req.method@, expected_method@) {
            LeafCheck::Pass => r is Ok,
            LeafCheck::PathNotFound => r matches Err(Error::ClientError(ClientError::PathNotFound(p)))
                && p@ == req.path@,
            LeafCheck::MethodNotFound => r matches Err(Error::ClientError(ClientError::MethodNotFound(m)))
                && m@ == req.method@,
        },
{
    verify_path_end(path_vec, req)?;
    verify_method(req, expected_method)?;
    Ok(())
}

} // verus!
