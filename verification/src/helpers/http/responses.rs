//! Responses by status, and the parts of a request that the handlers read.

use vstd::prelude::*;
use vstd::slice::{slice_subrange, slice_to_vec};
use vstd::string::StringSliceAdditionalSpecFns;

verus! {

/// The method of a request, as far as the handlers tell methods apart.
#[derive(Clone, Copy, Debug, PartialEq, Eq, Structural)]
pub enum Method {
    Get,
    Put,
    Other,
}

/// How handing a request's body to the state went.
#[derive(Clone, Copy, Debug, PartialEq, Eq, Structural)]
pub enum Commit {
    /// The state took the body.
    Accepted,
    /// The state refused the body.
    Rejected,
    /// The body could not be read, or the hand-over broke off.
    Failed,
}

/// A response: its status code, its content type where one was set, and its
/// body.
#[derive(Debug)]
pub struct Response {
    pub status: u16,
    pub content_type: Option<String>,
    pub body: Vec<u8>,
}

/// The place of the last `/` among the first `n` bytes, or -1.
pub open spec fn last_slash(path: Seq<u8>, n: int) -> int
    decreases n,
{
    if n <= 0 {
        -1
    } else if path[n - 1] == 47 {
        n - 1
    } else {
        last_slash(path, n - 1)
    }
}

/// The last segment of a path: what follows its last `/`, the whole path
/// where it has none.
pub open spec fn last_segment_of(path: Seq<u8>) -> Seq<u8> {
    path.subrange(last_slash(path, path.len() as int) + 1, path.len() as int)
}

/// The last segment of a path.
pub fn last_segment(path: &[u8]) -> (segment: &[u8])
    ensures
        segment@ == last_segment_of(path@),
{
    let mut n = path.len();
    while n > 0 && path[n - 1] != 47
        invariant
            n <= path.len(),
            last_slash(path@, path.len() as int) == last_slash(path@, n as int),
        decreases n,
    {
        n -= 1;
    }
    slice_subrange(path, n, path.len())
}

/// Whether two texts hold the same bytes.
pub fn same_bytes(left: &[u8], right: &[u8]) -> (same: bool)
    ensures
        same == (left@ == right@),
{
    if left.len() != right.len() {
        return false;
    }
    let mut i: usize = 0;
    while i < left.len()
        invariant
            i <= left.len(),
            left.len() == right.len(),
            forall|j: int| 0 <= j < i ==> left@[j] == right@[j],
        decreases left.len() - i,
    {
        if left[i] != right[i] {
            return false;
        }
        i += 1;
    }
    assert(left@ =~= right@);
    true
}

/// The body of a response: the one given, or the bytes of `fallback`.
pub open spec fn body_or(body: Option<Vec<u8>>, fallback: &str) -> Seq<u8> {
    match body {
        Some(bytes) => bytes@,
        None => fallback.spec_bytes(),
    }
}

fn or_text(body: Option<Vec<u8>>, fallback: &'static str) -> (bytes: Vec<u8>)
    ensures
        bytes@ == body_or(body, fallback),
{
    match body {
        Some(bytes) => bytes,
        None => slice_to_vec(fallback.as_bytes()),
    }
}

/// The responses that the servers give.
pub struct Responses {}

impl Responses {
    /// A response with the given status and body, and no content type.
    pub fn response(status: u16, body: Vec<u8>) -> (r: Response)
        ensures
            r.status == status,
            r.body == body,
            r.content_type is None,
    {
        Response { status, content_type: None, body }
    }

    /// 200 with the given body.
    pub fn ok(body: Vec<u8>) -> (r: Response)
        ensures
            r.status == 200,
            r.body == body,
            r.content_type is None,
    {
        Responses::response(200, body)
    }

    /// 404; the body says "not found" unless one is given.
    pub fn not_found(body: Option<Vec<u8>>) -> (r: Response)
        ensures
            r.status == 404,
            r.body@ == body_or(body, "not found"),
            r.content_type is None,
    {
        Responses::response(404, or_text(body, "not found"))
    }

    /// 400; the body says "bad request" unless one is given.
    pub fn bad_request(body: Option<Vec<u8>>) -> (r: Response)
        ensures
            r.status == 400,
            r.body@ == body_or(body, "bad request"),
            r.content_type is None,
    {
        Responses::response(400, or_text(body, "bad request"))
    }

    /// 204 without a body.
    pub fn no_content() -> (r: Response)
        ensures
            r.status == 204,
            r.body@ == Seq::<u8>::empty(),
            r.content_type is None,
    {
        Responses::response(204, Vec::new())
    }

    /// 422; the body says "malformed input" unless one is given.
    pub fn unprocessable(body: Option<Vec<u8>>) -> (r: Response)
        ensures
            r.status == 422,
            r.body@ == body_or(body, "malformed input"),
            r.content_type is None,
    {
        Responses::response(422, or_text(body, "malformed input"))
    }

    /// 500; the body says "internal error" unless one is given.
    pub fn internal_error(body: Option<Vec<u8>>) -> (r: Response)
        ensures
            r.status == 500,
            r.body@ == body_or(body, "internal error"),
            r.content_type is None,
    {
        Responses::response(500, or_text(body, "internal error"))
    }
}

} // verus!
