//! The default agent: `GET /<key>` reads a key of the state, `PUT /` hands
//! the state a payload. The server itself runs elsewhere; here stand the
//! decisions that it takes for a request.

use crate::helpers::http::responses::{
    body_or, last_segment, last_segment_of, Commit, Method, Response, Responses,
};
use crate::state::StateValue;
use vstd::prelude::*;
use vstd::slice::slice_to_vec;
use vstd::string::StringSliceAdditionalSpecFns;

verus! {

/// The default agent's settings.
#[derive(Debug)]
pub struct Default {
    /// The port to listen on.
    pub port: u16,
}

impl std::default::Default for Default {
    /// Port 3097.
    fn default() -> (agent: Self)
        ensures
            agent.port == 3097,
    {
        Default { port: 3097 }
    }
}

/// What a request asks of the agent.
#[derive(Debug)]
pub enum Step {
    /// Look the key up in the state, then answer with `get_handler`.
    Lookup(Vec<u8>),
    /// Hand the body to the state, then answer with `set_handler`.
    Store,
    /// Answer at once.
    Reply(Response),
}

/// Whether `r` is the answer to a lookup that found `found`: 200 with the
/// bytes of what was found; 400 where that cannot be put into bytes; 404
/// where nothing was found.
pub open spec fn answers_lookup(r: Response, found: Option<Option<Vec<u8>>>) -> bool {
    &&& r.content_type is None
    &&& match found {
        Some(Some(bytes)) => r.status == 200 && r.body == bytes,
        Some(None) => r.status == 400 && r.body@ == body_or(None, "bad request"),
        None => r.status == 404 && r.body@ == body_or(None, "not found"),
    }
}

/// The answer to a lookup, given the bytes of what was found.
pub fn answer_lookup(found: Option<Option<Vec<u8>>>) -> (r: Response)
    ensures
        answers_lookup(r, found),
{
    match found {
        Some(Some(bytes)) => Responses::ok(bytes),
        Some(None) => Responses::bad_request(None),
        None => Responses::not_found(None),
    }
}

/// The answer to a lookup: what was found is asked for its bytes, and
/// `answer_lookup` makes the answer of them.
pub fn get_handler<V: StateValue>(found: Option<V>) -> (r: Response)
    ensures
        match found {
            Some(value) => exists|bytes: Option<Vec<u8>>|
                #[trigger] call_ensures(V::as_bytes, (&value,), bytes) && answers_lookup(
                    r,
                    Some(bytes),
                ),
            None => answers_lookup(r, None),
        },
{
    match found {
        Some(value) => answer_lookup(Some(value.as_bytes())),
        None => answer_lookup(None),
    }
}

/// The answer to a payload: 204 where the state took it, 422 where it refused
/// it, 500 where the hand-over failed.
pub fn set_handler(commit: Commit) -> (r: Response)
    ensures
        r.content_type is None,
        match commit {
            Commit::Accepted => r.status == 204 && r.body@ == Seq::<u8>::empty(),
            Commit::Rejected => r.status == 422 && r.body@ == body_or(None, "malformed input"),
            Commit::Failed => r.status == 500 && r.body@ == body_or(
                None,
                "Failed to commit state sent by the application.",
            ),
        },
{
    match commit {
        Commit::Accepted => Responses::no_content(),
        Commit::Rejected => Responses::unprocessable(None),
        Commit::Failed => Responses::internal_error(
            Some(slice_to_vec("Failed to commit state sent by the application.".as_bytes())),
        ),
    }
}

/// Sorts a request by its method: a GET reads the key that is the last
/// segment of the path, a PUT stores, anything else is answered with 404.
pub fn handler(method: Method, path: &[u8]) -> (step: Step)
    ensures
        match step {
            Step::Lookup(key) => method == Method::Get && key@ == last_segment_of(path@),
            Step::Store => method == Method::Put,
            Step::Reply(r) => method == Method::Other && r.status == 404 && r.body@ == body_or(
                None,
                "not found",
            ) && r.content_type is None,
        },
{
    match method {
        Method::Get => Step::Lookup(slice_to_vec(last_segment(path))),
        Method::Put => Step::Store,
        Method::Other => Step::Reply(Responses::not_found(None)),
    }
}

} // verus!
