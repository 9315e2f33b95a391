//! Marks a response as JSON.

use crate::helpers::http::responses::Response;
use vstd::prelude::*;

verus! {

/// The same response with the content type `application/json`, in place of
/// any that it had.
pub fn wrap_json_response(response: Response) -> (r: Response)
    ensures
        r.status == response.status,
        r.body == response.body,
        r.content_type matches Some(kind) && kind@ == "application/json"@,
{
    Response {
        status: response.status,
        content_type: Some("application/json".to_owned()),
        body: response.body,
    }
}

} // verus!
