//! Handle on the remote issue-tracker's REST surface: the verified core only
//! builds the value; the HTTP calls themselves are performed by unverified
//! glue outside this library.

use vstd::prelude::*;

verus! {

/// Connection data for the issue-tracker REST service: the server's base URL
/// and the bearer token sent with each request.
pub struct JiraService {
    pub base_url: String,
    pub jwt: String,
}

impl JiraService {
    /// Packages a base URL and a bearer token; no request is made here.
    pub fn new(base_url: String, jwt: String) -> (r: Self)
        ensures
            r.base_url == base_url,
            r.jwt == jwt,
    {
        Self { base_url, jwt }
    }
}

} // verus!
