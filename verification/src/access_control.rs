//! Access control in front of the static route: a request passes only
//! with a valid presigned query for its path.
use vstd::prelude::*;

use crate::signature_v4::{spec_verify, PresignedUrl};
use vstd::utf8::encode_utf8;

verus! {

/// The answer to a static-route request: let it through to the stored
/// file, or refuse it.
#[derive(Clone, Copy, Debug, PartialEq, Eq, Structural)]
pub enum AccessDecision {
    Forward,
    Unauthorized,
}

/// The access check of the static route. It holds the buckets' tokens,
/// but — as a shared secret across the instance — admits any request
/// whose signature verifies, whichever bucket signed it.
#[derive(Debug, Clone)]
pub struct LfsAccessControlMiddleware {
    pub access_tokens: Vec<String>,
}

impl LfsAccessControlMiddleware {
    /// Decides one request against its path, query and the clock: a
    /// verifying presigned query passes, anything else is refused.
    pub fn handle(&self, path: &str, query: &str, now: u64) -> (r: AccessDecision)
        ensures
            r == AccessDecision::Forward <==> spec_verify(
                encode_utf8(path@),
                encode_utf8(query@),
                now,
            ) is Ok,
    {
        match PresignedUrl::verify_query(path, query, now) {
            Ok(_) => AccessDecision::Forward,
            Err(_) => AccessDecision::Unauthorized,
        }
    }
}

} // verus!
