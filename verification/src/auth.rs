//! API key authentication.

use vstd::prelude::*;
use vstd::utf8::*;

use crate::error::{self, ApiError, Status};
use crate::text::strip_prefix;

verus! {

/// Proof that a request carried the API key.
#[derive(Clone, Copy, Debug)]
pub struct ApiKey;

/// The value of an `Authorization` header that carries `key`.
pub open spec fn bearer(key: Seq<char>) -> Seq<char> {
    "Bearer "@ + key
}

/// Calls `subtle::ConstantTimeEq::ct_eq` for byte slices: whether two slices hold
/// the same bytes. That the time taken does not depend on where they differ is
/// not part of the contract.
#[verifier::external_body]
fn constant_time_eq(a: &[u8], b: &[u8]) -> (same: bool)
    ensures
        same == (a@ == b@),
{
    subtle::ConstantTimeEq::ct_eq(a, b).into()
}

impl ApiKey {
    /// Admits a request whose `Authorization` header is `Bearer` followed by the
    /// service's API key. `service_api_key` is `None` where the service has no
    /// state. A refusal comes with the status to answer with.
    pub fn from_request(
        service_api_key: Option<&str>,
        authorization: Option<&str>,
    ) -> (outcome: Result<ApiKey, (Status, ApiError)>)
        ensures
            match service_api_key {
                None => outcome matches Err((status, error)) && status
                    == Status::InternalServerError && error@ == error::service_unavailable(
                    "Service state is unavailable"@,
                ),
                Some(key) => match outcome {
                    Ok(_) => authorization.deep_view() == Some(bearer(key@)),
                    Err((status, error)) => authorization.deep_view() != Some(bearer(key@))
                        && status == Status::Unauthorized && error@ == error::unauthorized(),
                },
            },
    {
        let Some(key) = service_api_key else {
            return Err(
                (
                    Status::InternalServerError,
                    ApiError::service_unavailable("Service state is unavailable"),
                ),
            );
        };
        if let Some(header) = authorization {
            let stripped = strip_prefix(header, "Bearer ");
            if let Some(provided) = stripped {
                proof {
                    encode_utf8_decode_utf8(provided@);
                    encode_utf8_decode_utf8(key@);
                    assert(provided@ == bearer(provided@).skip("Bearer "@.len() as int));
                    assert(key@ == bearer(key@).skip("Bearer "@.len() as int));
                }
                if constant_time_eq(provided.as_bytes(), key.as_bytes()) {
                    return Ok(ApiKey);
                }
            } else {
                proof {
                    assert("Bearer "@.is_prefix_of(bearer(key@)));
                }
            }
        }
        Err((Status::Unauthorized, ApiError::unauthorized()))
    }
}

} // verus!
