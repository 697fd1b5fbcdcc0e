//! Plain data carried by the service's HTTP edge and query collaborator.

use vstd::prelude::*;

verus! {

/// Body of a plain HTTP status reply.
pub struct Response {
    pub message: String,
}

/// Symbol lookup key used by the query collaborator.
pub struct InstrumentCode {
    pub symbol: String,
}

/// Aggregation step for chart queries.
#[derive(Clone, Debug, PartialEq)]
pub enum ChartInterval {
    Min1,
    Min5,
    Min30,
    Hour1,
    Day1,
    Month1,
}

/// Reply reported by the health endpoint.
pub fn health_response() -> (r: Response)
    ensures
        r.message@ == "Everything is working fine"@,
{
    Response { message: "Everything is working fine".to_owned() }
}

/// Reply for a request that matched no route.
pub fn not_found_response() -> (r: Response)
    ensures
        r.message@ == "Resource not found"@,
{
    Response { message: "Resource not found".to_owned() }
}

} // verus!
