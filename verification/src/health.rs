use vstd::prelude::*;

verus! {

/// The answer to a health query: how long the server has been running,
/// as text.
pub struct HealthResponse {
    pub uptime: String,
}

} // verus!
