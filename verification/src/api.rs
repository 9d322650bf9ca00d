//! The HTTP API's request and response bodies.

use vstd::prelude::*;

verus! {

/// The body of a message request.
pub struct MessageRequest {
    pub text: String,
    pub session_id: Option<String>,
}

/// The body of a message reply.
pub struct MessageResponse {
    pub response: String,
    pub session_id: String,
}

impl MessageResponse {
    /// A reply carrying the agent's text and the session it belongs to.
    pub fn new(response: String, session_id: String) -> (r: Self)
        ensures
            r.response == response,
            r.session_id == session_id,
    {
        MessageResponse { response, session_id }
    }
}

} // verus!
