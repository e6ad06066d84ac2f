//! Per-request context carried through the caller-facing surface.
//! The surface itself, and the header handling that fills the
//! correlation id in, live outside the library.

use vstd::prelude::*;

verus! {

/// The context attached to one request.
#[derive(Debug, Default, Clone)]
pub struct RequestContext {
    pub correlation_id: Option<String>,
}

impl RequestContext {
    pub fn new(correlation_id: Option<String>) -> (r: Self)
        ensures
            r.correlation_id == correlation_id,
    {
        RequestContext { correlation_id }
    }
}

} // verus!
