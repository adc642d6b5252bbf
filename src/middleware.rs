//! What a middleware step decides about a request.
use vstd::prelude::*;
use crate::response::Response;

verus! {

/// Go on to routing, or answer at once with a response.
#[derive(Clone, Debug)]
pub enum MiddlewareResponse {
    Next,
    Redirect(Response),
}

} // verus!

