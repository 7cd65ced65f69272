//! The serde stage at the server's end: every failure of the server is
//! embedded into the response that is sent back.

use crate::error::{server_failure, Error, ErrorView};
use crate::middles::serde::client_end::lifted;
use crate::protocol::{result_view, ResponseView, RunResponse};
use vstd::prelude::*;

verus! {

/// The response that is sent back: the response of the run, or, for a
/// failure, the code `-1` beside the message of the failure.
pub open spec fn embedded(response: Result<ResponseView, ErrorView>) -> ResponseView {
    match response {
        Ok(r) => r,
        Err(e) => ResponseView { return_code: -1, exc: Some(e.message) },
    }
}

#[derive(Debug)]
pub struct MiddleImpl {}

impl MiddleImpl {
    pub fn new() -> (r: MiddleImpl)
        ensures
            r == (MiddleImpl {  }),
    {
        MiddleImpl {  }
    }

    /// Takes how the request ended on the server and gives the response to
    /// encode.
    pub fn transform_response(&self, response: Result<RunResponse, Error>) -> (r: RunResponse)
        ensures
            r@ == embedded(result_view(response)),
    {
        match response {
            Ok(response) => response,
            Err(e) => RunResponse { return_code: -1, exc: Some(e.to_string()) },
        }
    }
}

/// What the server embeds is what the client lifts: a response without a
/// reason arrives as it left, and a failure of the server arrives as a
/// failure that carries the code `-1` and the server's message.
pub proof fn lemma_failure_crosses(response: Result<ResponseView, ErrorView>)
    ensures
        match response {
            Ok(r) => match r.exc {
                None => lifted(Ok(embedded(response))) == Ok::<ResponseView, ErrorView>(r),
                Some(exc) => lifted(Ok(embedded(response))) == Err::<ResponseView, ErrorView>(
                    server_failure(r.return_code, exc),
                ),
            },
            Err(e) => lifted(Ok(embedded(response))) == Err::<ResponseView, ErrorView>(
                server_failure(-1, e.message),
            ),
        },
{
}

} // verus!
