//! The serde stage at the client's end: what a decoded response means to
//! the caller.

use crate::error::{server_failure, Error, ErrorView};
use crate::protocol::{result_view, ResponseView, RunResponse};
use vstd::prelude::*;

verus! {

/// What the client makes of what came back: a failure stays a failure, a
/// response that carries a reason becomes the failure that the server
/// reported, and any other response is handed on as it is.
pub open spec fn lifted(response: Result<ResponseView, ErrorView>) -> Result<
    ResponseView,
    ErrorView,
> {
    match response {
        Err(e) => Err(e),
        Ok(r) => match r.exc {
            Some(exc) => Err(server_failure(r.return_code, exc)),
            None => Ok(r),
        },
    }
}

#[derive(Debug)]
pub struct MiddleImpl {}

impl MiddleImpl {
    pub fn new() -> (r: MiddleImpl)
        ensures
            r == (MiddleImpl {  }),
    {
        MiddleImpl {  }
    }

    /// Takes the response as it was decoded, or the failure to get one.
    pub fn transform_response(&self, response: Result<RunResponse, Error>) -> (r: Result<
        RunResponse,
        Error,
    >)
        ensures
            result_view(r) == lifted(result_view(response)),
    {
        match response {
            Err(e) => Err(e),
            Ok(response) => match &response.exc {
                Some(exc) => Err(Error::server(response.return_code, exc.as_str())),
                None => Ok(response),
            },
        }
    }
}

} // verus!
