//! HTTP status codes the request handlers answer with.
use vstd::prelude::*;

verus! {

/// The outcome of a request handler.
#[derive(Clone, Copy, Debug, PartialEq, Eq, Structural)]
pub enum StatusCode {
    /// 200: the request was carried out.
    Success,
    /// 400: the request could not be understood.
    BadRequest,
    /// 404: the signal named by the request does not exist.
    NotFound,
}

impl StatusCode {
    /// The numeric HTTP status code.
    pub open spec fn spec_code(self) -> u16 {
        match self {
            StatusCode::Success => 200,
            StatusCode::BadRequest => 400,
            StatusCode::NotFound => 404,
        }
    }

    /// The numeric HTTP status code.
    pub fn code(&self) -> (r: u16)
        ensures
            r == self.spec_code(),
    {
        match self {
            StatusCode::Success => 200,
            StatusCode::BadRequest => 400,
            StatusCode::NotFound => 404,
        }
    }
}

} // verus!
