use vstd::prelude::*;

verus! {

/// The error a page handler surfaces to the HTTP layer, which maps it to a
/// response status.
#[derive(Debug, PartialEq, Eq, Structural)]
pub enum ApiError {
    PostNotFound,
}

impl ApiError {
    /// A human-readable description of the error.
    pub fn message(&self) -> (r: &'static str)
        ensures
            self is PostNotFound ==> r@ == "Post not found"@,
    {
        match self {
            ApiError::PostNotFound => "Post not found",
        }
    }
}

} // verus!
