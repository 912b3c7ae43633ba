use vstd::prelude::*;

verus! {

/// Everything that can go wrong in a post store: the requested post does not
/// exist, a post could not be created (with the underlying store's message),
/// or an unclassified internal failure.
#[derive(Debug)]
pub enum PostStoreError {
    PostNotFound,
    FailedToCreatePost(String),
    Unexpected,
}

impl PostStoreError {
    /// A human-readable description of the error.
    pub fn message(&self) -> (r: String)
        ensures
            self is PostNotFound ==> r@ == "post not found"@,
            self matches PostStoreError::FailedToCreatePost(detail) ==> r@ == "failed to create post: "@
                + detail@,
            self is Unexpected ==> r@ == "unexpected error"@,
    {
        match self {
            PostStoreError::PostNotFound => "post not found".to_owned(),
            PostStoreError::FailedToCreatePost(detail) => {
                let mut r = "failed to create post: ".to_owned();
                r.append(detail.as_str());
                r
            },
            PostStoreError::Unexpected => "unexpected error".to_owned(),
        }
    }
}

} // verus!
