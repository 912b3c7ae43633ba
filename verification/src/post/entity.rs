use vstd::prelude::*;

verus! {

/// An opaque, string-like key uniquely identifying a post. The session store
/// performs no validation on it; it is only ever compared for equality.
#[derive(Debug)]
pub struct PostId(String);

impl View for PostId {
    type V = Seq<char>;

    closed spec fn view(&self) -> Seq<char> {
        self.0@
    }
}

impl PostId {
    pub fn new(value: &str) -> (r: Self)
        ensures
            r@ == value@,
    {
        PostId(value.to_owned())
    }

    /// The identifier's text.
    pub fn as_str(&self) -> (r: &str)
        ensures
            r@ == self@,
    {
        self.0.as_str()
    }

    /// The identifier's text, surrendering ownership.
    pub fn into_string(self) -> (r: String)
        ensures
            r@ == self@,
    {
        self.0
    }
}

impl Clone for PostId {
    fn clone(&self) -> (r: Self)
        ensures
            r@ == self@,
    {
        PostId(self.0.clone())
    }
}

impl PartialEq for PostId {
    fn eq(&self, other: &Self) -> (r: bool) {
        self.0 == other.0
    }
}

impl vstd::std_specs::cmp::PartialEqSpecImpl for PostId {
    open spec fn obeys_eq_spec() -> bool {
        true
    }

    open spec fn eq_spec(&self, other: &Self) -> bool {
        self@ == other@
    }
}

impl Eq for PostId {}

impl PostId {
    /// Builds an identifier from an owned string without copying it.
    pub fn from_string(value: String) -> (r: Self)
        ensures
            r@ == value@,
    {
        PostId(value)
    }
}

/// A post: its identifier and, where the post is password-protected, the
/// password a reader must supply before the session store will authorize
/// a session for it. A post without a password is public.
#[derive(Debug)]
pub struct Post {
    pub id: PostId,
    pub password: Option<String>,
}

impl Post {
    /// Whether the post is password-protected and `supplied` is exactly its
    /// password: the check a login handler makes before it asks the session
    /// store to record an authorization. A public post — one without a
    /// password — matches nothing, since no session ever needs to unlock it.
    pub fn password_matches(&self, supplied: &str) -> (r: bool)
        ensures
            r == (match self.password {
                Some(p) => p@ == supplied@,
                None => false,
            }),
    {
        match &self.password {
            Some(p) => *p == supplied.to_owned(),
            None => false,
        }
    }
}

} // verus!
