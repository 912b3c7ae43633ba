use vstd::prelude::*;

use crate::post::entity::PostId;

verus! {

/// Relies on std::time::Instant, carried opaquely: a session record stores
/// one as its creation stamp and never looks inside it.
#[verifier::external_type_specification]
#[verifier::external_body]
pub struct ExInstant(std::time::Instant);

/// Relies on std::time::Instant::now: a reading of the monotonic clock. It
/// only stamps a session record's moment of creation; the store never reads
/// it back, and nothing is assumed of its value.
#[verifier::external_body]
pub(crate) fn instant_now() -> std::time::Instant {
    std::time::Instant::now()
}

/// Relies on uuid::Uuid::new_v4: a freshly drawn random version-4 UUID,
/// rendered in its hyphenated textual form. The result depends on the random
/// number generator, so nothing is assumed of its value.
#[verifier::external_body]
pub(crate) fn fresh_token() -> String {
    uuid::Uuid::new_v4().to_string()
}

/// An opaque session identifier: a random 128-bit token in textual form when
/// generated here, but any text a client hands back in a cookie is accepted
/// as one. An identifier that matches no session record simply authorizes
/// nothing; it is never an error.
#[derive(Debug)]
pub struct SessionId(String);

impl View for SessionId {
    type V = Seq<char>;

    closed spec fn view(&self) -> Seq<char> {
        self.0@
    }
}

impl SessionId {
    /// A freshly generated random identifier. Nothing is known of its text;
    /// in particular, two calls may in principle collide.
    pub fn new() -> Self {
        SessionId(fresh_token())
    }

    /// Wraps untrusted text (say, a cookie value) as an identifier. No
    /// validation: an identifier that is not a key in the store merely fails
    /// every authorization check.
    pub fn from_string(value: String) -> (r: Self)
        ensures
            r@ == value@,
    {
        SessionId(value)
    }

    /// The identifier's text.
    pub fn as_str(&self) -> (r: &str)
        ensures
            r@ == self@,
    {
        self.0.as_str()
    }

    /// The identifier's text, surrendering ownership.
    pub fn into_string(self) -> (r: String)
        ensures
            r@ == self@,
    {
        self.0
    }
}

impl Clone for SessionId {
    fn clone(&self) -> (r: Self)
        ensures
            r@ == self@,
    {
        SessionId(self.0.clone())
    }
}

impl PartialEq for SessionId {
    fn eq(&self, other: &Self) -> (r: bool) {
        self.0 == other.0
    }
}

impl vstd::std_specs::cmp::PartialEqSpecImpl for SessionId {
    open spec fn obeys_eq_spec() -> bool {
        true
    }

    open spec fn eq_spec(&self, other: &Self) -> bool {
        self@ == other@
    }
}

impl Eq for SessionId {}

/// One session's record: the posts it has been authorized for, and the moment
/// it was created. The post list is kept free of duplicates, so it represents
/// a set; insertion order carries no meaning.
#[derive(Debug)]
pub struct SessionData {
    pub authorized_posts: Vec<PostId>,
    pub created_at: std::time::Instant,
}

impl SessionData {
    /// The set of post identifiers this session has unlocked.
    pub open spec fn posts(self) -> Set<Seq<char>> {
        Set::new(
            |p: Seq<char>|
                exists|i: int|
                    0 <= i < self.authorized_posts@.len() && self.authorized_posts@[i]@ == p,
        )
    }

    /// Well-formed: no post identifier is recorded twice.
    pub open spec fn wf(self) -> bool {
        forall|i: int, j: int|
            0 <= i < j < self.authorized_posts@.len() ==> self.authorized_posts@[i]@
                != self.authorized_posts@[j]@
    }

    /// A fresh record that has unlocked nothing yet.
    pub fn new() -> (r: Self)
        ensures
            r.wf(),
            r.posts() == Set::<Seq<char>>::empty(),
    {
        let r = SessionData { authorized_posts: Vec::new(), created_at: instant_now() };
        proof {
            assert(r.posts() =~= Set::<Seq<char>>::empty());
        }
        r
    }

    /// Whether this session has unlocked the given post.
    pub fn is_authorized_for(&self, post_id: &PostId) -> (r: bool)
        ensures
            r == self.posts().contains(post_id@),
    {
        let n = self.authorized_posts.len();
        let mut k: usize = 0;
        while k < n
            invariant
                n == self.authorized_posts@.len(),
                k <= n,
                forall|i: int| 0 <= i < k ==> self.authorized_posts@[i]@ != post_id@,
            decreases n - k,
        {
            if self.authorized_posts[k].eq(post_id) {
                return true;
            }
            k += 1;
        }
        false
    }

    /// Records that this session has unlocked the given post; recording the
    /// same post twice leaves the record as it was.
    pub fn grant_post(&mut self, post_id: PostId)
        requires
            old(self).wf(),
        ensures
            final(self).wf(),
            final(self).posts() == old(self).posts().insert(post_id@),
            final(self).created_at == old(self).created_at,
    {
        let already = self.is_authorized_for(&post_id);
        if !already {
            self.authorized_posts.push(post_id);
        }
        proof {
            let pre = old(self).authorized_posts@;
            let cur = self.authorized_posts@;
            assert forall|p: Seq<char>| self.posts().contains(p) implies old(self).posts().insert(
                post_id@,
            ).contains(p) by {
                let i = choose|i: int| 0 <= i < cur.len() && cur[i]@ == p;
                if i < pre.len() {
                    assert(pre[i]@ == p);
                    assert(old(self).posts().contains(p));
                } else {
                    assert(p == post_id@);
                }
            }
            assert forall|p: Seq<char>| old(self).posts().insert(post_id@).contains(
                p,
            ) implies self.posts().contains(p) by {
                if p == post_id@ && !already {
                    assert(cur[cur.len() - 1]@ == p);
                } else {
                    let i = choose|i: int| 0 <= i < pre.len() && pre[i]@ == p;
                    assert(cur[i]@ == p);
                }
            }
            assert(self.posts() =~= old(self).posts().insert(post_id@));
        }
    }
}

} // verus!
