use vstd::prelude::*;

use crate::post::entity::PostId;
use crate::session::entity::{SessionData, SessionId};

verus! {

/// Whether, in the authorization map `m`, session `sid` has unlocked post
/// `pid`. A session absent from the map has unlocked nothing.
pub open spec fn authorized_in(
    m: Map<Seq<char>, Set<Seq<char>>>,
    sid: Seq<char>,
    pid: Seq<char>,
) -> bool {
    m.dom().contains(sid) && m[sid].contains(pid)
}

/// The abstract effect of one authorization: the session's set of unlocked
/// posts — empty if the session was absent — grows by the one post.
pub open spec fn grant(
    m: Map<Seq<char>, Set<Seq<char>>>,
    sid: Seq<char>,
    pid: Seq<char>,
) -> Map<Seq<char>, Set<Seq<char>>> {
    let posts = if m.dom().contains(sid) {
        m[sid]
    } else {
        Set::<Seq<char>>::empty()
    };
    m.insert(sid, posts.insert(pid))
}

/// The abstract effect of authorizing the same session for each post of a
/// sequence in turn.
pub open spec fn grant_all(
    m: Map<Seq<char>, Set<Seq<char>>>,
    sid: Seq<char>,
    pids: Seq<Seq<char>>,
) -> Map<Seq<char>, Set<Seq<char>>>
    decreases pids.len(),
{
    if pids.len() == 0 {
        m
    } else {
        grant(grant_all(m, sid, pids.drop_last()), sid, pids.last())
    }
}

/// Granting a session a post authorizes exactly that pair.
pub proof fn lemma_grant_authorizes(
    m: Map<Seq<char>, Set<Seq<char>>>,
    sid: Seq<char>,
    pid: Seq<char>,
)
    ensures
        authorized_in(grant(m, sid, pid), sid, pid),
{
}

/// Authorization only grows: whatever a grant does, every pair that was
/// authorized before it stays authorized after it.
pub proof fn lemma_authorization_only_grows(
    m: Map<Seq<char>, Set<Seq<char>>>,
    sid: Seq<char>,
    pid: Seq<char>,
    sid2: Seq<char>,
    pid2: Seq<char>,
)
    requires
        authorized_in(m, sid2, pid2),
    ensures
        authorized_in(grant(m, sid, pid), sid2, pid2),
{
}

/// Authorization is additive, never overwritten: after a session is granted
/// two distinct posts in turn, it is authorized for both.
pub proof fn lemma_authorization_additive(
    m: Map<Seq<char>, Set<Seq<char>>>,
    sid: Seq<char>,
    pid1: Seq<char>,
    pid2: Seq<char>,
)
    requires
        pid1 != pid2,
    ensures
        authorized_in(grant(grant(m, sid, pid1), sid, pid2), sid, pid1),
        authorized_in(grant(grant(m, sid, pid1), sid, pid2), sid, pid2),
{
    lemma_grant_authorizes(m, sid, pid1);
    lemma_authorization_only_grows(grant(m, sid, pid1), sid, pid2, sid, pid1);
    lemma_grant_authorizes(grant(m, sid, pid1), sid, pid2);
}

/// A session the map has never seen is authorized for nothing.
pub proof fn lemma_absent_session_not_authorized(
    m: Map<Seq<char>, Set<Seq<char>>>,
    sid: Seq<char>,
)
    requires
        !m.dom().contains(sid),
    ensures
        forall|pid: Seq<char>| !authorized_in(m, sid, pid),
{
}

/// Granting is idempotent: granting a pair a second time changes nothing,
/// and however often it is granted, the map gains exactly the one session
/// key — never a second record.
pub proof fn lemma_grant_idempotent(
    m: Map<Seq<char>, Set<Seq<char>>>,
    sid: Seq<char>,
    pid: Seq<char>,
)
    ensures
        grant(grant(m, sid, pid), sid, pid) == grant(m, sid, pid),
        grant(grant(m, sid, pid), sid, pid).dom() == m.dom().insert(sid),
        grant(m, sid, pid).dom() == m.dom().insert(sid),
{
    assert(grant(grant(m, sid, pid), sid, pid) =~~= grant(m, sid, pid));
    assert(grant(m, sid, pid).dom() =~= m.dom().insert(sid));
}

/// No lost updates: after a run of grants of distinct or equal posts to one
/// session, every post of the run is authorized for it.
pub proof fn lemma_no_lost_updates(
    m: Map<Seq<char>, Set<Seq<char>>>,
    sid: Seq<char>,
    pids: Seq<Seq<char>>,
)
    ensures
        forall|i: int|
            0 <= i < pids.len() ==> authorized_in(grant_all(m, sid, pids), sid, pids[i]),
    decreases pids.len(),
{
    if pids.len() > 0 {
        let prefix = pids.drop_last();
        lemma_no_lost_updates(m, sid, prefix);
        lemma_grant_authorizes(grant_all(m, sid, prefix), sid, pids.last());
        assert forall|i: int|
            0 <= i < pids.len() implies authorized_in(grant_all(m, sid, pids), sid, pids[i]) by {
            if i < pids.len() - 1 {
                assert(pids[i] == prefix[i]);
                lemma_authorization_only_grows(
                    grant_all(m, sid, prefix),
                    sid,
                    pids.last(),
                    sid,
                    pids[i],
                );
            }
        }
    }
}

/// The session table: the single source of truth for which session has
/// unlocked which password-protected posts. A lookup table of session
/// records, at most one per session identifier, whose abstract view is a
/// map from session identifier to the set of unlocked post identifiers.
pub struct SessionTable {
    records: Vec<(SessionId, SessionData)>,
}

impl View for SessionTable {
    type V = Map<Seq<char>, Set<Seq<char>>>;

    closed spec fn view(&self) -> Map<Seq<char>, Set<Seq<char>>> {
        Map::new(
            |sid: Seq<char>| self.contains_session(sid),
            |sid: Seq<char>| self.records@[self.index_of(sid)].1.posts(),
        )
    }
}

impl SessionTable {
    /// Whether some record carries this session identifier.
    pub closed spec fn contains_session(self, sid: Seq<char>) -> bool {
        exists|i: int| 0 <= i < self.records@.len() && self.records@[i].0@ == sid
    }

    /// The index of the record carrying this identifier (meaningful only
    /// when one exists; unique by well-formedness).
    closed spec fn index_of(self, sid: Seq<char>) -> int {
        choose|i: int| 0 <= i < self.records@.len() && self.records@[i].0@ == sid
    }

    /// Well-formed: a session identifier keys at most one record, and each
    /// record's post list is duplicate-free.
    pub closed spec fn wf(self) -> bool {
        &&& forall|i: int, j: int|
            0 <= i < j < self.records@.len() ==> self.records@[i].0@ != self.records@[j].0@
        &&& forall|i: int| 0 <= i < self.records@.len() ==> self.records@[i].1.wf()
    }

    proof fn lemma_index_of(self, i: int)
        requires
            self.wf(),
            0 <= i < self.records@.len(),
        ensures
            self.contains_session(self.records@[i].0@),
            self.index_of(self.records@[i].0@) == i,
    {
        let sid = self.records@[i].0@;
        assert(self.contains_session(sid));
        let j = self.index_of(sid);
        if j != i {
            assert(self.records@[i].0@ != self.records@[j].0@);
            assert(false);
        }
    }

    proof fn lemma_at(self, i: int)
        requires
            self.wf(),
            0 <= i < self.records@.len(),
        ensures
            self@.dom().contains(self.records@[i].0@),
            self@[self.records@[i].0@] == self.records@[i].1.posts(),
    {
        self.lemma_index_of(i);
    }

    proof fn lemma_absent(self, sid: Seq<char>)
        requires
            !self.contains_session(sid),
        ensures
            !self@.dom().contains(sid),
    {
    }

    /// An empty table: no session has unlocked anything.
    pub fn new() -> (r: Self)
        ensures
            r.wf(),
            r@ == Map::<Seq<char>, Set<Seq<char>>>::empty(),
    {
        let r = SessionTable { records: Vec::new() };
        proof {
            assert(r@ =~= Map::<Seq<char>, Set<Seq<char>>>::empty());
        }
        r
    }

    fn find(&self, session_id: &SessionId) -> (r: Option<usize>)
        ensures
            match r {
                Some(i) => i < self.records@.len() && self.records@[i as int].0@ == session_id@,
                None => !self.contains_session(session_id@),
            },
    {
        let n = self.records.len();
        let mut k: usize = 0;
        while k < n
            invariant
                n == self.records@.len(),
                k <= n,
                forall|i: int| 0 <= i < k ==> self.records@[i].0@ != session_id@,
            decreases n - k,
        {
            if self.records[k].0.eq(session_id) {
                return Some(k);
            }
            k += 1;
        }
        None
    }

    /// Pure read: true iff a record exists for the identifier and that
    /// record has unlocked the post. Never creates a record.
    pub fn is_authorized(&self, session_id: &SessionId, post_id: &PostId) -> (r: bool)
        requires
            self.wf(),
        ensures
            r == authorized_in(self@, session_id@, post_id@),
    {
        match self.find(session_id) {
            Some(i) => {
                let r = self.records[i].1.is_authorized_for(post_id);
                proof {
                    self.lemma_at(i as int);
                }
                r
            },
            None => {
                proof {
                    self.lemma_absent(session_id@);
                }
                false
            },
        }
    }

    /// Create-or-extend: resolves the session — the one supplied, or a
    /// freshly generated identifier — and records that it has unlocked the
    /// post. The whole change is one `grant` of the abstract map; everything
    /// else, and every other session, is untouched.
    pub fn authorize(&mut self, session_id: Option<SessionId>, post_id: PostId) -> (r: SessionId)
        requires
            old(self).wf(),
        ensures
            final(self).wf(),
            final(self)@ == grant(old(self)@, r@, post_id@),
            session_id matches Some(s) ==> r@ == s@,
    {
        let sid = match session_id {
            Some(s) => s,
            None => SessionId::new(),
        };
        let found = self.find(&sid);
        match found {
            Some(i) => {
                let ghost pre = *self;
                self.records[i].1.grant_post(post_id);
                proof {
                    Self::lemma_grant_existing(pre, *self, i as int, post_id@);
                }
                sid
            },
            None => {
                let ghost pre = *self;
                let mut data = SessionData::new();
                data.grant_post(post_id);
                self.records.push((sid.clone(), data));
                proof {
                    Self::lemma_grant_new(pre, *self, sid@, post_id@);
                }
                sid
            },
        }
    }

    proof fn lemma_grant_existing(pre: Self, post: Self, i: int, pid: Seq<char>)
        requires
            pre.wf(),
            0 <= i < pre.records@.len(),
            post.records@ == pre.records@.update(i, post.records@[i]),
            post.records@.len() == pre.records@.len(),
            post.records@[i].0@ == pre.records@[i].0@,
            post.records@[i].1.wf(),
            post.records@[i].1.posts() == pre.records@[i].1.posts().insert(pid),
        ensures
            post.wf(),
            post@ == grant(pre@, pre.records@[i].0@, pid),
    {
        let sid = pre.records@[i].0@;
        assert forall|a: int, b: int|
            0 <= a < b < post.records@.len() implies post.records@[a].0@
            != post.records@[b].0@ by {
            assert(post.records@[a].0@ == pre.records@[a].0@);
            assert(post.records@[b].0@ == pre.records@[b].0@);
        }
        assert forall|a: int| 0 <= a < post.records@.len() implies post.records@[a].1.wf() by {
            if a != i {
                assert(post.records@[a] == pre.records@[a]);
            }
        }
        assert(post.wf());
        pre.lemma_at(i);
        post.lemma_at(i);
        let m1 = post@;
        let m2 = grant(pre@, sid, pid);
        assert forall|s: Seq<char>| m1.dom().contains(s) == m2.dom().contains(s) by {
            assert(post.contains_session(s) == pre.contains_session(s)) by {
                if post.contains_session(s) {
                    let a = choose|a: int|
                        0 <= a < post.records@.len() && post.records@[a].0@ == s;
                    assert(pre.records@[a].0@ == s);
                }
                if pre.contains_session(s) {
                    let a = choose|a: int|
                        0 <= a < pre.records@.len() && pre.records@[a].0@ == s;
                    assert(post.records@[a].0@ == s);
                }
            }
        }
        assert forall|s: Seq<char>| m1.dom().contains(s) implies m1[s] == m2[s] by {
            if s == sid {
                assert(m1[s] == post.records@[i].1.posts());
                assert(m2[s] == pre.records@[i].1.posts().insert(pid));
            } else {
                let a = choose|a: int| 0 <= a < post.records@.len() && post.records@[a].0@ == s;
                assert(pre.records@[a].0@ == s);
                assert(a != i);
                pre.lemma_at(a);
                post.lemma_at(a);
                assert(post.records@[a] == pre.records@[a]);
            }
        }
        assert(m1 =~= m2);
    }

    proof fn lemma_grant_new(pre: Self, post: Self, sid: Seq<char>, pid: Seq<char>)
        requires
            pre.wf(),
            !pre.contains_session(sid),
            post.records@.len() == pre.records@.len() + 1,
            post.records@ == pre.records@.push(post.records@.last()),
            post.records@.last().0@ == sid,
            post.records@.last().1.wf(),
            post.records@.last().1.posts() == Set::<Seq<char>>::empty().insert(pid),
        ensures
            post.wf(),
            post@ == grant(pre@, sid, pid),
    {
        let n = pre.records@.len() as int;
        assert forall|a: int| 0 <= a < n implies pre.records@[a].0@ != sid by {
            if pre.records@[a].0@ == sid {
                assert(pre.contains_session(sid));
            }
        }
        assert forall|a: int, b: int|
            0 <= a < b < post.records@.len() implies post.records@[a].0@
            != post.records@[b].0@ by {
            if b < n {
                assert(post.records@[a] == pre.records@[a]);
                assert(post.records@[b] == pre.records@[b]);
            } else {
                assert(post.records@[a] == pre.records@[a]);
                assert(post.records@[b].0@ == sid);
            }
        }
        assert forall|a: int| 0 <= a < post.records@.len() implies post.records@[a].1.wf() by {
            if a < n {
                assert(post.records@[a] == pre.records@[a]);
            }
        }
        assert(post.wf());
        pre.lemma_absent(sid);
        post.lemma_at(n);
        let m1 = post@;
        let m2 = grant(pre@, sid, pid);
        assert forall|s: Seq<char>| m1.dom().contains(s) == m2.dom().contains(s) by {
            if s == sid {
                assert(post.records@[n].0@ == sid);
                assert(post.contains_session(sid));
            } else {
                assert(post.contains_session(s) == pre.contains_session(s)) by {
                    if post.contains_session(s) {
                        let a = choose|a: int|
                            0 <= a < post.records@.len() && post.records@[a].0@ == s;
                        assert(a < n);
                        assert(pre.records@[a].0@ == s);
                    }
                    if pre.contains_session(s) {
                        let a = choose|a: int|
                            0 <= a < pre.records@.len() && pre.records@[a].0@ == s;
                        assert(post.records@[a].0@ == s);
                    }
                }
            }
        }
        assert forall|s: Seq<char>| m1.dom().contains(s) implies m1[s] == m2[s] by {
            if s == sid {
                assert(m1[s] == post.records@[n].1.posts());
            } else {
                let a = choose|a: int| 0 <= a < post.records@.len() && post.records@[a].0@ == s;
                assert(a < n);
                assert(pre.records@[a].0@ == s);
                pre.lemma_at(a);
                post.lemma_at(a);
                assert(post.records@[a] == pre.records@[a]);
            }
        }
        assert(m1 =~= m2);
    }
}

} // verus!
