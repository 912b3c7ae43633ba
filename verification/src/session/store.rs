use vstd::prelude::*;
use vstd::rwlock::{RwLock, RwLockPredicate};

use crate::post::entity::PostId;
use crate::session::entity::SessionId;
use crate::session::table::SessionTable;

verus! {

/// Everything that can go wrong in a session store. The in-memory store's
/// verified lock cannot be poisoned, so it never actually produces either
/// variant; the taxonomy stands for stores whose synchronization primitive
/// can fail.
#[derive(Debug)]
pub enum SessionStoreError {
    LockPoisoned(String),
    Unexpected,
}

impl SessionStoreError {
    /// A human-readable description of the error.
    pub fn message(&self) -> (r: String)
        ensures
            self matches SessionStoreError::LockPoisoned(detail) ==> r@ == "lock poisoned: "@ + detail@,
            self is Unexpected ==> r@ == "unexpected error"@,
    {
        match self {
            SessionStoreError::LockPoisoned(detail) => {
                let mut r = "lock poisoned: ".to_owned();
                r.append(detail.as_str());
                r
            },
            SessionStoreError::Unexpected => "unexpected error".to_owned(),
        }
    }
}

/// Holds when the resolved identifier a store returned is the one the caller
/// supplied, whenever the caller supplied one and the call succeeded.
pub open spec fn returns_given_id(
    session_id: Option<SessionId>,
    r: Result<SessionId, SessionStoreError>,
) -> bool {
    match (session_id, r) {
        (Some(s), Ok(id)) => id@ == s@,
        _ => true,
    }
}

/// A store of session authorizations, shared by every request handler: one
/// operation records that a session (an existing one, or one created on the
/// spot) has unlocked a post, the other asks whether a session has unlocked
/// a post. Implementations must be safe under concurrent calls.
pub trait SessionStore {
    /// Create-or-extend: records that the session — the one supplied, or a
    /// freshly created one — has unlocked the post, and returns the resolved
    /// session identifier for the caller to hand back to the client.
    fn create(&self, session_id: Option<SessionId>, post_id: PostId) -> (r: Result<
        SessionId,
        SessionStoreError,
    >)
        ensures
            returns_given_id(session_id, r),
    ;

    /// Pure read: whether the session has unlocked the post. Never creates
    /// a record. An unknown identifier is simply not authorized.
    fn authorized(&self, session_id: SessionId, post_id: PostId) -> (r: Result<
        bool,
        SessionStoreError,
    >);
}

/// The lock invariant of the in-memory store: the table under the lock is
/// always well-formed.
pub struct TableInv;

impl RwLockPredicate<SessionTable> for TableInv {
    open spec fn inv(self, v: SessionTable) -> bool {
        v.wf()
    }
}

/// The in-memory session store: a session table behind a read/write lock.
/// Writers are serialized, so no update is lost; readers see every write
/// that completed before their read began. The lock hides the table from
/// callers' contracts, so the functional behaviour of each operation — what
/// one grant does to the map, and what a read returns — is specified and
/// proved on [`SessionTable`]; the lock's invariant keeps the table
/// well-formed between operations.
pub struct MemorySessionStore {
    sessions: RwLock<SessionTable, TableInv>,
}

impl MemorySessionStore {
    /// A fresh store with no sessions. Sessions live for the lifetime of
    /// the store; nothing evicts them.
    pub fn new() -> Self {
        MemorySessionStore { sessions: RwLock::new(SessionTable::new(), Ghost(TableInv)) }
    }
}

impl SessionStore for MemorySessionStore {
    fn create(&self, session_id: Option<SessionId>, post_id: PostId) -> (r: Result<
        SessionId,
        SessionStoreError,
    >)
        ensures
            r is Ok,
    {
        let (mut table, handle) = self.sessions.acquire_write();
        let id = table.authorize(session_id, post_id);
        handle.release_write(table);
        Ok(id)
    }

    fn authorized(&self, session_id: SessionId, post_id: PostId) -> (r: Result<
        bool,
        SessionStoreError,
    >)
        ensures
            r is Ok,
    {
        let read_handle = self.sessions.acquire_read();
        let b = read_handle.borrow().is_authorized(&session_id, &post_id);
        read_handle.release_read();
        Ok(b)
    }
}

} // verus!
