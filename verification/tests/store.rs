use poster::post::entity::{Post, PostId};
use poster::session::entity::SessionId;
use poster::session::store::{MemorySessionStore, SessionStore};
use poster::session::table::SessionTable;

#[test]
fn authorize_without_session_creates_one() {
    let store = MemorySessionStore::new();
    let sid = store
        .create(None, PostId::new("alpha"))
        .expect("create should succeed");
    let ok = store
        .authorized(sid.clone(), PostId::new("alpha"))
        .expect("authorized should succeed");
    assert!(ok);
}

#[test]
fn authorization_is_additive() {
    let store = MemorySessionStore::new();
    let sid = SessionId::from_string("some-session".to_string());
    store
        .create(Some(sid.clone()), PostId::new("first"))
        .expect("create should succeed");
    store
        .create(Some(sid.clone()), PostId::new("second"))
        .expect("create should succeed");
    assert!(store
        .authorized(sid.clone(), PostId::new("first"))
        .expect("authorized should succeed"));
    assert!(store
        .authorized(sid, PostId::new("second"))
        .expect("authorized should succeed"));
}

#[test]
fn unseen_session_is_not_authorized_and_leaves_no_record() {
    let store = MemorySessionStore::new();
    let sid = SessionId::from_string("unseen".to_string());
    assert!(!store
        .authorized(sid.clone(), PostId::new("alpha"))
        .expect("authorized should succeed"));
    // The read left no phantom record: a later authorization for the same
    // identifier behaves exactly like a first one.
    let resolved = store
        .create(Some(sid.clone()), PostId::new("alpha"))
        .expect("create should succeed");
    assert_eq!(resolved, sid);
    assert!(store
        .authorized(sid, PostId::new("alpha"))
        .expect("authorized should succeed"));
}

#[test]
fn authorize_twice_is_idempotent() {
    let store = MemorySessionStore::new();
    let sid = SessionId::from_string("twice".to_string());
    store
        .create(Some(sid.clone()), PostId::new("alpha"))
        .expect("create should succeed");
    store
        .create(Some(sid.clone()), PostId::new("alpha"))
        .expect("create should succeed");
    assert!(store
        .authorized(sid, PostId::new("alpha"))
        .expect("authorized should succeed"));
}

#[test]
fn many_authorizations_lose_no_update() {
    let store = MemorySessionStore::new();
    let sid = SessionId::from_string("busy-session".to_string());
    let names: Vec<String> = (0..32).map(|i| format!("post-{}", i)).collect();
    for name in &names {
        store
            .create(Some(sid.clone()), PostId::new(name))
            .expect("create should succeed");
    }
    for name in &names {
        assert!(store
            .authorized(sid.clone(), PostId::new(name))
            .expect("authorized should succeed"));
    }
}

#[test]
fn scenario_password_login_then_view() {
    // Post "alpha" carries password "secret". The caller checks the password
    // itself; the session store only records the authorization.
    let post = Post {
        id: PostId::new("alpha"),
        password: Some("secret".to_string()),
    };
    let supplied = "secret".to_string();
    assert_eq!(post.password.as_deref(), Some(supplied.as_str()));

    let store = MemorySessionStore::new();
    let s1 = store
        .create(None, post.id.clone())
        .expect("create should succeed");
    assert!(store
        .authorized(s1.clone(), PostId::new("alpha"))
        .expect("authorized should succeed"));
    assert!(!store
        .authorized(s1, PostId::new("beta"))
        .expect("authorized should succeed"));
}

#[test]
fn scenario_unknown_session_string() {
    let store = MemorySessionStore::new();
    let sid = SessionId::from_string("not-a-real-session".to_string());
    let ok = store
        .authorized(sid, PostId::new("alpha"))
        .expect("authorized should succeed, not error");
    assert!(!ok);
}

#[test]
fn scenario_two_posts_one_session() {
    let store = MemorySessionStore::new();
    let s1 = SessionId::from_string("s1".to_string());
    store
        .create(Some(s1.clone()), PostId::new("alpha"))
        .expect("create should succeed");
    store
        .create(Some(s1.clone()), PostId::new("beta"))
        .expect("create should succeed");
    assert!(store
        .authorized(s1.clone(), PostId::new("alpha"))
        .expect("authorized should succeed"));
    assert!(store
        .authorized(s1, PostId::new("beta"))
        .expect("authorized should succeed"));
}

#[test]
fn table_tracks_sessions_directly() {
    let mut table = SessionTable::new();
    let sid = table.authorize(None, PostId::new("alpha"));
    assert!(table.is_authorized(&sid, &PostId::new("alpha")));
    assert!(!table.is_authorized(&sid, &PostId::new("beta")));

    let other = table.authorize(Some(SessionId::from_string("o".to_string())), PostId::new("beta"));
    assert_eq!(other, SessionId::from_string("o".to_string()));
    assert!(table.is_authorized(&other, &PostId::new("beta")));
    // The first session gained nothing from the second one's grant.
    assert!(!table.is_authorized(&sid, &PostId::new("beta")));
}

#[test]
fn generated_identifiers_resolve_to_their_own_session() {
    let store = MemorySessionStore::new();
    let s1 = store
        .create(None, PostId::new("alpha"))
        .expect("create should succeed");
    let s2 = store
        .create(None, PostId::new("beta"))
        .expect("create should succeed");
    assert!(store
        .authorized(s1.clone(), PostId::new("alpha"))
        .expect("authorized should succeed"));
    assert!(store
        .authorized(s2.clone(), PostId::new("beta"))
        .expect("authorized should succeed"));
    if s1 != s2 {
        // With distinct identifiers neither session sees the other's post.
        assert!(!store
            .authorized(s1, PostId::new("beta"))
            .expect("authorized should succeed"));
        assert!(!store
            .authorized(s2, PostId::new("alpha"))
            .expect("authorized should succeed"));
    }
}
