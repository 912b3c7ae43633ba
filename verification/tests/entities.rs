use poster::api::ApiError;
use poster::post::entity::PostId;
use poster::post::store::PostStoreError;
use poster::session::entity::{SessionData, SessionId};
use poster::session::store::SessionStoreError;

#[test]
fn post_id_round_trips_its_text() {
    let id = PostId::new("alpha");
    assert_eq!(id.as_str(), "alpha");
    assert_eq!(id.clone().into_string(), "alpha".to_string());
    assert_eq!(PostId::from_string("alpha".to_string()), id);
    assert_ne!(PostId::new("beta"), id);
}

#[test]
fn session_id_round_trips_its_text() {
    let id = SessionId::from_string("any text at all".to_string());
    assert_eq!(id.as_str(), "any text at all");
    assert_eq!(id.clone().into_string(), "any text at all".to_string());
    assert_eq!(id.clone(), id);
    assert_ne!(SessionId::from_string("other".to_string()), id);
}

#[test]
fn session_data_starts_empty_and_collects_posts() {
    let mut data = SessionData::new();
    assert!(data.authorized_posts.is_empty());
    assert!(!data.is_authorized_for(&PostId::new("alpha")));

    data.grant_post(PostId::new("alpha"));
    assert!(data.is_authorized_for(&PostId::new("alpha")));
    assert!(!data.is_authorized_for(&PostId::new("beta")));

    // Granting the same post again does not duplicate it.
    data.grant_post(PostId::new("alpha"));
    assert_eq!(data.authorized_posts.len(), 1);

    data.grant_post(PostId::new("beta"));
    assert!(data.is_authorized_for(&PostId::new("beta")));
    assert_eq!(data.authorized_posts.len(), 2);
}

#[test]
fn post_store_error_messages() {
    assert_eq!(PostStoreError::PostNotFound.message(), "post not found");
    assert_eq!(
        PostStoreError::FailedToCreatePost("disk full".to_string()).message(),
        "failed to create post: disk full"
    );
    assert_eq!(PostStoreError::Unexpected.message(), "unexpected error");
}

#[test]
fn session_store_error_messages() {
    assert_eq!(
        SessionStoreError::LockPoisoned("a writer panicked".to_string()).message(),
        "lock poisoned: a writer panicked"
    );
    assert_eq!(SessionStoreError::Unexpected.message(), "unexpected error");
}

#[test]
fn api_error_message() {
    assert_eq!(ApiError::PostNotFound.message(), "Post not found");
    assert_eq!(ApiError::PostNotFound, ApiError::PostNotFound);
}
