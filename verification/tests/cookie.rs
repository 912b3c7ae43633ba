use poster::cookie::cookie_value;
use poster::post::entity::{Post, PostId};

#[test]
fn finds_a_cookie_among_several() {
    let header = "theme=dark; session_id=abc123; lang=en";
    assert_eq!(cookie_value(header, "session_id"), Some("abc123".to_string()));
    assert_eq!(cookie_value(header, "theme"), Some("dark".to_string()));
    assert_eq!(cookie_value(header, "lang"), Some("en".to_string()));
}

#[test]
fn missing_name_yields_nothing() {
    assert_eq!(cookie_value("theme=dark; lang=en", "session_id"), None);
    assert_eq!(cookie_value("", "session_id"), None);
    assert_eq!(cookie_value("session_id", "session_id"), None);
}

#[test]
fn last_binding_wins() {
    assert_eq!(
        cookie_value("session_id=first; session_id=second", "session_id"),
        Some("second".to_string())
    );
}

#[test]
fn blanks_around_pairs_are_stripped() {
    assert_eq!(
        cookie_value("theme=dark;  session_id=abc", "session_id"),
        Some("abc".to_string())
    );
    // Trailing blanks belong to the piece, not the value, and are stripped.
    assert_eq!(
        cookie_value("\tsession_id=abc ", "session_id"),
        Some("abc".to_string())
    );
}

#[test]
fn blanks_inside_a_pair_are_kept() {
    // A space before `=` belongs to the key, so the plain name no longer
    // matches — exactly as a hash-map built from split pairs behaves.
    assert_eq!(cookie_value("session_id =abc", "session_id"), None);
    assert_eq!(cookie_value("session_id= abc", "session_id"), Some(" abc".to_string()));
}

#[test]
fn value_may_contain_equals_signs() {
    assert_eq!(
        cookie_value("token=a=b=c; x=1", "token"),
        Some("a=b=c".to_string())
    );
}

#[test]
fn empty_value_is_still_a_binding() {
    assert_eq!(cookie_value("session_id=", "session_id"), Some(String::new()));
}

#[test]
fn malformed_pieces_are_ignored() {
    assert_eq!(
        cookie_value("garbage; ;; session_id=s; also garbage", "session_id"),
        Some("s".to_string())
    );
}

#[test]
fn password_check_is_plain_equality() {
    let protected = Post {
        id: PostId::new("alpha"),
        password: Some("secret".to_string()),
    };
    assert!(protected.password_matches("secret"));
    assert!(!protected.password_matches("Secret"));
    assert!(!protected.password_matches(""));

    let public = Post {
        id: PostId::new("beta"),
        password: None,
    };
    assert!(!public.password_matches("secret"));
    assert!(!public.password_matches(""));
}
