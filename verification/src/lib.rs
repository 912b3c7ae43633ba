//! A small library behind a markdown post server: typed identifiers for posts
//! and browser sessions, parameter builders for the HTTP server and the
//! project initializer, an error taxonomy, and — at its core — a session
//! authorization store that tracks which anonymous sessions have proven
//! knowledge of which posts' passwords.
//!
//! The session store is the interesting part: it is a lock-protected map from
//! opaque session identifiers to the set of post identifiers each session has
//! unlocked. Its operations carry full functional contracts, and the laws the
//! store obeys (authorization is additive, idempotent, and absent sessions are
//! never authorized) are stated and proved alongside it. A verified parser
//! for `Cookie` headers extracts the session identifier a request presents.

pub mod api;
pub mod cli;
pub mod cookie;
pub mod http_params;
pub mod init_params;
pub mod post;
pub mod session;
