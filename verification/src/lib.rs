//! A verified streaming delivery engine for an append-only log of chat
//! messages, together with the small mock services built around it: an
//! in-memory message/video store behind readers-writer locks, an opaque
//! resumable cursor codec, a per-attach delivery session state machine,
//! and a token-issuance table with expiry checking.

pub mod control;
pub mod cursor;
pub mod datastore;
pub mod domain;
pub mod live_chat;
pub mod oauth;
pub mod text;
pub mod video_api;
