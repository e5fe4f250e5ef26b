//! Event-sourced core of a URL-shortening service.
//!
//! Every state change is recorded as an immutable event in an append-only
//! log; the current state is a pure fold of that log into three derived
//! read-models (slug existence index, slug directory, click counter).
//! Commands validate against the read-models, append exactly one event and
//! apply it; queries read the read-models only.

pub mod commands;
pub mod domain;
pub mod events;
pub mod projections;
pub mod queries;
pub mod service;

pub use crate::domain::ShortLink;
pub use crate::domain::ShortenerError;
pub use crate::domain::Slug;
pub use crate::domain::Stats;
pub use crate::domain::Url;
pub use crate::service::UrlShortenerService;
