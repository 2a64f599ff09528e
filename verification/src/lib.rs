//! The decisions behind a document database's HTTP edge.

pub mod audit;
pub mod backup;
pub mod codec;
pub mod delivery_laws;
pub mod dispatch;
pub mod error;
pub mod error_laws;
pub mod exec;
pub mod expiry;
pub mod federation;
pub mod json;
pub mod json_laws;
pub mod limiter_laws;
pub mod limits;
pub mod local_login;
pub mod message_laws;
pub mod metrics;
pub mod node_laws;
pub mod ownership;
pub mod progress;
pub mod ratelimit;
pub mod roles;
pub mod text;
pub mod text_laws;

pub use audit::AuditMode;
pub use error::ApiError;
pub use metrics::Metrics;
pub use ratelimit::{Limiter, RateLimit, RateLimits};
