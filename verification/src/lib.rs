pub mod error;
pub mod host;
pub mod ip;
pub mod rate_limiter;
pub mod rules;
pub mod ruleset;
pub mod services;
pub mod text;
pub mod time;
