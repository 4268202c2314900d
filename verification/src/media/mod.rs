//! Local media server: what is served at `/stream` and at which pace.

pub mod http;
pub mod live;
pub mod pace;
pub mod path;
