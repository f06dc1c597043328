//! Verified core of a web framework that renders SvelteKit pages inside an
//! Axum route: the conversion of requests and responses between Axum and the
//! JavaScript runtime, the static-file routing rules and the small text
//! helpers they rest on.

pub mod text;
pub mod http;
pub mod request;
pub mod response;
pub mod static_files;
pub mod runtime;
pub mod demo;
