//! A small, configuration-driven HTTP front end: routes each inbound request
//! path to a configured backend (a static file tree or a remote HTTP origin)
//! and, for proxy routes, builds the outbound request sent to that origin.
//!
//! This crate holds the verified core: path normalization, the route table
//! and its descending-lexicographic ordering, the request router, and the
//! reverse-proxy request/response construction rules.

use vstd::prelude::*;

pub mod forward;
pub mod origin;
pub mod routing;
pub mod settings;
pub mod text;

pub use settings::LogLevel;
pub use settings::Service;
pub use settings::ServiceMap;
pub use settings::Settings;
pub use text::spec_trim_final_slash;
pub use text::trim_final_slash;
