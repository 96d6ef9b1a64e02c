//! Requests to the TypeSafe AI "Jev" service: questions of three kinds, a
//! request that gathers them, a builder that checks a request is complete,
//! token usage and budgets, and the settings a client needs.

pub mod builder;
pub mod client;
pub mod error;
pub mod laws;
pub mod question;
pub mod request;
pub mod string_map;
pub mod usage;

pub use builder::JevRequestBuilder;
pub use error::JevError;
pub use question::Question;
pub use request::JevRequest;
pub use usage::Usage;
