//! A configurable multi-endpoint API client registry.
//!
//! A `NinjaAPI` registry owns a base URL, an API key, and a collection of
//! API modules. Each module is built from an [`ApiConfig`] template and
//! carries one named, mutable query parameter per declared parameter name.
//! The registry resolves a module by name, binds caller-supplied parameter
//! values, and assembles the full request URL; issuing the request over a
//! transport is the embedding application's concern.

pub mod catalog;
pub mod error;
pub mod module;
pub mod param;
pub mod registry;

pub use catalog::generate_api_configurations;
pub use error::ApiError;
pub use module::{Api, ApiConfig};
pub use param::ApiParam;
pub use registry::{classify_status, NinjaAPI};
