//! Verified core of a workspace manager for cloud resource references.
//!
//! The crate models named projects of Lambda and S3 resource descriptors,
//! the workspace document that persists them together with the last
//! interface selection, and the decision logic of the resolver that turns
//! listings and lookups from the cloud APIs into resources. File and
//! network transfer stay outside; the surrounding application hands plain
//! values in and out.

pub mod service;
pub mod text;
pub mod resource_descriptor;
pub mod project;
pub mod appearance;
pub mod error;
pub mod document;
pub mod workspace;
pub mod resource;
pub mod profiles;
pub mod pane;
