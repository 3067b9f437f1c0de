//! Turn a web site URL into an installable application package.
//!
//! The crate covers the metadata pipeline (extract a site descriptor from
//! HTML, parse a web-app manifest, resolve relative URLs, merge the two
//! sources) and the package builder (derive a bounded identifier, render the
//! packaging control files, and assemble the nested archive in memory).
//! Network and filesystem work stays with the caller.

pub mod archive;
pub mod click;
pub mod color;
pub mod html;
pub mod json;
pub mod lossy;
pub mod manifest;
pub mod model;
pub mod pipeline;
pub mod resolve;
pub mod site;
pub mod strutil;
pub mod urls;

pub use lossy::LossyVec;
pub use resolve::{ResolvableConst, ResolveType, Resolved, Unresolved};
pub use urls::validate_url;
