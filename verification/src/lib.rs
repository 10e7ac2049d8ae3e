//! Verified core of a static site generator with HTMX support: content
//! hashing, fragment extraction, SEO and structured-data injection,
//! resource hints, audit reporting and the other page transformations of
//! the build pipeline.

pub mod text;
pub mod regexp;
pub mod html;
pub mod config;
pub mod build;
pub mod assets;
pub mod cli;
