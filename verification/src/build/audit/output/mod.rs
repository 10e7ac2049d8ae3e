//! Rendering of the audit report.

pub mod html;
pub mod markdown;
