//! Build steps: page transformations, generated files and the audit.

pub mod seo;
pub mod view_transitions;
pub mod audit;
pub mod content_hash;
pub mod context;
pub mod fragments;
pub mod critical_css;
pub mod robots;
pub mod render;
pub mod sitemap;
pub mod minify;
pub mod hints;
pub mod json_ld;
pub mod feed;
pub mod not_found;
pub mod bundling;
pub mod expressions;
pub mod dist_files;
pub mod css_rules;
