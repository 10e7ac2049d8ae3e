//! Asset handling: responsive image markup.

pub mod html_rewrite;
