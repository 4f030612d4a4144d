//! css2tw core: turns CSS rules into Tailwind CSS utility classes.

pub mod text;
pub mod variant;
pub mod number;
pub mod config;
pub mod diagnostics;
pub mod error;
pub mod source;
pub mod report;
pub mod tailwind;
pub mod css;
pub mod rewrite;
pub mod converter;
pub mod migration;
pub mod mcp;
