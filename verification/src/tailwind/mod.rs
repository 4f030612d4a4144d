//! Mapping CSS declarations to Tailwind utility classes.

pub mod detector;
pub mod mapping;
pub mod values;
pub mod vars;
