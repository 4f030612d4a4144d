//! Reading stylesheets: rules, selectors, variables, and what applies to an element.

pub mod classes;
pub mod dom;
pub mod lightning;
pub mod media;
pub mod parser;
pub mod resolver;
pub mod selector;
