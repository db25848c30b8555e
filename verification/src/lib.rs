//! Colour algebra, matrix expansion and override merging for theme templates.

pub mod cli;
pub mod context;
pub mod css;
pub mod filters;
pub mod hex;
pub mod matrix;
pub mod models;
pub mod ordered;
pub mod palette;
pub mod source;
pub mod templating;
