//! Spacing correction between CJK and Latin text inside the comments and
//! string literals of source files.

pub mod bytes;
pub mod charclass;
pub mod diagnostic;
pub mod driver;
pub mod engine;
pub mod grammar;
pub mod java;
pub mod json;
pub mod laws;
pub mod registry;
pub mod result;
pub mod rules;
pub mod span;
pub mod spacing;
pub mod stability;
pub mod text;
