//! Helpers shared by the models and the parser.

pub mod html;
pub mod text;
