//! Scaffolding of exercise folders: a command-line token parser, a folder
//! name sanitizer, and the fixed file set that each language gets.

pub mod text;
pub mod lang;
pub mod errors;
pub mod sanitize;
pub mod parse;
pub mod parse_laws;
pub mod project;
