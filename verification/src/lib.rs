//! Extraction of comment text from source files of several programming
//! languages, with exact byte spans.

pub mod bytes;
pub mod engine;
pub mod error;
pub mod lang;
pub mod parser;
pub mod parsers;
pub mod profile;
pub mod state;
pub mod substr;
pub mod token;
