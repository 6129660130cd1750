//! Parsing of line-oriented turtle-graphics programs into typed commands.

pub mod command;
pub mod direction;
pub mod document;
pub mod error;
pub mod number;
pub mod syntax;
pub mod text;

pub use command::Command;
pub use direction::Direction;
pub use document::parse_lines;
pub use error::{NumberError, ParseError};
