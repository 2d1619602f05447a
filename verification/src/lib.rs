//! A line-oriented command interpreter front end: a line of text is split into
//! tokens, classified as a built-in operation or an external program
//! invocation, and turned into the report of what its handler does.

pub mod builtin;
pub mod command;
pub mod dispatcher;
pub mod error;
pub mod external;
pub mod text;
pub mod tokenizer;

pub use builtin::BuiltInCommand;
pub use command::Command;
pub use error::ErrorKind;
pub use external::ExternalCommand;
