//! Source positions and errors for the scripting front end layered above the
//! console.  Only these carrier types have algorithmic content; the lexer and
//! parser built on them live outside this library.

pub mod error;
