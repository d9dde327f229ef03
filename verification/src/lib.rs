//! A line-oriented preprocessor for GNU-assembler source.
//!
//! The crate rewrites local-label scoping and global-symbol declarations
//! into plain assembler plus C-preprocessor directives, while passing all
//! other text through unchanged.  The scanner is a finite-state machine
//! driven one character at a time; the emitter is an append-only text
//! buffer that tracks the source file name and the current line number.

pub mod numeral;
pub mod output;
pub mod processor;
