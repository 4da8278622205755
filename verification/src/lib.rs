//! A streaming XML tokenizer and tag-assembling parser.
//!
//! The crate is layered: a position-tracking character reader with XML 1.1
//! line-ending normalization and restricted-character classification
//! ([`lexer::XmlLexer`]), a tokenizer built on top of it that produces markup
//! tokens, and a finite-state parser ([`parser::XmlParser`]) that assembles
//! elements, attributes and text content into a tree while accumulating
//! position-stamped errors instead of aborting on the first fault.

pub mod chars;
pub mod error;
pub mod laws;
pub mod lexer;
pub mod node;
pub mod parser;
