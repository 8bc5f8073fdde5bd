//! Front-end parser and in-memory model for the ASN.1 Information Object
//! System (CLASS, OBJECT and OBJECT SET constructs of X.681--X.683).
//!
//! The parsers work on an ordered slice of classified tokens handed in by a
//! tokenizer; each returns the parsed structure together with the number of
//! tokens consumed, so a caller can advance a cursor over one shared buffer.
//! Every parser is specified against a mathematical parsing function over the
//! token sequence, and the executable code is proved to return exactly what
//! that function describes, for every input.

pub mod error;
pub mod ioc;
pub mod parse_ioc;
pub mod token;
pub mod types;
pub mod values;
