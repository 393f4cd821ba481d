//! In-memory representation of a DC (distributed class) schema: the miniature
//! type system, the field/struct/class models, the schema aggregate with its
//! deterministic 32-bit content hash, and the semantic analyzer that builds
//! the published aggregate from the parser's declaration trees.

pub mod dcfile;
pub mod dctype;
pub mod eventlog;
pub mod globals;
pub mod hashgen;
pub mod intermediate;
pub mod protocol;
pub mod semantics;
