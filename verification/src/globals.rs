//! Shared type aliases and the semantic-error taxonomy of the DC compiler.

use vstd::prelude::*;

verus! {

/// Wire size of a DC type in bytes; `0` marks a variable-length type.
pub type DgSizeTag = u16;

/// Numeric identifier of a field within a schema.
pub type FieldId = u16;

/// Numeric identifier of a distributed class within a schema.
pub type DClassId = u16;

/// A semantic error found while compiling a schema. Every variant aborts the
/// compilation: no partial schema is ever published.
#[derive(Debug, Clone, Copy, PartialEq, Eq, Structural)]
pub enum ParseError {
    /// Two class declarations were assigned the same class id.
    DuplicateClassId,
    /// Two field declarations were assigned the same field id.
    DuplicateFieldId,
    /// Two classes share one name.
    DuplicateClassName,
    /// Two structs share one name.
    DuplicateStructName,
    /// Two fields of one container share one name.
    DuplicateFieldName,
    /// Two typedef declarations share one alias.
    DuplicateTypeAlias,
    /// A class names a parent that no earlier declaration provides.
    UnresolvedParent,
    /// A field's declared type names neither a built-in keyword, a typedef,
    /// nor an earlier struct.
    UnresolvedType,
    /// A default-value literal does not fit the field's declared type.
    MalformedDefaultValue,
    /// The schema declares more fields or classes than the 16-bit id space holds.
    IdSpaceExhausted,
}

} // verus!
