//! The miniature DC type system: every primitive and compound wire type, the
//! optional user alias attached by a `typedef`, and the compact tagged
//! representation of numeric literal values.

use crate::globals::DgSizeTag;
use crate::hashgen::{int_hash, str_hash, DCHashGenerator};
use vstd::prelude::*;

verus! {

/// Every data type of the DC language. Each variant carries a stable
/// small-integer tag (see [`tag_of`]) that is fed verbatim into the schema
/// hash; wire compatibility across implementations depends on those tags
/// never changing.
#[derive(Debug, Clone, Copy, PartialEq, Eq, Structural)]
pub enum DCTypeEnum {
    TInt8,
    TInt16,
    TInt32,
    TInt64,
    TUInt8,
    TUInt16,
    TUInt32,
    TUInt64,
    TChar,
    TFloat32,
    TFloat64,
    TString,
    TVarString,
    TBlob,
    TVarBlob,
    TBlob32,
    TVarBlob32,
    TArray,
    TVarArray,
    TStruct,
    TMethod,
    TInvalid,
}

/// The stable hash tag of each type variant.
pub open spec fn tag_of(t: DCTypeEnum) -> u8 {
    match t {
        DCTypeEnum::TInt8 => 0,
        DCTypeEnum::TInt16 => 1,
        DCTypeEnum::TInt32 => 2,
        DCTypeEnum::TInt64 => 3,
        DCTypeEnum::TUInt8 => 4,
        DCTypeEnum::TUInt16 => 5,
        DCTypeEnum::TUInt32 => 6,
        DCTypeEnum::TUInt64 => 7,
        DCTypeEnum::TChar => 8,
        DCTypeEnum::TFloat32 => 9,
        DCTypeEnum::TFloat64 => 10,
        DCTypeEnum::TString => 11,
        DCTypeEnum::TVarString => 12,
        DCTypeEnum::TBlob => 13,
        DCTypeEnum::TVarBlob => 14,
        DCTypeEnum::TArray => 15,
        DCTypeEnum::TVarArray => 16,
        DCTypeEnum::TStruct => 17,
        DCTypeEnum::TMethod => 18,
        DCTypeEnum::TBlob32 => 19,
        DCTypeEnum::TVarBlob32 => 20,
        DCTypeEnum::TInvalid => 21,
    }
}

/// The canonical lowercase keyword of each type variant, as rendered in
/// diagnostics.
pub open spec fn keyword_of(t: DCTypeEnum) -> Seq<char> {
    match t {
        DCTypeEnum::TInt8 => "int8"@,
        DCTypeEnum::TInt16 => "int16"@,
        DCTypeEnum::TInt32 => "int32"@,
        DCTypeEnum::TInt64 => "int64"@,
        DCTypeEnum::TUInt8 => "uint8"@,
        DCTypeEnum::TUInt16 => "uint16"@,
        DCTypeEnum::TUInt32 => "uint32"@,
        DCTypeEnum::TUInt64 => "uint64"@,
        DCTypeEnum::TChar => "char"@,
        DCTypeEnum::TFloat32 => "float32"@,
        DCTypeEnum::TFloat64 => "float64"@,
        DCTypeEnum::TString => "string"@,
        DCTypeEnum::TVarString => "var string"@,
        DCTypeEnum::TBlob => "blob"@,
        DCTypeEnum::TVarBlob => "var blob"@,
        DCTypeEnum::TBlob32 => "blob32"@,
        DCTypeEnum::TVarBlob32 => "var blob32"@,
        DCTypeEnum::TArray => "array"@,
        DCTypeEnum::TVarArray => "var array"@,
        DCTypeEnum::TStruct => "struct"@,
        DCTypeEnum::TMethod => "method"@,
        DCTypeEnum::TInvalid => "invalid"@,
    }
}

/// The fixed wire size of each type variant in bytes; `0` for every
/// variable-length or structural kind.
pub open spec fn fixed_size_of(t: DCTypeEnum) -> u16 {
    match t {
        DCTypeEnum::TInt8 => 1,
        DCTypeEnum::TInt16 => 2,
        DCTypeEnum::TInt32 => 4,
        DCTypeEnum::TInt64 => 8,
        DCTypeEnum::TUInt8 => 1,
        DCTypeEnum::TUInt16 => 2,
        DCTypeEnum::TUInt32 => 4,
        DCTypeEnum::TUInt64 => 8,
        DCTypeEnum::TChar => 1,
        DCTypeEnum::TFloat32 => 4,
        DCTypeEnum::TFloat64 => 8,
        _ => 0,
    }
}

impl DCTypeEnum {
    /// The stable small-integer tag fed into the schema hash.
    pub fn to_tag(&self) -> (r: u8)
        ensures
            r == tag_of(*self),
    {
        match self {
            DCTypeEnum::TInt8 => 0,
            DCTypeEnum::TInt16 => 1,
            DCTypeEnum::TInt32 => 2,
            DCTypeEnum::TInt64 => 3,
            DCTypeEnum::TUInt8 => 4,
            DCTypeEnum::TUInt16 => 5,
            DCTypeEnum::TUInt32 => 6,
            DCTypeEnum::TUInt64 => 7,
            DCTypeEnum::TChar => 8,
            DCTypeEnum::TFloat32 => 9,
            DCTypeEnum::TFloat64 => 10,
            DCTypeEnum::TString => 11,
            DCTypeEnum::TVarString => 12,
            DCTypeEnum::TBlob => 13,
            DCTypeEnum::TVarBlob => 14,
            DCTypeEnum::TBlob32 => 19,
            DCTypeEnum::TVarBlob32 => 20,
            DCTypeEnum::TArray => 15,
            DCTypeEnum::TVarArray => 16,
            DCTypeEnum::TStruct => 17,
            DCTypeEnum::TMethod => 18,
            DCTypeEnum::TInvalid => 21,
        }
    }

    /// The fixed wire size of this type in bytes; `0` for variable-length
    /// and structural kinds.
    pub fn to_fixed_size(&self) -> (r: u16)
        ensures
            r == fixed_size_of(*self),
    {
        match self {
            DCTypeEnum::TInt8 => 1,
            DCTypeEnum::TInt16 => 2,
            DCTypeEnum::TInt32 => 4,
            DCTypeEnum::TInt64 => 8,
            DCTypeEnum::TUInt8 => 1,
            DCTypeEnum::TUInt16 => 2,
            DCTypeEnum::TUInt32 => 4,
            DCTypeEnum::TUInt64 => 8,
            DCTypeEnum::TChar => 1,
            DCTypeEnum::TFloat32 => 4,
            DCTypeEnum::TFloat64 => 8,
            _ => 0,
        }
    }

    /// The canonical lowercase keyword used for diagnostics.
    pub fn to_dc_keyword(&self) -> (r: String)
        ensures
            r@ == keyword_of(*self),
    {
        match self {
            DCTypeEnum::TInt8 => String::from_str("int8"),
            DCTypeEnum::TInt16 => String::from_str("int16"),
            DCTypeEnum::TInt32 => String::from_str("int32"),
            DCTypeEnum::TInt64 => String::from_str("int64"),
            DCTypeEnum::TUInt8 => String::from_str("uint8"),
            DCTypeEnum::TUInt16 => String::from_str("uint16"),
            DCTypeEnum::TUInt32 => String::from_str("uint32"),
            DCTypeEnum::TUInt64 => String::from_str("uint64"),
            DCTypeEnum::TChar => String::from_str("char"),
            DCTypeEnum::TFloat32 => String::from_str("float32"),
            DCTypeEnum::TFloat64 => String::from_str("float64"),
            DCTypeEnum::TString => String::from_str("string"),
            DCTypeEnum::TVarString => String::from_str("var string"),
            DCTypeEnum::TBlob => String::from_str("blob"),
            DCTypeEnum::TVarBlob => String::from_str("var blob"),
            DCTypeEnum::TBlob32 => String::from_str("blob32"),
            DCTypeEnum::TVarBlob32 => String::from_str("var blob32"),
            DCTypeEnum::TArray => String::from_str("array"),
            DCTypeEnum::TVarArray => String::from_str("var array"),
            DCTypeEnum::TStruct => String::from_str("struct"),
            DCTypeEnum::TMethod => String::from_str("method"),
            DCTypeEnum::TInvalid => String::from_str("invalid"),
        }
    }
}

/// Abstract value of a [`DCTypeDefinition`].
pub struct TypeModel {
    pub alias: Option<Seq<char>>,
    pub data_type: DCTypeEnum,
    pub size: u16,
}

/// The hash contribution of one type definition: its numeric tag, then —
/// only when an alias is present — the alias string. An aliased typedef and
/// the bare built-in type therefore hash differently, by design.
pub open spec fn type_hash(h: u32, t: TypeModel) -> u32 {
    let h1 = int_hash(h, tag_of(t.data_type) as i32);
    match t.alias {
        Some(a) => str_hash(h1, a),
        None => h1,
    }
}

/// One type as declared in a schema: a data-type kind, a wire size (`0` for
/// variable-length), and — for user `typedef` declarations only — an alias
/// name. Immutable once constructed by the analyzer.
#[derive(Debug, Clone, PartialEq, Eq)]
pub struct DCTypeDefinition {
    alias: Option<String>,
    pub data_type: DCTypeEnum,
    pub size: DgSizeTag,
}

impl View for DCTypeDefinition {
    type V = TypeModel;

    closed spec fn view(&self) -> TypeModel {
        TypeModel {
            alias: match self.alias {
                Some(a) => Some(a@),
                None => None,
            },
            data_type: self.data_type,
            size: self.size,
        }
    }
}

impl Default for DCTypeDefinition {
    /// An invalid, variable-length, alias-free definition.
    fn default() -> (r: Self)
        ensures
            r@.alias is None,
            r@.data_type == DCTypeEnum::TInvalid,
            r@.size == 0,
    {
        DCTypeDefinition { alias: None, data_type: DCTypeEnum::TInvalid, size: 0u16 }
    }
}

impl DCTypeDefinition {
    /// Creates a new empty DCTypeDefinition struct.
    pub(crate) fn new() -> (r: Self)
        ensures
            r@.alias is None,
            r@.data_type == DCTypeEnum::TInvalid,
            r@.size == 0,
    {
        DCTypeDefinition { alias: None, data_type: DCTypeEnum::TInvalid, size: 0u16 }
    }

    /// Creates a new DCTypeDefinition struct with a DC type set and no alias;
    /// the size starts at `0` until the analyzer resolves it.
    pub fn new_with_type(dt: DCTypeEnum) -> (r: Self)
        ensures
            r@.alias is None,
            r@.data_type == dt,
            r@.size == 0,
    {
        DCTypeDefinition { alias: None, data_type: dt, size: 0u16 }
    }

    /// Accumulates the properties of this DC element into the file hash.
    pub fn generate_hash(&self, hashgen: &mut DCHashGenerator)
        ensures
            final(hashgen)@ == type_hash(old(hashgen)@, self@),
    {
        hashgen.add_int(self.data_type.to_tag() as i32);
        match &self.alias {
            Some(a) => hashgen.add_string(a.as_str()),
            None => (),
        }
    }

    /// The data-type kind of this definition.
    pub fn get_dc_type(&self) -> (r: DCTypeEnum)
        ensures
            r == self@.data_type,
    {
        self.data_type
    }

    /// True iff the declared wire size is `0`, the marker of a
    /// variable-length type.
    pub fn is_variable_length(&self) -> (r: bool)
        ensures
            r == (self@.size == 0),
    {
        self.size == 0u16
    }

    /// The declared wire size in bytes; `0` for variable-length types.
    pub fn get_size(&self) -> (r: DgSizeTag)
        ensures
            r == self@.size,
    {
        self.size
    }

    /// True iff a user alias is attached.
    pub fn has_alias(&self) -> (r: bool)
        ensures
            r == (self@.alias is Some),
    {
        self.alias.is_some()
    }

    /// The attached alias, or `Err` when the definition has none.
    pub fn get_alias(&self) -> (r: Result<String, ()>)
        ensures
            match r {
                Ok(a) => self@.alias == Some(a@),
                Err(()) => self@.alias is None,
            },
    {
        match &self.alias {
            Some(a) => Ok(a.clone()),
            None => Err(()),
        }
    }

    /// Attaches a user alias name; the other properties are untouched.
    pub fn set_alias(&mut self, alias: String)
        ensures
            final(self)@.alias == Some(alias@),
            final(self)@.data_type == old(self)@.data_type,
            final(self)@.size == old(self)@.size,
    {
        self.alias = Some(alias);
    }

    /// Sets the declared wire size; everything else is untouched.
    pub fn set_size(&mut self, size: DgSizeTag)
        ensures
            final(self)@.size == size,
            final(self)@.alias == old(self)@.alias,
            final(self)@.data_type == old(self)@.data_type,
    {
        self.size = size;
    }

    /// Renders the definition as DC source, `typedef <keyword> <alias>;`
    /// followed by a line break.
    pub fn to_dc_string(&self) -> (r: String)
        ensures
            r@ == "typedef "@ + keyword_of(self@.data_type) + match self@.alias {
                Some(a) => " "@ + a,
                None => Seq::<char>::empty(),
            } + ";\n"@,
    {
        let mut out = String::from_str("typedef ");
        let kw = self.data_type.to_dc_keyword();
        out.append(kw.as_str());
        match &self.alias {
            Some(a) => {
                out.append(" ");
                out.append(a.as_str());
            },
            None => (),
        }
        out.append(";\n");
        proof {
            reveal_strlit(" ");
            assert(out@ =~= "typedef "@ + keyword_of(self@.data_type) + match self@.alias {
                Some(a) => " "@ + a,
                None => Seq::<char>::empty(),
            } + ";\n"@);
        }
        out
    }
}

/// The kind slot of a numeric literal.
#[derive(Debug, Clone, Copy, PartialEq, Eq, Structural)]
pub enum DCNumberType {
    Null,
    Int,
    UInt,
    Float,
}

/// A tagged numeric literal: one variant per numeric kind, each carrying its
/// own typed payload. A floating-point literal carries its raw IEEE-754 bit
/// pattern, since this core never does arithmetic on it. Equality compares
/// the kind only — literals are compared for "is this slot occupied by the
/// same kind of constant", never for bit-exact value.
#[derive(Debug, Clone, Copy)]
pub enum DCNumber {
    Null,
    Int(i64),
    UInt(u64),
    Float(u64),
}

/// The kind of a numeric literal.
pub open spec fn kind_of(n: DCNumber) -> DCNumberType {
    match n {
        DCNumber::Null => DCNumberType::Null,
        DCNumber::Int(_) => DCNumberType::Int,
        DCNumber::UInt(_) => DCNumberType::UInt,
        DCNumber::Float(_) => DCNumberType::Float,
    }
}

impl PartialEq for DCNumber {
    /// Kind-only equality: two literals are equal iff the same variant is
    /// active, whatever the payloads hold.
    fn eq(&self, rhs: &Self) -> (r: bool) {
        match (self, rhs) {
            (DCNumber::Null, DCNumber::Null) => true,
            (DCNumber::Int(_), DCNumber::Int(_)) => true,
            (DCNumber::UInt(_), DCNumber::UInt(_)) => true,
            (DCNumber::Float(_), DCNumber::Float(_)) => true,
            _ => false,
        }
    }
}

impl vstd::std_specs::cmp::PartialEqSpecImpl for DCNumber {
    open spec fn obeys_eq_spec() -> bool {
        true
    }

    open spec fn eq_spec(&self, rhs: &DCNumber) -> bool {
        kind_of(*self) == kind_of(*rhs)
    }
}

impl Default for DCNumber {
    /// The unoccupied literal slot.
    fn default() -> (r: Self)
        ensures
            r == DCNumber::Null,
    {
        DCNumber::Null
    }
}

impl DCNumber {
    /// The unoccupied literal slot.
    pub fn new() -> (r: Self)
        ensures
            r == DCNumber::Null,
    {
        DCNumber::Null
    }

    /// A signed-integer literal.
    pub fn new_integer(num: i64) -> (r: Self)
        ensures
            r == DCNumber::Int(num),
    {
        DCNumber::Int(num)
    }

    /// An unsigned-integer literal.
    pub fn new_unsigned_integer(num: u64) -> (r: Self)
        ensures
            r == DCNumber::UInt(num),
    {
        DCNumber::UInt(num)
    }

    /// A floating-point literal, given as its raw IEEE-754 bit pattern.
    pub fn new_float_bits(bits: u64) -> (r: Self)
        ensures
            r == DCNumber::Float(bits),
    {
        DCNumber::Float(bits)
    }

    /// The kind of this literal.
    pub fn number_type(&self) -> (r: DCNumberType)
        ensures
            r == kind_of(*self),
    {
        match self {
            DCNumber::Null => DCNumberType::Null,
            DCNumber::Int(_) => DCNumberType::Int,
            DCNumber::UInt(_) => DCNumberType::UInt,
            DCNumber::Float(_) => DCNumberType::Float,
        }
    }
}

} // verus!
