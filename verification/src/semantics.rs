//! The semantic analyzer: consumes the parser's ordered declaration trees,
//! populates the intermediate schema aggregate, validates every declaration,
//! and finalizes the published, immutable aggregate.
//!
//! The whole pass is modelled by a small-step interpreter over the
//! declaration sequence ([`run_trees`]); the executable analyzer is proved to
//! return exactly what the interpreter returns, error for error.

use crate::dcfile::{
    class_register, class_tables_wf, file_content_wf, ClassModel, DCField, DCFieldInterface,
    DCPythonImport, DCStruct, DClass, DClassInterface, FieldModel, FieldOwner, FileModel,
    ImportModel, RegEntry, StructModel,
};
use crate::dctype::{fixed_size_of, DCNumber, DCTypeDefinition, DCTypeEnum, TypeModel};
use crate::globals::{DClassId, FieldId, ParseError};
use crate::intermediate;
use vstd::prelude::*;

verus! {

// ---------- Abstract syntax, as handed over by the parser ---------- //

/// A python-import declaration as parsed: the module name and the raw
/// symbol expressions, each possibly a multi-suffix form such as
/// `Class/AI/OV`.
pub struct PyImportDecl {
    pub module: String,
    pub symbols: Vec<String>,
}

impl View for PyImportDecl {
    type V = ImportModel;

    open spec fn view(&self) -> ImportModel {
        ImportModel { module: self.module@, symbols: self.symbols@.map_values(|s: String| s@) }
    }
}

/// Abstract value of a [`TypedefDecl`].
pub struct TypedefDeclModel {
    pub base_type: Seq<char>,
    pub alias: Seq<char>,
}

/// A typedef declaration: a built-in base type keyword and the alias name.
pub struct TypedefDecl {
    pub base_type: String,
    pub alias: String,
}

impl View for TypedefDecl {
    type V = TypedefDeclModel;

    open spec fn view(&self) -> TypedefDeclModel {
        TypedefDeclModel { base_type: self.base_type@, alias: self.alias@ }
    }
}

/// Abstract value of a [`FieldDecl`].
pub struct FieldDeclModel {
    pub name: Seq<char>,
    pub declared_type: Seq<char>,
    pub explicit_id: Option<FieldId>,
    pub default: Option<DCNumber>,
}

/// A field declaration inside a struct or class: its name, its declared
/// type name, an optional explicit field id, and an optional default-value
/// literal.
pub struct FieldDecl {
    pub name: String,
    pub declared_type: String,
    pub explicit_id: Option<FieldId>,
    pub default: Option<DCNumber>,
}

impl View for FieldDecl {
    type V = FieldDeclModel;

    open spec fn view(&self) -> FieldDeclModel {
        FieldDeclModel {
            name: self.name@,
            declared_type: self.declared_type@,
            explicit_id: self.explicit_id,
            default: self.default,
        }
    }
}

/// Abstract value of a [`StructDecl`].
pub struct StructDeclModel {
    pub name: Seq<char>,
    pub fields: Seq<FieldDeclModel>,
}

/// A struct declaration: a name and its ordered field declarations.
pub struct StructDecl {
    pub name: String,
    pub fields: Vec<FieldDecl>,
}

impl View for StructDecl {
    type V = StructDeclModel;

    open spec fn view(&self) -> StructDeclModel {
        StructDeclModel {
            name: self.name@,
            fields: self.fields@.map_values(|f: FieldDecl| f@),
        }
    }
}

/// Abstract value of a [`ClassDecl`].
pub struct ClassDeclModel {
    pub name: Seq<char>,
    pub explicit_id: Option<DClassId>,
    pub parents: Seq<Seq<char>>,
    pub fields: Seq<FieldDeclModel>,
}

/// A distributed-class declaration: a name, an optional explicit class id,
/// the parent names in declaration order, and the ordered field
/// declarations.
pub struct ClassDecl {
    pub name: String,
    pub explicit_id: Option<DClassId>,
    pub parents: Vec<String>,
    pub fields: Vec<FieldDecl>,
}

impl View for ClassDecl {
    type V = ClassDeclModel;

    open spec fn view(&self) -> ClassDeclModel {
        ClassDeclModel {
            name: self.name@,
            explicit_id: self.explicit_id,
            parents: self.parents@.map_values(|p: String| p@),
            fields: self.fields@.map_values(|f: FieldDecl| f@),
        }
    }
}

/// Abstract value of a [`TypeDeclaration`].
pub enum DeclModel {
    PythonImport(ImportModel),
    KeywordType(Seq<char>),
    StructType(StructDeclModel),
    DClassType(ClassDeclModel),
    TypedefType(TypedefDeclModel),
    Ignore,
}

/// One declaration node of the parser's tree. `KeywordType` and `Ignore`
/// cover recognized-but-deprecated grammar: parsed, intentionally discarded,
/// never materialized and never hashed.
pub enum TypeDeclaration {
    PythonImport(PyImportDecl),
    KeywordType(String),
    StructType(StructDecl),
    DClassType(ClassDecl),
    TypedefType(TypedefDecl),
    Ignore,
}

impl View for TypeDeclaration {
    type V = DeclModel;

    open spec fn view(&self) -> DeclModel {
        match self {
            TypeDeclaration::PythonImport(d) => DeclModel::PythonImport(d@),
            TypeDeclaration::KeywordType(s) => DeclModel::KeywordType(s@),
            TypeDeclaration::StructType(d) => DeclModel::StructType(d@),
            TypeDeclaration::DClassType(d) => DeclModel::DClassType(d@),
            TypeDeclaration::TypedefType(d) => DeclModel::TypedefType(d@),
            TypeDeclaration::Ignore => DeclModel::Ignore,
        }
    }
}

/// The declaration tree of one source file, in source order.
pub struct SyntaxTree {
    pub type_declarations: Vec<TypeDeclaration>,
}

impl View for SyntaxTree {
    type V = Seq<DeclModel>;

    open spec fn view(&self) -> Seq<DeclModel> {
        self.type_declarations@.map_values(|d: TypeDeclaration| d@)
    }
}

/// Everything the parser hands the analyzer: one declaration tree per
/// source file, in file order.
pub struct PipelineData {
    pub syntax_trees: Vec<SyntaxTree>,
}

impl View for PipelineData {
    type V = Seq<Seq<DeclModel>>;

    open spec fn view(&self) -> Seq<Seq<DeclModel>> {
        self.syntax_trees@.map_values(|t: SyntaxTree| t@)
    }
}

// ---------- Import symbol expansion ---------- //

/// The `/`-separated parts of a symbol expression, in order. An input with
/// no separator yields itself as the single part.
pub open spec fn split_slash(s: Seq<char>) -> Seq<Seq<char>>
    decreases s.len(),
{
    if s.len() == 0 {
        seq![Seq::<char>::empty()]
    } else if s.last() == '/' {
        split_slash(s.drop_last()).push(Seq::<char>::empty())
    } else {
        let prev = split_slash(s.drop_last());
        prev.update(prev.len() - 1, prev.last().push(s.last()))
    }
}

/// A split always yields at least one part.
pub proof fn lemma_split_slash_len(s: Seq<char>)
    ensures
        split_slash(s).len() >= 1,
    decreases s.len(),
{
    if s.len() != 0 {
        lemma_split_slash_len(s.drop_last());
    }
}

/// The expansion of one symbol expression: the bare base name first, then
/// the base name concatenated with each suffix, preserving source order.
/// `Class/AI/OV` becomes `Class`, `ClassAI`, `ClassOV`; a plain name or `*`
/// stays as it is.
pub open spec fn expand_symbol(s: Seq<char>) -> Seq<Seq<char>> {
    let parts = split_slash(s);
    seq![parts[0]] + parts.skip(1).map_values(|p: Seq<char>| parts[0] + p)
}

/// The expansion of a whole symbol list, in source order.
pub open spec fn expand_symbols(syms: Seq<Seq<char>>) -> Seq<Seq<char>>
    decreases syms.len(),
{
    if syms.len() == 0 {
        Seq::empty()
    } else {
        expand_symbols(syms.drop_last()) + expand_symbol(syms.last())
    }
}

/// The views of a vector of strings.
pub open spec fn string_views(v: Seq<String>) -> Seq<Seq<char>> {
    v.map_values(|s: String| s@)
}

/// Splits one symbol expression on `/`.
fn split_symbol(sym: &String) -> (parts: Vec<String>)
    ensures
        string_views(parts@) == split_slash(sym@),
{
    let s: &str = sym.as_str();
    let n: usize = s.unicode_len();
    let mut parts: Vec<String> = Vec::new();
    let mut start: usize = 0;
    let mut i: usize = 0;
    proof {
        assert(s@.subrange(0, 0) =~= Seq::<char>::empty());
        assert(string_views(parts@).push(s@.subrange(0, 0)) =~= seq![Seq::<char>::empty()]);
        assert(s@.take(0) =~= Seq::<char>::empty());
    }
    while i < n
        invariant
            start <= i <= n,
            n == s@.len(),
            split_slash(s@.take(i as int)) == string_views(parts@).push(
                s@.subrange(start as int, i as int),
            ),
        decreases n - i,
    {
        let c: char = s.get_char(i);
        proof {
            assert(s@.take(i + 1 as int).drop_last() =~= s@.take(i as int));
            assert(s@.take(i + 1 as int).last() == s@[i as int]);
        }
        if c == '/' {
            let piece: String = s.substring_char(start, i).to_owned();
            let ghost old_views = string_views(parts@);
            parts.push(piece);
            proof {
                assert(string_views(parts@) =~= old_views.push(s@.subrange(
                    start as int,
                    i as int,
                )));
                assert(split_slash(s@.take(i + 1 as int)) == split_slash(s@.take(i as int)).push(
                    Seq::<char>::empty(),
                ));
                assert(s@.subrange(i + 1 as int, i + 1 as int) =~= Seq::<char>::empty());
            }
            start = i + 1;
        } else {
            proof {
                let prev = split_slash(s@.take(i as int));
                let cur = s@.subrange(start as int, i as int);
                assert(prev.last() == cur);
                assert(prev.len() - 1 == string_views(parts@).len());
                assert(cur.push(s@[i as int]) =~= s@.subrange(start as int, i + 1 as int));
                assert(string_views(parts@).push(cur).update(
                    string_views(parts@).len() as int,
                    cur.push(s@[i as int]),
                ) =~= string_views(parts@).push(s@.subrange(start as int, i + 1 as int)));
            }
        }
        i = i + 1;
    }
    let piece: String = s.substring_char(start, n).to_owned();
    let ghost old_views = string_views(parts@);
    parts.push(piece);
    proof {
        assert(s@.take(n as int) =~= s@);
        assert(string_views(parts@) =~= old_views.push(s@.subrange(start as int, n as int)));
    }
    parts
}

/// Expands one symbol expression into its symbol list.
pub fn expand_python_symbol(sym: &String) -> (r: Vec<String>)
    ensures
        string_views(r@) == expand_symbol(sym@),
{
    proof {
        lemma_split_slash_len(sym@);
    }
    let parts: Vec<String> = split_symbol(sym);
    let ghost pviews = string_views(parts@);
    let base: String = parts[0].clone();
    let mut out: Vec<String> = Vec::new();
    out.push(base.clone());
    let np: usize = parts.len();
    let mut k: usize = 1;
    proof {
        assert(string_views(out@) =~= seq![pviews[0]] + pviews.subrange(1, 1).map_values(
            |p: Seq<char>| pviews[0] + p,
        ));
    }
    while k < np
        invariant
            1 <= k <= np,
            np == pviews.len(),
            pviews == string_views(parts@),
            base@ == pviews[0],
            string_views(out@) == seq![pviews[0]] + pviews.subrange(1, k as int).map_values(
                |p: Seq<char>| pviews[0] + p,
            ),
        decreases np - k,
    {
        let expanded: String = base.clone().concat(parts[k].as_str());
        let ghost old_views = string_views(out@);
        out.push(expanded);
        proof {
            assert(string_views(out@) =~= old_views.push(pviews[0] + pviews[k as int]));
            assert(pviews.subrange(1, k + 1 as int).map_values(|p: Seq<char>| pviews[0] + p)
                =~= pviews.subrange(1, k as int).map_values(|p: Seq<char>| pviews[0] + p).push(
                pviews[0] + pviews[k as int],
            ));
            assert(string_views(out@) =~= seq![pviews[0]] + pviews.subrange(
                1,
                k + 1 as int,
            ).map_values(|p: Seq<char>| pviews[0] + p));
        }
        k = k + 1;
    }
    proof {
        assert(pviews.subrange(1, np as int) =~= pviews.skip(1));
    }
    out
}

/// Expands every symbol expression of an import, in source order.
pub fn expand_import_symbols(symbols: &Vec<String>) -> (r: Vec<String>)
    ensures
        string_views(r@) == expand_symbols(string_views(symbols@)),
{
    let ghost sviews = string_views(symbols@);
    let mut out: Vec<String> = Vec::new();
    let n: usize = symbols.len();
    let mut i: usize = 0;
    proof {
        assert(string_views(out@) =~= expand_symbols(sviews.take(0)));
        assert(sviews.take(0) =~= Seq::<Seq<char>>::empty());
    }
    while i < n
        invariant
            i <= n,
            n == sviews.len(),
            sviews == string_views(symbols@),
            string_views(out@) == expand_symbols(sviews.take(i as int)),
        decreases n - i,
    {
        let one: Vec<String> = expand_python_symbol(&symbols[i]);
        let m: usize = one.len();
        let mut j: usize = 0;
        let ghost before = string_views(out@);
        while j < m
            invariant
                j <= m,
                m == one@.len(),
                string_views(one@) == expand_symbol(sviews[i as int]),
                i < n,
                n == sviews.len(),
                sviews == string_views(symbols@),
                string_views(out@) == before + string_views(one@).take(j as int),
            decreases m - j,
        {
            let ghost ov = string_views(out@);
            out.push(one[j].clone());
            proof {
                assert(string_views(out@) =~= ov.push(one@[j as int]@));
                assert(string_views(one@).take(j + 1 as int) =~= string_views(one@).take(
                    j as int,
                ).push(one@[j as int]@));
                assert(string_views(out@) =~= before + string_views(one@).take(j + 1 as int));
            }
            j = j + 1;
        }
        proof {
            assert(string_views(one@).take(m as int) =~= string_views(one@));
            assert(sviews.take(i + 1 as int).drop_last() =~= sviews.take(i as int));
            assert(sviews.take(i + 1 as int).last() == sviews[i as int]);
            assert(string_views(out@) =~= expand_symbols(sviews.take(i + 1 as int)));
        }
        i = i + 1;
    }
    proof {
        assert(sviews.take(n as int) =~= sviews);
    }
    out
}

} // verus!

verus! {

// ---------- The analyzer's small-step model ---------- //

/// Abstract state of the analyzer: the intermediate aggregate plus the two
/// sequential id allocators. The counters run one past the largest id handed
/// out so far, so ids are never reused.
pub struct AnalyzerModel {
    pub file: FileModel,
    pub next_field_id: u32,
    pub next_class_id: u32,
}

/// The state the analyzer starts from: an empty aggregate, both allocators
/// at zero.
pub open spec fn init_state() -> AnalyzerModel {
    AnalyzerModel {
        file: FileModel {
            imports: Seq::empty(),
            typedefs: Seq::empty(),
            structs: Seq::empty(),
            classes: Seq::empty(),
            fields: Seq::empty(),
        },
        next_field_id: 0,
        next_class_id: 0,
    }
}

/// The built-in type named by a DC keyword, if the name is one.
pub open spec fn builtin_of(name: Seq<char>) -> Option<DCTypeEnum> {
    if name == "int8"@ {
        Some(DCTypeEnum::TInt8)
    } else if name == "int16"@ {
        Some(DCTypeEnum::TInt16)
    } else if name == "int32"@ {
        Some(DCTypeEnum::TInt32)
    } else if name == "int64"@ {
        Some(DCTypeEnum::TInt64)
    } else if name == "uint8"@ {
        Some(DCTypeEnum::TUInt8)
    } else if name == "uint16"@ {
        Some(DCTypeEnum::TUInt16)
    } else if name == "uint32"@ {
        Some(DCTypeEnum::TUInt32)
    } else if name == "uint64"@ {
        Some(DCTypeEnum::TUInt64)
    } else if name == "char"@ {
        Some(DCTypeEnum::TChar)
    } else if name == "float32"@ {
        Some(DCTypeEnum::TFloat32)
    } else if name == "float64"@ {
        Some(DCTypeEnum::TFloat64)
    } else if name == "string"@ {
        Some(DCTypeEnum::TVarString)
    } else if name == "blob"@ {
        Some(DCTypeEnum::TVarBlob)
    } else if name == "blob32"@ {
        Some(DCTypeEnum::TVarBlob32)
    } else {
        None
    }
}

/// The position of the last typedef carrying the given alias, if any.
pub open spec fn find_typedef_index(ts: Seq<TypeModel>, alias: Seq<char>) -> Option<int>
    decreases ts.len(),
{
    if ts.len() == 0 {
        None
    } else if ts.last().alias == Some(alias) {
        Some(ts.len() - 1)
    } else {
        find_typedef_index(ts.drop_last(), alias)
    }
}

/// The position of the last struct carrying the given name, if any.
pub open spec fn find_struct_index(ss: Seq<StructModel>, name: Seq<char>) -> Option<int>
    decreases ss.len(),
{
    if ss.len() == 0 {
        None
    } else if ss.last().name == name {
        Some(ss.len() - 1)
    } else {
        find_struct_index(ss.drop_last(), name)
    }
}

/// The position of the last class carrying the given name, if any. Class
/// names are kept unique, so at most one position ever matches.
pub open spec fn find_class_index(cs: Seq<ClassModel>, name: Seq<char>) -> Option<int>
    decreases cs.len(),
{
    if cs.len() == 0 {
        None
    } else if cs.last().name == name {
        Some(cs.len() - 1)
    } else {
        find_class_index(cs.drop_last(), name)
    }
}

/// True iff some field of the arena already carries the given id.
pub open spec fn any_field_id(fs: Seq<FieldModel>, id: FieldId) -> bool
    decreases fs.len(),
{
    if fs.len() == 0 {
        false
    } else {
        fs.last().id == id || any_field_id(fs.drop_last(), id)
    }
}

/// True iff some class already carries the given id.
pub open spec fn any_class_id(cs: Seq<ClassModel>, id: DClassId) -> bool
    decreases cs.len(),
{
    if cs.len() == 0 {
        false
    } else {
        cs.last().class_id == id || any_class_id(cs.drop_last(), id)
    }
}

/// True iff one of the listed arena fields carries the given name.
pub open spec fn any_idx_named(arena: Seq<FieldModel>, idxs: Seq<usize>, name: Seq<char>) -> bool
    decreases idxs.len(),
{
    if idxs.len() == 0 {
        false
    } else {
        arena[idxs.last() as int].name == name || any_idx_named(arena, idxs.drop_last(), name)
    }
}

/// Resolves a declared type name: a built-in keyword, else a typedef alias,
/// else the name of an earlier struct (giving a structural type), else
/// nothing.
pub open spec fn resolve_type(f: FileModel, name: Seq<char>) -> Option<TypeModel> {
    match builtin_of(name) {
        Some(dt) => Some(TypeModel { alias: None, data_type: dt, size: fixed_size_of(dt) }),
        None => match find_typedef_index(f.typedefs, name) {
            Some(i) => Some(f.typedefs[i]),
            None => match find_struct_index(f.structs, name) {
                Some(_) => Some(
                    TypeModel { alias: None, data_type: DCTypeEnum::TStruct, size: 0 },
                ),
                None => None,
            },
        },
    }
}

/// The little-endian bytes of a non-negative value, lowest byte first.
pub open spec fn unsigned_le(v: int, nbytes: int) -> Seq<u8>
    decreases nbytes,
{
    if nbytes <= 0 {
        Seq::empty()
    } else {
        seq![(v % 256) as u8] + unsigned_le(v / 256, nbytes - 1)
    }
}

/// Encodes one numeric literal as the wire bytes of the given type: the
/// little-endian two's-complement bytes of the type's exact width. Nothing
/// when the literal's kind does not match the type or its value does not fit
/// — a malformed default for the analyzer to reject.
pub open spec fn encode_literal(n: DCNumber, t: DCTypeEnum) -> Option<Seq<u8>> {
    match n {
        DCNumber::Int(v) => match t {
            DCTypeEnum::TInt8 => if -128 <= v < 128 {
                Some(unsigned_le(if v >= 0 { v as int } else { v + 256 }, 1))
            } else {
                None
            },
            DCTypeEnum::TInt16 => if -32768 <= v < 32768 {
                Some(unsigned_le(if v >= 0 { v as int } else { v + 65536 }, 2))
            } else {
                None
            },
            DCTypeEnum::TInt32 => if -0x8000_0000 <= v < 0x8000_0000 {
                Some(unsigned_le(if v >= 0 { v as int } else { v + 0x1_0000_0000 }, 4))
            } else {
                None
            },
            DCTypeEnum::TInt64 => Some(
                unsigned_le(if v >= 0 { v as int } else { v + 0x1_0000_0000_0000_0000 }, 8),
            ),
            _ => None,
        },
        DCNumber::UInt(v) => match t {
            DCTypeEnum::TUInt8 => if v < 256 { Some(unsigned_le(v as int, 1)) } else { None },
            DCTypeEnum::TChar => if v < 256 { Some(unsigned_le(v as int, 1)) } else { None },
            DCTypeEnum::TUInt16 => if v < 65536 { Some(unsigned_le(v as int, 2)) } else { None },
            DCTypeEnum::TUInt32 => if v < 0x1_0000_0000 { Some(unsigned_le(v as int, 4)) } else { None },
            DCTypeEnum::TUInt64 => Some(unsigned_le(v as int, 8)),
            _ => None,
        },
        DCNumber::Float(bits) => match t {
            DCTypeEnum::TFloat64 => Some(unsigned_le(bits as int, 8)),
            _ => None,
        },
        DCNumber::Null => None,
    }
}

/// Allocates a field id: an explicit id must be unused so far; an automatic
/// id is the next counter value, exhausted once the 16-bit space is spent.
/// The new counter stays past every id ever handed out.
pub open spec fn alloc_field_id(st: AnalyzerModel, explicit: Option<FieldId>) -> Result<
    (FieldId, u32),
    ParseError,
> {
    match explicit {
        Some(e) => if any_field_id(st.file.fields, e) {
            Err(ParseError::DuplicateFieldId)
        } else {
            Ok((e, if e as u32 + 1 > st.next_field_id { (e as u32 + 1) as u32 } else { st.next_field_id }))
        },
        None => if st.next_field_id > 0xFFFF {
            Err(ParseError::IdSpaceExhausted)
        } else {
            Ok((st.next_field_id as FieldId, (st.next_field_id + 1) as u32))
        },
    }
}

/// Allocates a class id, exactly as [`alloc_field_id`] does for fields.
pub open spec fn alloc_class_id(st: AnalyzerModel, explicit: Option<DClassId>) -> Result<
    (DClassId, u32),
    ParseError,
> {
    match explicit {
        Some(e) => if any_class_id(st.file.classes, e) {
            Err(ParseError::DuplicateClassId)
        } else {
            Ok((e, if e as u32 + 1 > st.next_class_id { (e as u32 + 1) as u32 } else { st.next_class_id }))
        },
        None => if st.next_class_id > 0xFFFF {
            Err(ParseError::IdSpaceExhausted)
        } else {
            Ok((st.next_class_id as DClassId, (st.next_class_id + 1) as u32))
        },
    }
}

} // verus!

verus! {

// ---------- Declaration steps ---------- //

/// The analyzer state is well-formed when every arena index stored anywhere
/// in the aggregate is valid and every class's lookup tables are sound.
pub open spec fn analyzer_wf(st: AnalyzerModel) -> bool {
    file_content_wf(st.file)
}

/// One python-import declaration: appended to the aggregate with its symbol
/// expressions expanded, preserving source order. Never fails.
pub open spec fn import_step(st: AnalyzerModel, m: ImportModel) -> AnalyzerModel {
    AnalyzerModel {
        file: FileModel {
            imports: st.file.imports.push(
                ImportModel { module: m.module, symbols: expand_symbols(m.symbols) },
            ),
            ..st.file
        },
        ..st
    }
}

/// One typedef declaration: the base keyword must be a built-in type and the
/// alias must be new; the aliased definition is appended.
pub open spec fn typedef_step(st: AnalyzerModel, d: TypedefDeclModel) -> Result<
    AnalyzerModel,
    ParseError,
> {
    match builtin_of(d.base_type) {
        None => Err(ParseError::UnresolvedType),
        Some(dt) => if find_typedef_index(st.file.typedefs, d.alias) is Some {
            Err(ParseError::DuplicateTypeAlias)
        } else {
            Ok(
                AnalyzerModel {
                    file: FileModel {
                        typedefs: st.file.typedefs.push(
                            TypeModel { alias: Some(d.alias), data_type: dt, size: fixed_size_of(dt) },
                        ),
                        ..st.file
                    },
                    ..st
                },
            )
        },
    }
}

/// One field declaration of a struct: the name must be new within the
/// struct, the type must resolve, the id must allocate, and a default
/// literal must encode; the finished field joins the arena and the struct.
pub open spec fn struct_field_step(
    st: AnalyzerModel,
    sidx: usize,
    s: StructModel,
    d: FieldDeclModel,
) -> Result<(AnalyzerModel, StructModel), ParseError> {
    if any_idx_named(st.file.fields, s.fields, d.name) {
        Err(ParseError::DuplicateFieldName)
    } else {
        match resolve_type(st.file, d.declared_type) {
            None => Err(ParseError::UnresolvedType),
            Some(t) => match alloc_field_id(st, d.explicit_id) {
                Err(e) => Err(e),
                Ok((id, nid)) => {
                    let enc = match d.default {
                        Some(n) => encode_literal(n, t.data_type),
                        None => Some(Seq::empty()),
                    };
                    match enc {
                        None => Err(ParseError::MalformedDefaultValue),
                        Some(bytes) => {
                            let idx = st.file.fields.len() as usize;
                            let fm = FieldModel {
                                name: d.name,
                                id,
                                owner: FieldOwner::InStruct(sidx),
                                dc_type: t,
                                default_value_stale: false,
                                has_default_value: d.default is Some,
                                default_value: bytes,
                                bogus: false,
                            };
                            Ok(
                                (
                                    AnalyzerModel {
                                        file: FileModel {
                                            fields: st.file.fields.push(fm),
                                            ..st.file
                                        },
                                        next_field_id: nid,
                                        ..st
                                    },
                                    StructModel { fields: s.fields.push(idx), ..s },
                                ),
                            )
                        },
                    }
                },
            },
        }
    }
}

/// A struct's field declarations, processed in order; the first failure
/// aborts.
pub open spec fn struct_fields_fold(
    st: AnalyzerModel,
    sidx: usize,
    s: StructModel,
    ds: Seq<FieldDeclModel>,
) -> Result<(AnalyzerModel, StructModel), ParseError>
    decreases ds.len(),
{
    if ds.len() == 0 {
        Ok((st, s))
    } else {
        match struct_field_step(st, sidx, s, ds.first()) {
            Err(e) => Err(e),
            Ok((st2, s2)) => struct_fields_fold(st2, sidx, s2, ds.drop_first()),
        }
    }
}

/// One struct declaration: the name must be new; the container is built
/// field by field and appended.
pub open spec fn struct_step(st: AnalyzerModel, d: StructDeclModel) -> Result<
    AnalyzerModel,
    ParseError,
> {
    if find_struct_index(st.file.structs, d.name) is Some {
        Err(ParseError::DuplicateStructName)
    } else {
        match struct_fields_fold(
            st,
            st.file.structs.len() as usize,
            StructModel { name: d.name, fields: Seq::empty() },
            d.fields,
        ) {
            Err(e) => Err(e),
            Ok((st2, s2)) => Ok(
                AnalyzerModel {
                    file: FileModel { structs: st2.file.structs.push(s2), ..st2.file },
                    ..st2
                },
            ),
        }
    }
}

/// One field declaration of a class: as for a struct, but the field is also
/// registered in the class's lookup tables, and a field carrying the class's
/// own name becomes its constructor.
pub open spec fn class_field_step(
    st: AnalyzerModel,
    cidx: usize,
    c: ClassModel,
    d: FieldDeclModel,
) -> Result<(AnalyzerModel, ClassModel), ParseError> {
    if any_idx_named(st.file.fields, c.fields, d.name) {
        Err(ParseError::DuplicateFieldName)
    } else {
        match resolve_type(st.file, d.declared_type) {
            None => Err(ParseError::UnresolvedType),
            Some(t) => match alloc_field_id(st, d.explicit_id) {
                Err(e) => Err(e),
                Ok((id, nid)) => {
                    let enc = match d.default {
                        Some(n) => encode_literal(n, t.data_type),
                        None => Some(Seq::empty()),
                    };
                    match enc {
                        None => Err(ParseError::MalformedDefaultValue),
                        Some(bytes) => {
                            let idx = st.file.fields.len() as usize;
                            let fm = FieldModel {
                                name: d.name,
                                id,
                                owner: FieldOwner::InClass(cidx),
                                dc_type: t,
                                default_value_stale: false,
                                has_default_value: d.default is Some,
                                default_value: bytes,
                                bogus: false,
                            };
                            let c2 = class_register(
                                c,
                                RegEntry { name: d.name, id, index: idx },
                                false,
                            );
                            let c3 = if d.name == c.name {
                                ClassModel { constructor: Some(idx), ..c2 }
                            } else {
                                c2
                            };
                            Ok(
                                (
                                    AnalyzerModel {
                                        file: FileModel {
                                            fields: st.file.fields.push(fm),
                                            ..st.file
                                        },
                                        next_field_id: nid,
                                        ..st
                                    },
                                    c3,
                                ),
                            )
                        },
                    }
                },
            },
        }
    }
}

/// A class's own field declarations, processed in order; the first failure
/// aborts.
pub open spec fn class_fields_fold(
    st: AnalyzerModel,
    cidx: usize,
    c: ClassModel,
    ds: Seq<FieldDeclModel>,
) -> Result<(AnalyzerModel, ClassModel), ParseError>
    decreases ds.len(),
{
    if ds.len() == 0 {
        Ok((st, c))
    } else {
        match class_field_step(st, cidx, c, ds.first()) {
            Err(e) => Err(e),
            Ok((st2, c2)) => class_fields_fold(st2, cidx, c2, ds.drop_first()),
        }
    }
}

/// Resolves each parent name against the classes declared so far, in order.
/// A name no earlier declaration provides — a forward reference included —
/// fails the compilation.
pub open spec fn resolve_parents(cs: Seq<ClassModel>, names: Seq<Seq<char>>) -> Result<
    Seq<usize>,
    ParseError,
>
    decreases names.len(),
{
    if names.len() == 0 {
        Ok(Seq::empty())
    } else {
        match find_class_index(cs, names.first()) {
            None => Err(ParseError::UnresolvedParent),
            Some(i) => match resolve_parents(cs, names.drop_first()) {
                Err(e) => Err(e),
                Ok(rest) => Ok(seq![i as usize] + rest),
            },
        }
    }
}

/// Registers one run of inherited fields, in order, looking each up in the
/// arena.
pub open spec fn register_inherited_list(
    c: ClassModel,
    idxs: Seq<usize>,
    arena: Seq<FieldModel>,
) -> ClassModel
    decreases idxs.len(),
{
    if idxs.len() == 0 {
        c
    } else {
        register_inherited_list(
            class_register(
                c,
                RegEntry {
                    name: arena[idxs.first() as int].name,
                    id: arena[idxs.first() as int].id,
                    index: idxs.first(),
                },
                true,
            ),
            idxs.drop_first(),
            arena,
        )
    }
}

/// Registers every inherited field of a class: parent by parent in
/// declaration order, each parent contributing its own inherited fields
/// first and then its own fields, with no deduplication by name.
pub open spec fn register_inherited(
    c: ClassModel,
    ps: Seq<usize>,
    cs: Seq<ClassModel>,
    arena: Seq<FieldModel>,
) -> ClassModel
    decreases ps.len(),
{
    if ps.len() == 0 {
        c
    } else {
        register_inherited(
            register_inherited_list(
                c,
                cs[ps.first() as int].inherited_fields + cs[ps.first() as int].fields,
                arena,
            ),
            ps.drop_first(),
            cs,
            arena,
        )
    }
}

/// One class declaration: the name must be new, the id must allocate, every
/// parent must resolve; own fields are processed in order, inherited fields
/// are flattened in, and the finished class — confirmed, no longer bogus —
/// is appended.
pub open spec fn class_step(st: AnalyzerModel, d: ClassDeclModel) -> Result<
    AnalyzerModel,
    ParseError,
> {
    if find_class_index(st.file.classes, d.name) is Some {
        Err(ParseError::DuplicateClassName)
    } else {
        match alloc_class_id(st, d.explicit_id) {
            Err(e) => Err(e),
            Ok((cid, ncid)) => match resolve_parents(st.file.classes, d.parents) {
                Err(e) => Err(e),
                Ok(pidx) => {
                    let st1 = AnalyzerModel { next_class_id: ncid, ..st };
                    let cidx = st.file.classes.len() as usize;
                    let c0 = ClassModel {
                        name: d.name,
                        class_id: cid,
                        is_struct: false,
                        is_bogus: false,
                        parents: pidx,
                        constructor: None,
                        fields: Seq::empty(),
                        inherited_fields: Seq::empty(),
                        reg: Seq::empty(),
                        name_map: Map::empty(),
                        id_map: Map::empty(),
                    };
                    match class_fields_fold(st1, cidx, c0, d.fields) {
                        Err(e) => Err(e),
                        Ok((st2, c2)) => {
                            let c3 = register_inherited(c2, pidx, st2.file.classes, st2.file.fields);
                            Ok(
                                AnalyzerModel {
                                    file: FileModel {
                                        classes: st2.file.classes.push(c3),
                                        ..st2.file
                                    },
                                    ..st2
                                },
                            )
                        },
                    }
                },
            },
        }
    }
}

/// One declaration node. Deprecated grammar (`KeywordType`, `Ignore`) is
/// dropped silently.
pub open spec fn decl_step(st: AnalyzerModel, d: DeclModel) -> Result<AnalyzerModel, ParseError> {
    match d {
        DeclModel::PythonImport(m) => Ok(import_step(st, m)),
        DeclModel::KeywordType(_) => Ok(st),
        DeclModel::Ignore => Ok(st),
        DeclModel::TypedefType(t) => typedef_step(st, t),
        DeclModel::StructType(s) => struct_step(st, s),
        DeclModel::DClassType(c) => class_step(st, c),
    }
}

/// One declaration tree, processed in source order; the first failure
/// aborts.
pub open spec fn run_decls(st: AnalyzerModel, ds: Seq<DeclModel>) -> Result<
    AnalyzerModel,
    ParseError,
>
    decreases ds.len(),
{
    if ds.len() == 0 {
        Ok(st)
    } else {
        match decl_step(st, ds.first()) {
            Err(e) => Err(e),
            Ok(st2) => run_decls(st2, ds.drop_first()),
        }
    }
}

/// The whole compilation pass: every tree, in file order; the first failure
/// aborts and no partial schema is published.
pub open spec fn run_trees(st: AnalyzerModel, ts: Seq<Seq<DeclModel>>) -> Result<
    AnalyzerModel,
    ParseError,
>
    decreases ts.len(),
{
    if ts.len() == 0 {
        Ok(st)
    } else {
        match run_decls(st, ts.first()) {
            Err(e) => Err(e),
            Ok(st2) => run_trees(st2, ts.drop_first()),
        }
    }
}

/// What the analyzer computes for a given input: the small-step model of the
/// whole pass, started from the empty state.
pub open spec fn analyzed(data: Seq<Seq<DeclModel>>) -> Result<AnalyzerModel, ParseError> {
    run_trees(init_state(), data)
}

} // verus!

verus! {

// ---------- Executable helpers ---------- //

/// The analyzer's working state: the intermediate aggregate and the two id
/// allocators.
struct Analyzer {
    file: intermediate::DCFile,
    next_field_id: u32,
    next_class_id: u32,
}

impl View for Analyzer {
    type V = AnalyzerModel;

    closed spec fn view(&self) -> AnalyzerModel {
        AnalyzerModel {
            file: self.file@,
            next_field_id: self.next_field_id,
            next_class_id: self.next_class_id,
        }
    }
}

/// The built-in type named by a DC keyword, if the name is one.
fn builtin_of_exec(name: &String) -> (r: Option<DCTypeEnum>)
    ensures
        r == builtin_of(name@),
{
    if *name == String::from_str("int8") {
        Some(DCTypeEnum::TInt8)
    } else if *name == String::from_str("int16") {
        Some(DCTypeEnum::TInt16)
    } else if *name == String::from_str("int32") {
        Some(DCTypeEnum::TInt32)
    } else if *name == String::from_str("int64") {
        Some(DCTypeEnum::TInt64)
    } else if *name == String::from_str("uint8") {
        Some(DCTypeEnum::TUInt8)
    } else if *name == String::from_str("uint16") {
        Some(DCTypeEnum::TUInt16)
    } else if *name == String::from_str("uint32") {
        Some(DCTypeEnum::TUInt32)
    } else if *name == String::from_str("uint64") {
        Some(DCTypeEnum::TUInt64)
    } else if *name == String::from_str("char") {
        Some(DCTypeEnum::TChar)
    } else if *name == String::from_str("float32") {
        Some(DCTypeEnum::TFloat32)
    } else if *name == String::from_str("float64") {
        Some(DCTypeEnum::TFloat64)
    } else if *name == String::from_str("string") {
        Some(DCTypeEnum::TVarString)
    } else if *name == String::from_str("blob") {
        Some(DCTypeEnum::TVarBlob)
    } else if *name == String::from_str("blob32") {
        Some(DCTypeEnum::TVarBlob32)
    } else {
        None
    }
}

/// The position of the last typedef carrying the alias, if any.
fn find_typedef_exec(file: &intermediate::DCFile, alias: &String) -> (r: Option<usize>)
    ensures
        match r {
            Some(i) => i < file@.typedefs.len() && find_typedef_index(file@.typedefs, alias@)
                == Some(i as int),
            None => find_typedef_index(file@.typedefs, alias@) is None,
        },
{
    let ghost ts = file@.typedefs;
    let mut i: usize = file.get_num_typedefs();
    proof {
        assert(ts.take(i as int) =~= ts);
    }
    while i > 0
        invariant
            i <= ts.len(),
            ts == file@.typedefs,
            find_typedef_index(ts, alias@) == find_typedef_index(ts.take(i as int), alias@),
        decreases i,
    {
        proof {
            assert(ts.take(i as int).drop_last() =~= ts.take(i - 1 as int));
            assert(ts.take(i as int).last() == ts[i - 1 as int]);
        }
        let td = file.get_typedef(i - 1);
        match td.get_alias() {
            Ok(a) => {
                if a == *alias {
                    return Some(i - 1);
                }
            },
            Err(()) => (),
        }
        i = i - 1;
    }
    proof {
        assert(ts.take(0) =~= Seq::<TypeModel>::empty());
    }
    None
}

/// The position of the last struct carrying the name, if any.
fn find_struct_exec(file: &intermediate::DCFile, name: &String) -> (r: Option<usize>)
    ensures
        match r {
            Some(i) => i < file@.structs.len() && find_struct_index(file@.structs, name@) == Some(
                i as int,
            ),
            None => find_struct_index(file@.structs, name@) is None,
        },
{
    let ghost ss = file@.structs;
    let mut i: usize = file.get_num_structs();
    proof {
        assert(ss.take(i as int) =~= ss);
    }
    while i > 0
        invariant
            i <= ss.len(),
            ss == file@.structs,
            find_struct_index(ss, name@) == find_struct_index(ss.take(i as int), name@),
        decreases i,
    {
        proof {
            assert(ss.take(i as int).drop_last() =~= ss.take(i - 1 as int));
            assert(ss.take(i as int).last() == ss[i - 1 as int]);
        }
        let sname = file.get_struct(i - 1).get_name();
        if sname == *name {
            return Some(i - 1);
        }
        i = i - 1;
    }
    proof {
        assert(ss.take(0) =~= Seq::<StructModel>::empty());
    }
    None
}

/// The position of the last class carrying the name, if any.
fn find_class_exec(file: &intermediate::DCFile, name: &String) -> (r: Option<usize>)
    ensures
        match r {
            Some(i) => i < file@.classes.len() && find_class_index(file@.classes, name@) == Some(
                i as int,
            ),
            None => find_class_index(file@.classes, name@) is None,
        },
{
    let ghost cs = file@.classes;
    let mut i: usize = file.get_num_dclasses();
    proof {
        assert(cs.take(i as int) =~= cs);
    }
    while i > 0
        invariant
            i <= cs.len(),
            cs == file@.classes,
            find_class_index(cs, name@) == find_class_index(cs.take(i as int), name@),
        decreases i,
    {
        proof {
            assert(cs.take(i as int).drop_last() =~= cs.take(i - 1 as int));
            assert(cs.take(i as int).last() == cs[i - 1 as int]);
        }
        let cname = file.get_dclass(i - 1).get_name();
        if cname == *name {
            return Some(i - 1);
        }
        i = i - 1;
    }
    proof {
        assert(cs.take(0) =~= Seq::<ClassModel>::empty());
    }
    None
}

/// True iff some field of the arena already carries the id.
fn field_id_used(file: &intermediate::DCFile, id: FieldId) -> (r: bool)
    ensures
        r == any_field_id(file@.fields, id),
{
    let ghost fs = file@.fields;
    let mut i: usize = file.get_num_fields();
    proof {
        assert(fs.take(i as int) =~= fs);
    }
    while i > 0
        invariant
            i <= fs.len(),
            fs == file@.fields,
            any_field_id(fs, id) == any_field_id(fs.take(i as int), id),
        decreases i,
    {
        proof {
            assert(fs.take(i as int).drop_last() =~= fs.take(i - 1 as int));
            assert(fs.take(i as int).last() == fs[i - 1 as int]);
        }
        if file.get_field(i - 1).get_id() == id {
            return true;
        }
        i = i - 1;
    }
    proof {
        assert(fs.take(0) =~= Seq::<FieldModel>::empty());
    }
    false
}

/// True iff some class already carries the id.
fn class_id_used(file: &intermediate::DCFile, id: DClassId) -> (r: bool)
    ensures
        r == any_class_id(file@.classes, id),
{
    let ghost cs = file@.classes;
    let mut i: usize = file.get_num_dclasses();
    proof {
        assert(cs.take(i as int) =~= cs);
    }
    while i > 0
        invariant
            i <= cs.len(),
            cs == file@.classes,
            any_class_id(cs, id) == any_class_id(cs.take(i as int), id),
        decreases i,
    {
        proof {
            assert(cs.take(i as int).drop_last() =~= cs.take(i - 1 as int));
            assert(cs.take(i as int).last() == cs[i - 1 as int]);
        }
        if file.get_dclass(i - 1).get_class_id() == id {
            return true;
        }
        i = i - 1;
    }
    proof {
        assert(cs.take(0) =~= Seq::<ClassModel>::empty());
    }
    false
}

/// Resolves a declared type name against the aggregate built so far.
fn resolve_type_exec(file: &intermediate::DCFile, name: &String) -> (r: Option<DCTypeDefinition>)
    ensures
        match r {
            Some(td) => resolve_type(file@, name@) == Some(td@),
            None => resolve_type(file@, name@) is None,
        },
{
    match builtin_of_exec(name) {
        Some(dt) => {
            let mut td = DCTypeDefinition::new_with_type(dt);
            td.set_size(dt.to_fixed_size());
            Some(td)
        },
        None => {
            match find_typedef_exec(file, name) {
                Some(i) => {
                    let orig = file.get_typedef(i);
                    let mut td = DCTypeDefinition::new_with_type(orig.get_dc_type());
                    td.set_size(orig.get_size());
                    match orig.get_alias() {
                        Ok(a) => {
                            td.set_alias(a);
                        },
                        Err(()) => (),
                    }
                    proof {
                        assert(td@ == file@.typedefs[find_typedef_index(
                            file@.typedefs,
                            name@,
                        ).unwrap()]);
                    }
                    Some(td)
                },
                None => {
                    match find_struct_exec(file, name) {
                        Some(_) => {
                            let td = DCTypeDefinition::new_with_type(DCTypeEnum::TStruct);
                            Some(td)
                        },
                        None => None,
                    }
                },
            }
        },
    }
}

/// The little-endian bytes of a value, lowest byte first.
fn le_bytes(w: u64, nbytes: usize) -> (r: Vec<u8>)
    ensures
        r@ == unsigned_le(w as int, nbytes as int),
{
    let mut out: Vec<u8> = Vec::new();
    let mut cur: u64 = w;
    let mut j: usize = 0;
    while j < nbytes
        invariant
            j <= nbytes,
            out@ + unsigned_le(cur as int, nbytes - j) == unsigned_le(w as int, nbytes as int),
        decreases nbytes - j,
    {
        let ghost pre = out@;
        let b: u8 = (cur % 256) as u8;
        out.push(b);
        cur = cur / 256;
        proof {
            assert(pre + unsigned_le((cur * 256 + b) as int, nbytes - j) == unsigned_le(
                w as int,
                nbytes as int,
            ));
            assert(out@ + unsigned_le(cur as int, nbytes - (j + 1)) =~= pre + (seq![b]
                + unsigned_le(cur as int, nbytes - j - 1)));
        }
        j = j + 1;
    }
    proof {
        assert(out@ + unsigned_le(cur as int, 0) =~= out@);
    }
    out
}

/// Encodes one numeric literal as the wire bytes of the given type.
fn encode_literal_exec(n: DCNumber, t: DCTypeEnum) -> (r: Option<Vec<u8>>)
    ensures
        match r {
            Some(v) => encode_literal(n, t) == Some(v@),
            None => encode_literal(n, t) is None,
        },
{
    match n {
        DCNumber::Int(v) => match t {
            DCTypeEnum::TInt8 => {
                if -128 <= v && v < 128 {
                    let w: u64 = if v >= 0 {
                        v as u64
                    } else {
                        (v + 256) as u64
                    };
                    Some(le_bytes(w, 1))
                } else {
                    None
                }
            },
            DCTypeEnum::TInt16 => {
                if -32768 <= v && v < 32768 {
                    let w: u64 = if v >= 0 {
                        v as u64
                    } else {
                        (v + 65536) as u64
                    };
                    Some(le_bytes(w, 2))
                } else {
                    None
                }
            },
            DCTypeEnum::TInt32 => {
                if -0x8000_0000 <= v && v < 0x8000_0000 {
                    let w: u64 = if v >= 0 {
                        v as u64
                    } else {
                        (v + 0x1_0000_0000) as u64
                    };
                    Some(le_bytes(w, 4))
                } else {
                    None
                }
            },
            DCTypeEnum::TInt64 => {
                let w: u64 = if v >= 0 {
                    v as u64
                } else {
                    ((v as i128) + 0x1_0000_0000_0000_0000i128) as u64
                };
                Some(le_bytes(w, 8))
            },
            _ => None,
        },
        DCNumber::UInt(v) => match t {
            DCTypeEnum::TUInt8 => if v < 256 {
                Some(le_bytes(v, 1))
            } else {
                None
            },
            DCTypeEnum::TChar => if v < 256 {
                Some(le_bytes(v, 1))
            } else {
                None
            },
            DCTypeEnum::TUInt16 => if v < 65536 {
                Some(le_bytes(v, 2))
            } else {
                None
            },
            DCTypeEnum::TUInt32 => if v < 0x1_0000_0000 {
                Some(le_bytes(v, 4))
            } else {
                None
            },
            DCTypeEnum::TUInt64 => Some(le_bytes(v, 8)),
            _ => None,
        },
        DCNumber::Float(bits) => match t {
            DCTypeEnum::TFloat64 => Some(le_bytes(bits, 8)),
            _ => None,
        },
        DCNumber::Null => None,
    }
}

/// Allocates a field id for an optional explicit request.
fn alloc_field_id_exec(a: &Analyzer, explicit: Option<FieldId>) -> (r: Result<
    (FieldId, u32),
    ParseError,
>)
    ensures
        r == alloc_field_id(a@, explicit),
{
    match explicit {
        Some(e) => {
            if field_id_used(&a.file, e) {
                Err(ParseError::DuplicateFieldId)
            } else {
                let ne: u32 = if (e as u32) + 1 > a.next_field_id {
                    (e as u32) + 1
                } else {
                    a.next_field_id
                };
                Ok((e, ne))
            }
        },
        None => {
            if a.next_field_id > 0xFFFF {
                Err(ParseError::IdSpaceExhausted)
            } else {
                Ok((a.next_field_id as FieldId, a.next_field_id + 1))
            }
        },
    }
}

/// Allocates a class id for an optional explicit request.
fn alloc_class_id_exec(a: &Analyzer, explicit: Option<DClassId>) -> (r: Result<
    (DClassId, u32),
    ParseError,
>)
    ensures
        r == alloc_class_id(a@, explicit),
{
    match explicit {
        Some(e) => {
            if class_id_used(&a.file, e) {
                Err(ParseError::DuplicateClassId)
            } else {
                let ne: u32 = if (e as u32) + 1 > a.next_class_id {
                    (e as u32) + 1
                } else {
                    a.next_class_id
                };
                Ok((e, ne))
            }
        },
        None => {
            if a.next_class_id > 0xFFFF {
                Err(ParseError::IdSpaceExhausted)
            } else {
                Ok((a.next_class_id as DClassId, a.next_class_id + 1))
            }
        },
    }
}

} // verus!

verus! {

// ---------- Executable declaration handlers ---------- //

/// A field arena only ever grows, so growing it keeps the aggregate
/// well-formed.
proof fn lemma_wf_arena_grow(f: FileModel, fm: FieldModel)
    requires
        file_content_wf(f),
    ensures
        file_content_wf(FileModel { fields: f.fields.push(fm), ..f }),
{
    let g = FileModel { fields: f.fields.push(fm), ..f };
    assert forall|i: int| 0 <= i < g.structs.len() implies crate::dcfile::idxs_in_arena(
        #[trigger] g.structs[i].fields,
        g.fields.len(),
    ) by {
        assert(crate::dcfile::idxs_in_arena(f.structs[i].fields, f.fields.len()));
    }
    assert forall|i: int| 0 <= i < g.classes.len() implies crate::dcfile::idxs_in_arena(
        #[trigger] g.classes[i].fields,
        g.fields.len(),
    ) && crate::dcfile::idxs_in_arena(g.classes[i].parents, g.classes.len())
        && crate::dcfile::idxs_in_arena(g.classes[i].inherited_fields, g.fields.len())
        && class_tables_wf(g.classes[i]) by {
        assert(crate::dcfile::idxs_in_arena(f.classes[i].fields, f.fields.len()));
        assert(crate::dcfile::idxs_in_arena(f.classes[i].inherited_fields, f.fields.len()));
    }
}

/// True iff one of the struct's fields already carries the name.
fn struct_has_field_named(a: &Analyzer, s: &DCStruct, name: &String) -> (r: bool)
    requires
        crate::dcfile::idxs_in_arena(s@.fields, a@.file.fields.len()),
    ensures
        r == any_idx_named(a@.file.fields, s@.fields, name@),
{
    let ghost idxs = s@.fields;
    let mut i: usize = s.get_num_fields();
    proof {
        assert(idxs.take(i as int) =~= idxs);
    }
    while i > 0
        invariant
            i <= idxs.len(),
            idxs == s@.fields,
            crate::dcfile::idxs_in_arena(idxs, a@.file.fields.len()),
            any_idx_named(a@.file.fields, idxs, name@) == any_idx_named(
                a@.file.fields,
                idxs.take(i as int),
                name@,
            ),
        decreases i,
    {
        proof {
            assert(idxs.take(i as int).drop_last() =~= idxs.take(i - 1 as int));
            assert(idxs.take(i as int).last() == idxs[i - 1 as int]);
        }
        let fidx: usize = match s.get_field(i - 1) {
            Some(x) => x,
            None => {
                proof {
                    assert(false);
                }
                0
            },
        };
        let fname = a.file.get_field(fidx).get_name();
        if fname == *name {
            return true;
        }
        i = i - 1;
    }
    proof {
        assert(idxs.take(0) =~= Seq::<usize>::empty());
    }
    false
}

/// True iff one of the class's own fields already carries the name.
fn class_has_own_field_named(a: &Analyzer, c: &DClass, name: &String) -> (r: bool)
    requires
        crate::dcfile::idxs_in_arena(c@.fields, a@.file.fields.len()),
    ensures
        r == any_idx_named(a@.file.fields, c@.fields, name@),
{
    let ghost idxs = c@.fields;
    let mut i: usize = c.get_num_own_fields();
    proof {
        assert(idxs.take(i as int) =~= idxs);
    }
    while i > 0
        invariant
            i <= idxs.len(),
            idxs == c@.fields,
            crate::dcfile::idxs_in_arena(idxs, a@.file.fields.len()),
            any_idx_named(a@.file.fields, idxs, name@) == any_idx_named(
                a@.file.fields,
                idxs.take(i as int),
                name@,
            ),
        decreases i,
    {
        proof {
            assert(idxs.take(i as int).drop_last() =~= idxs.take(i - 1 as int));
            assert(idxs.take(i as int).last() == idxs[i - 1 as int]);
        }
        let fidx: usize = match c.get_own_field(i - 1) {
            Some(x) => x,
            None => {
                proof {
                    assert(false);
                }
                0
            },
        };
        let fname = a.file.get_field(fidx).get_name();
        if fname == *name {
            return true;
        }
        i = i - 1;
    }
    proof {
        assert(idxs.take(0) =~= Seq::<usize>::empty());
    }
    false
}

/// Appends one python-import declaration, its symbols expanded.
fn handle_import(a: &mut Analyzer, d: &PyImportDecl)
    requires
        analyzer_wf(old(a)@),
    ensures
        final(a)@ == import_step(old(a)@, d@),
        analyzer_wf(final(a)@),
{
    let symbols: Vec<String> = expand_import_symbols(&d.symbols);
    let ghost symviews = string_views(symbols@);
    let module: String = d.module.clone();
    let imp = DCPythonImport { module, symbols };
    proof {
        assert(imp@.symbols =~= symviews);
        assert(string_views(d.symbols@) =~= d@.symbols);
        assert(imp@ == ImportModel { module: d@.module, symbols: expand_symbols(d@.symbols) });
    }
    a.file.add_python_import(imp);
}

/// Processes one typedef declaration.
fn handle_typedef(a: &mut Analyzer, d: &TypedefDecl) -> (r: Result<(), ParseError>)
    requires
        analyzer_wf(old(a)@),
    ensures
        match r {
            Ok(()) => typedef_step(old(a)@, d@) == Ok::<AnalyzerModel, ParseError>(final(a)@),
            Err(e) => typedef_step(old(a)@, d@) == Err::<AnalyzerModel, ParseError>(e) && final(a)@ == old(a)@,
        },
        analyzer_wf(final(a)@),
{
    let dt: DCTypeEnum = match builtin_of_exec(&d.base_type) {
        Some(dt) => dt,
        None => {
            return Err(ParseError::UnresolvedType);
        },
    };
    if find_typedef_exec(&a.file, &d.alias).is_some() {
        return Err(ParseError::DuplicateTypeAlias);
    }
    let mut td = DCTypeDefinition::new_with_type(dt);
    td.set_size(dt.to_fixed_size());
    td.set_alias(d.alias.clone());
    a.file.add_typedef(td);
    Ok(())
}

/// Processes one field declaration of a struct under construction.
fn do_struct_field(a: &mut Analyzer, sidx: usize, s: &mut DCStruct, d: &FieldDecl) -> (r: Result<
    (),
    ParseError,
>)
    requires
        analyzer_wf(old(a)@),
        crate::dcfile::idxs_in_arena(old(s)@.fields, old(a)@.file.fields.len()),
    ensures
        match r {
            Ok(()) => struct_field_step(old(a)@, sidx, old(s)@, d@) == Ok::<
                (AnalyzerModel, StructModel),
                ParseError,
            >((final(a)@, final(s)@)),
            Err(e) => struct_field_step(old(a)@, sidx, old(s)@, d@) == Err::<
                (AnalyzerModel, StructModel),
                ParseError,
            >(e) && final(a)@ == old(a)@ && final(s)@ == old(s)@,
        },
        analyzer_wf(final(a)@),
        crate::dcfile::idxs_in_arena(final(s)@.fields, final(a)@.file.fields.len()),
{
    if struct_has_field_named(a, s, &d.name) {
        return Err(ParseError::DuplicateFieldName);
    }
    let t: DCTypeDefinition = match resolve_type_exec(&a.file, &d.declared_type) {
        Some(t) => t,
        None => {
            return Err(ParseError::UnresolvedType);
        },
    };
    let alloc: (FieldId, u32) = match alloc_field_id_exec(a, d.explicit_id) {
        Ok(p) => p,
        Err(e) => {
            return Err(e);
        },
    };
    let id: FieldId = alloc.0;
    let nid: u32 = alloc.1;
    let dt_kind: DCTypeEnum = t.get_dc_type();
    let mut has_default: bool = false;
    let mut bytes: Vec<u8> = Vec::new();
    match &d.default {
        Some(n) => {
            match encode_literal_exec(*n, dt_kind) {
                Some(b) => {
                    has_default = true;
                    bytes = b;
                },
                None => {
                    return Err(ParseError::MalformedDefaultValue);
                },
            }
        },
        None => (),
    }
    let mut f = DCField::new(d.name.as_str(), id);
    f.set_field_type(t);
    f.set_parent_struct(sidx);
    if has_default {
        f.set_default_value(bytes);
    } else {
        proof {
            assert(f@.default_value =~= Seq::<u8>::empty());
        }
    }
    let ghost fm = f@;
    let ghost pre = a@;
    let idx: usize = a.file.add_field(f);
    a.next_field_id = nid;
    s.add_field(idx);
    proof {
        lemma_wf_arena_grow(pre.file, fm);
        assert forall|x: int| 0 <= x < final(s)@.fields.len() implies final(s)@.fields[x] < final(a)@.file.fields.len() by {
            if x < old(s)@.fields.len() {
                assert(old(s)@.fields[x] < pre.file.fields.len());
            }
        }
    }
    Ok(())
}

/// Processes one struct declaration.
fn handle_struct(a: &mut Analyzer, d: &StructDecl) -> (r: Result<(), ParseError>)
    requires
        analyzer_wf(old(a)@),
    ensures
        match r {
            Ok(()) => struct_step(old(a)@, d@) == Ok::<AnalyzerModel, ParseError>(final(a)@),
            Err(e) => struct_step(old(a)@, d@) == Err::<AnalyzerModel, ParseError>(e),
        },
        analyzer_wf(final(a)@),
{
    if find_struct_exec(&a.file, &d.name).is_some() {
        return Err(ParseError::DuplicateStructName);
    }
    let sidx: usize = a.file.get_num_structs();
    let mut s = DCStruct::new(d.name.as_str());
    let ghost st1 = a@;
    let ghost s0 = s@;
    let ghost dviews = d@.fields;
    proof {
        assert(s0 == (StructModel { name: d@.name, fields: Seq::empty() }));
        assert(dviews.skip(0) =~= dviews);
        assert(st1 == old(a)@);
        assert(sidx == st1.file.structs.len() as usize);
    }
    let nf: usize = d.fields.len();
    let mut j: usize = 0;
    while j < nf
        invariant
            j <= nf,
            nf == dviews.len(),
            dviews == d.fields@.map_values(|f: FieldDecl| f@),
            dviews == d@.fields,
            st1 == old(a)@,
            sidx == st1.file.structs.len() as usize,
            s0 == (StructModel { name: d@.name, fields: Seq::<usize>::empty() }),
            find_struct_index(old(a)@.file.structs, d@.name) is None,
            analyzer_wf(a@),
            crate::dcfile::idxs_in_arena(s@.fields, a@.file.fields.len()),
            struct_fields_fold(a@, sidx, s@, dviews.skip(j as int)) == struct_fields_fold(
                st1,
                sidx,
                s0,
                dviews,
            ),
        decreases nf - j,
    {
        proof {
            assert(dviews.skip(j as int).first() == dviews[j as int]);
            assert(dviews[j as int] == d.fields@[j as int]@);
            assert(dviews.skip(j as int).drop_first() =~= dviews.skip(j + 1 as int));
        }
        match do_struct_field(a, sidx, &mut s, &d.fields[j]) {
            Ok(()) => (),
            Err(e) => {
                proof {
                    assert(struct_fields_fold(st1, sidx, s0, dviews) == Err::<
                        (AnalyzerModel, StructModel),
                        ParseError,
                    >(e));
                    assert(struct_step(old(a)@, d@) == Err::<AnalyzerModel, ParseError>(e));
                }
                return Err(e);
            },
        }
        j = j + 1;
    }
    proof {
        assert(dviews.skip(nf as int) =~= Seq::<FieldDeclModel>::empty());
    }
    let ghost st2 = a@;
    let ghost s2 = s@;
    let _si: usize = a.file.add_struct(s);
    proof {
        assert forall|i: int| 0 <= i < a@.file.structs.len() implies
            crate::dcfile::idxs_in_arena(
            #[trigger] a@.file.structs[i].fields,
            a@.file.fields.len(),
        ) by {
            if i < st2.file.structs.len() {
                assert(a@.file.structs[i] == st2.file.structs[i]);
                assert(crate::dcfile::idxs_in_arena(st2.file.structs[i].fields, st2.file.fields.len()));
            } else {
                assert(a@.file.structs[i] == s2);
            }
        }
        assert forall|i: int| 0 <= i < a@.file.classes.len() implies
            crate::dcfile::idxs_in_arena(
            #[trigger] a@.file.classes[i].fields,
            a@.file.fields.len(),
        ) && crate::dcfile::idxs_in_arena(
            a@.file.classes[i].parents,
            a@.file.classes.len(),
        ) && crate::dcfile::idxs_in_arena(
            a@.file.classes[i].inherited_fields,
            a@.file.fields.len(),
        ) && class_tables_wf(a@.file.classes[i]) by {
            assert(a@.file.classes[i] == st2.file.classes[i]);
            assert(crate::dcfile::idxs_in_arena(st2.file.classes[i].fields, st2.file.fields.len()));
            assert(crate::dcfile::idxs_in_arena(st2.file.classes[i].parents, st2.file.classes.len()));
            assert(crate::dcfile::idxs_in_arena(
                st2.file.classes[i].inherited_fields,
                st2.file.fields.len(),
            ));
        }
        assert(struct_step(old(a)@, d@) == Ok::<AnalyzerModel, ParseError>(a@));
        assert(file_content_wf(a@.file));
        assert(analyzer_wf(a@));
    }
    Ok(())
}

} // verus!

verus! {

/// Processes one field declaration of a class under construction.
fn do_class_field(a: &mut Analyzer, cidx: usize, c: &mut DClass, d: &FieldDecl) -> (r: Result<
    (),
    ParseError,
>)
    requires
        analyzer_wf(old(a)@),
        class_tables_wf(old(c)@),
        crate::dcfile::idxs_in_arena(old(c)@.fields, old(a)@.file.fields.len()),
    ensures
        match r {
            Ok(()) => class_field_step(old(a)@, cidx, old(c)@, d@) == Ok::<
                (AnalyzerModel, ClassModel),
                ParseError,
            >((final(a)@, final(c)@)),
            Err(e) => class_field_step(old(a)@, cidx, old(c)@, d@) == Err::<
                (AnalyzerModel, ClassModel),
                ParseError,
            >(e) && final(a)@ == old(a)@ && final(c)@ == old(c)@,
        },
        analyzer_wf(final(a)@),
        class_tables_wf(final(c)@),
        crate::dcfile::idxs_in_arena(final(c)@.fields, final(a)@.file.fields.len()),
        final(a)@.file.classes == old(a)@.file.classes,
{
    if class_has_own_field_named(a, c, &d.name) {
        return Err(ParseError::DuplicateFieldName);
    }
    let t: DCTypeDefinition = match resolve_type_exec(&a.file, &d.declared_type) {
        Some(t) => t,
        None => {
            return Err(ParseError::UnresolvedType);
        },
    };
    let alloc: (FieldId, u32) = match alloc_field_id_exec(a, d.explicit_id) {
        Ok(p) => p,
        Err(e) => {
            return Err(e);
        },
    };
    let id: FieldId = alloc.0;
    let nid: u32 = alloc.1;
    let dt_kind: DCTypeEnum = t.get_dc_type();
    let mut has_default: bool = false;
    let mut bytes: Vec<u8> = Vec::new();
    match &d.default {
        Some(n) => {
            match encode_literal_exec(*n, dt_kind) {
                Some(b) => {
                    has_default = true;
                    bytes = b;
                },
                None => {
                    return Err(ParseError::MalformedDefaultValue);
                },
            }
        },
        None => (),
    }
    let mut f = DCField::new(d.name.as_str(), id);
    f.set_field_type(t);
    f.set_parent_dclass(cidx);
    if has_default {
        f.set_default_value(bytes);
    } else {
        proof {
            assert(f@.default_value =~= Seq::<u8>::empty());
        }
    }
    let ghost fm = f@;
    let ghost pre = a@;
    let idx: usize = a.file.add_field(f);
    a.next_field_id = nid;
    c.register_field(idx, &d.name, id, false);
    let cname: String = c.get_name();
    if d.name == cname {
        c.set_constructor(idx);
    }
    proof {
        lemma_wf_arena_grow(pre.file, fm);
        assert(file_content_wf(a@.file));
        assert forall|x: int| 0 <= x < c@.fields.len() implies c@.fields[x]
            < a@.file.fields.len() by {
            if x < old(c)@.fields.len() {
                assert(old(c)@.fields[x] < pre.file.fields.len());
            }
        }
        assert(class_field_step(old(a)@, cidx, old(c)@, d@) == Ok::<
            (AnalyzerModel, ClassModel),
            ParseError,
        >((a@, c@)));
    }
    Ok(())
}

/// Processes one distributed-class declaration.
#[verifier::rlimit(100)]
fn handle_class(a: &mut Analyzer, d: &ClassDecl) -> (r: Result<(), ParseError>)
    requires
        analyzer_wf(old(a)@),
    ensures
        match r {
            Ok(()) => class_step(old(a)@, d@) == Ok::<AnalyzerModel, ParseError>(final(a)@),
            Err(e) => class_step(old(a)@, d@) == Err::<AnalyzerModel, ParseError>(e),
        },
        analyzer_wf(final(a)@),
{
    if find_class_exec(&a.file, &d.name).is_some() {
        return Err(ParseError::DuplicateClassName);
    }
    let alloc: (DClassId, u32) = match alloc_class_id_exec(a, d.explicit_id) {
        Ok(p) => p,
        Err(e) => {
            return Err(e);
        },
    };
    let cid: DClassId = alloc.0;
    let ncid: u32 = alloc.1;
    let ghost st0 = a@;
    let ghost pnames = d@.parents;

    // Resolve every parent name against the classes declared so far.
    let mut pvec: Vec<usize> = Vec::new();
    let np: usize = d.parents.len();
    let mut k: usize = 0;
    proof {
        assert(pnames.skip(0) =~= pnames);
        match resolve_parents(st0.file.classes, pnames) {
            Ok(rest) => {
                assert(pvec@ + rest =~= rest);
            },
            Err(_) => {},
        }
    }
    while k < np
        invariant
            k <= np,
            np == pnames.len(),
            pnames == d.parents@.map_values(|p: String| p@),
            pnames == d@.parents,
            st0 == old(a)@,
            a@ == st0,
            find_class_index(st0.file.classes, d@.name) is None,
            alloc_class_id(st0, d@.explicit_id) == Ok::<(DClassId, u32), ParseError>((cid, ncid)),
            analyzer_wf(a@),
            pvec@.len() == k,
            forall|x: int| 0 <= x < k ==> pvec@[x] < st0.file.classes.len(),
            (match resolve_parents(st0.file.classes, pnames.skip(k as int)) {
                Ok(rest) => Ok::<Seq<usize>, ParseError>(pvec@ + rest),
                Err(e) => Err::<Seq<usize>, ParseError>(e),
            }) == resolve_parents(st0.file.classes, pnames),
        decreases np - k,
    {
        proof {
            assert(pnames.skip(k as int).first() == pnames[k as int]);
            assert(pnames[k as int] == d.parents@[k as int]@);
            assert(pnames.skip(k as int).drop_first() =~= pnames.skip(k + 1 as int));
        }
        match find_class_exec(&a.file, &d.parents[k]) {
            Some(p) => {
                let ghost pvec_old = pvec@;
                pvec.push(p);
                proof {
                    match resolve_parents(st0.file.classes, pnames.skip(k + 1 as int)) {
                        Ok(rest2) => {
                            assert(pvec_old + (seq![p] + rest2) =~= pvec@ + rest2);
                        },
                        Err(_) => {},
                    }
                }
            },
            None => {
                proof {
                    assert(resolve_parents(st0.file.classes, pnames.skip(k as int))
                        == Err::<Seq<usize>, ParseError>(ParseError::UnresolvedParent));
                    assert(class_step(old(a)@, d@) == Err::<AnalyzerModel, ParseError>(
                        ParseError::UnresolvedParent,
                    ));
                }
                return Err(ParseError::UnresolvedParent);
            },
        }
        k = k + 1;
    }
    proof {
        assert(pnames.skip(np as int) =~= Seq::<Seq<char>>::empty());
        match resolve_parents(st0.file.classes, pnames.skip(np as int)) {
            Ok(rest) => {
                assert(pvec@ + rest =~= pvec@);
            },
            Err(_) => {},
        }
        assert(resolve_parents(st0.file.classes, pnames) == Ok::<Seq<usize>, ParseError>(pvec@));
    }
    let ghost pidx = pvec@;

    // Build the class: confirmed (not bogus), parents attached in order.
    let cidx: usize = a.file.get_num_dclasses();
    let mut c = DClass::new(d.name.as_str(), cid);
    c.set_bogus_class(false);
    let ghost cbase = c@;
    let npv: usize = pvec.len();
    let mut x: usize = 0;
    proof {
        assert(pvec@.take(0) =~= Seq::<usize>::empty());
        assert(c@ == (ClassModel { parents: pvec@.take(0), ..cbase }));
    }
    while x < npv
        invariant
            x <= npv,
            npv == pvec@.len(),
            c@ == (ClassModel { parents: pvec@.take(x as int), ..cbase }),
        decreases npv - x,
    {
        c.set_parent(pvec[x]);
        proof {
            assert(pvec@.take(x + 1 as int) =~= pvec@.take(x as int).push(pvec@[x as int]));
        }
        x = x + 1;
    }
    a.next_class_id = ncid;
    let ghost st1x = a@;
    let ghost c0 = c@;
    proof {
        assert(pvec@.take(npv as int) =~= pvec@);
        assert(st1x == (AnalyzerModel { next_class_id: ncid, ..st0 }));
        assert(c0 == (ClassModel {
            name: d@.name,
            class_id: cid,
            is_struct: false,
            is_bogus: false,
            parents: pidx,
            constructor: None,
            fields: Seq::empty(),
            inherited_fields: Seq::empty(),
            reg: Seq::empty(),
            name_map: Map::empty(),
            id_map: Map::empty(),
        }));
        assert(c@.fields.len() == 0);
        assert(cidx == st0.file.classes.len() as usize);
    }

    // Own fields, in declaration order.
    let ghost dfields = d@.fields;
    let nf: usize = d.fields.len();
    let mut j: usize = 0;
    proof {
        assert(dfields.skip(0) =~= dfields);
    }
    while j < nf
        invariant
            j <= nf,
            nf == dfields.len(),
            dfields == d.fields@.map_values(|f: FieldDecl| f@),
            dfields == d@.fields,
            st0 == old(a)@,
            st1x == (AnalyzerModel { next_class_id: ncid, ..st0 }),
            cidx == st0.file.classes.len() as usize,
            find_class_index(st0.file.classes, d@.name) is None,
            alloc_class_id(st0, d@.explicit_id) == Ok::<(DClassId, u32), ParseError>((cid, ncid)),
            resolve_parents(st0.file.classes, d@.parents) == Ok::<Seq<usize>, ParseError>(pidx),
            pidx == pvec@,
            forall|y: int| 0 <= y < pvec@.len() ==> pvec@[y] < st0.file.classes.len(),
            c0 == (ClassModel {
                name: d@.name,
                class_id: cid,
                is_struct: false,
                is_bogus: false,
                parents: pidx,
                constructor: None,
                fields: Seq::empty(),
                inherited_fields: Seq::empty(),
                reg: Seq::empty(),
                name_map: Map::empty(),
                id_map: Map::empty(),
            }),
            c@.parents == pidx,
            c@.inherited_fields == Seq::<usize>::empty(),
            analyzer_wf(a@),
            class_tables_wf(c@),
            crate::dcfile::idxs_in_arena(c@.fields, a@.file.fields.len()),
            a@.file.classes == st0.file.classes,
            class_fields_fold(a@, cidx, c@, dfields.skip(j as int)) == class_fields_fold(
                st1x,
                cidx,
                c0,
                dfields,
            ),
        decreases nf - j,
    {
        proof {
            assert(dfields.skip(j as int).first() == dfields[j as int]);
            assert(dfields[j as int] == d.fields@[j as int]@);
            assert(dfields.skip(j as int).drop_first() =~= dfields.skip(j + 1 as int));
        }
        match do_class_field(a, cidx, &mut c, &d.fields[j]) {
            Ok(()) => (),
            Err(e) => {
                proof {
                    assert(class_fields_fold(st1x, cidx, c0, dfields) == Err::<
                        (AnalyzerModel, ClassModel),
                        ParseError,
                    >(e));
                    assert(class_step(old(a)@, d@) == Err::<AnalyzerModel, ParseError>(e));
                }
                return Err(e);
            },
        }
        j = j + 1;
    }
    proof {
        assert(dfields.skip(nf as int) =~= Seq::<FieldDeclModel>::empty());
    }
    let ghost st2 = a@;
    let ghost cls = a@.file.classes;
    let ghost arena = a@.file.fields;
    let ghost cmid = c@;
    proof {
        assert(class_fields_fold(st1x, cidx, c0, dfields) == Ok::<
            (AnalyzerModel, ClassModel),
            ParseError,
        >((st2, cmid)));
        assert(pvec@.skip(0) =~= pvec@);
        assert(crate::dcfile::idxs_in_arena(c@.inherited_fields, arena.len()));
    }

    // Inherited fields: parent by parent, each contributing its inherited
    // fields first and then its own fields.
    let mut pi: usize = 0;
    while pi < npv
        invariant
            pi <= npv,
            npv == pvec@.len(),
            a@ == st2,
            cls == a@.file.classes,
            arena == a@.file.fields,
            analyzer_wf(a@),
            class_tables_wf(c@),
            crate::dcfile::idxs_in_arena(c@.fields, arena.len()),
            crate::dcfile::idxs_in_arena(c@.inherited_fields, arena.len()),
            c@.parents == pidx,
            pidx == pvec@,
            forall|y: int| 0 <= y < pvec@.len() ==> pvec@[y] < cls.len(),
            register_inherited(c@, pvec@.skip(pi as int), cls, arena) == register_inherited(
                cmid,
                pvec@,
                cls,
                arena,
            ),
        decreases npv - pi,
    {
        let p: usize = pvec[pi];
        let ghost plist = cls[p as int].inherited_fields + cls[p as int].fields;
        let mut combined: Vec<usize> = Vec::new();
        let ni: usize = a.file.get_dclass(p).get_num_inherited_fields();
        let mut q: usize = 0;
        proof {
            assert(cls[p as int].inherited_fields.take(0) =~= Seq::<usize>::empty());
            assert(combined@ =~= cls[p as int].inherited_fields.take(0));
        }
        while q < ni
            invariant
                q <= ni,
                p < cls.len(),
                a@ == st2,
                cls == a@.file.classes,
                ni == cls[p as int].inherited_fields.len(),
                combined@ == cls[p as int].inherited_fields.take(q as int),
            decreases ni - q,
        {
            let e: usize = match a.file.get_dclass(p).get_inherited_field(q) {
                Some(v) => v,
                None => {
                    proof {
                        assert(false);
                    }
                    0
                },
            };
            combined.push(e);
            proof {
                assert(cls[p as int].inherited_fields.take(q + 1 as int) =~= cls[
                    p as int
                ].inherited_fields.take(q as int).push(cls[p as int].inherited_fields[q as int]));
            }
            q = q + 1;
        }
        let no: usize = a.file.get_dclass(p).get_num_own_fields();
        let mut q2: usize = 0;
        proof {
            assert(cls[p as int].inherited_fields.take(ni as int) =~= cls[
                p as int
            ].inherited_fields);
            assert(cls[p as int].fields.take(0) =~= Seq::<usize>::empty());
            assert(combined@ =~= cls[p as int].inherited_fields + cls[p as int].fields.take(0));
        }
        while q2 < no
            invariant
                q2 <= no,
                p < cls.len(),
                a@ == st2,
                cls == a@.file.classes,
                no == cls[p as int].fields.len(),
                combined@ == cls[p as int].inherited_fields + cls[p as int].fields.take(
                    q2 as int,
                ),
            decreases no - q2,
        {
            let e: usize = match a.file.get_dclass(p).get_own_field(q2) {
                Some(v) => v,
                None => {
                    proof {
                        assert(false);
                    }
                    0
                },
            };
            combined.push(e);
            proof {
                assert(cls[p as int].fields.take(q2 + 1 as int) =~= cls[p as int].fields.take(
                    q2 as int,
                ).push(cls[p as int].fields[q2 as int]));
                assert(combined@ =~= cls[p as int].inherited_fields + cls[p as int].fields.take(
                    q2 + 1 as int,
                ));
            }
            q2 = q2 + 1;
        }
        proof {
            assert(cls[p as int].fields.take(no as int) =~= cls[p as int].fields);
            assert(combined@ == plist);
            assert(crate::dcfile::idxs_in_arena(cls[p as int].inherited_fields, arena.len()));
            assert(crate::dcfile::idxs_in_arena(cls[p as int].fields, arena.len()));
            assert forall|y: int| 0 <= y < combined@.len() implies combined@[y]
                < arena.len() by {
                if y < cls[p as int].inherited_fields.len() {
                    assert(combined@[y] == cls[p as int].inherited_fields[y]);
                } else {
                    assert(combined@[y] == cls[p as int].fields[y - cls[
                        p as int
                    ].inherited_fields.len()]);
                }
            }
            assert(combined@.skip(0) =~= combined@);
        }
        let ghost cpre = c@;
        let nc: usize = combined.len();
        let mut q3: usize = 0;
        while q3 < nc
            invariant
                q3 <= nc,
                nc == combined@.len(),
                a@ == st2,
                cls == a@.file.classes,
                arena == a@.file.fields,
                analyzer_wf(a@),
                class_tables_wf(c@),
                crate::dcfile::idxs_in_arena(c@.fields, arena.len()),
                crate::dcfile::idxs_in_arena(c@.inherited_fields, arena.len()),
                c@.parents == pidx,
                pidx == pvec@,
                forall|y: int| 0 <= y < pvec@.len() ==> pvec@[y] < cls.len(),
                forall|y: int| 0 <= y < combined@.len() ==> combined@[y] < arena.len(),
                register_inherited_list(c@, combined@.skip(q3 as int), arena)
                    == register_inherited_list(cpre, combined@, arena),
            decreases nc - q3,
        {
            let fidx: usize = combined[q3];
            let fld = a.file.get_field(fidx);
            let nm: String = fld.get_name();
            let fid: FieldId = fld.get_id();
            proof {
                assert(combined@.skip(q3 as int).first() == combined@[q3 as int]);
                assert(combined@.skip(q3 as int).drop_first() =~= combined@.skip(q3 + 1 as int));
                assert(arena[fidx as int].name == nm@);
                assert(arena[fidx as int].id == fid);
            }
            c.register_field(fidx, &nm, fid, true);
            proof {
                assert forall|y: int| 0 <= y < c@.inherited_fields.len() implies c@
                    .inherited_fields[y] < arena.len() by {
                    if y < c@.inherited_fields.len() - 1 {
                        assert(c@.inherited_fields[y] < arena.len());
                    }
                }
            }
            q3 = q3 + 1;
        }
        proof {
            assert(combined@.skip(nc as int) =~= Seq::<usize>::empty());
            assert(c@ == register_inherited_list(cpre, plist, arena));
            assert(pvec@.skip(pi as int).first() == pvec@[pi as int]);
            assert(pvec@.skip(pi as int).drop_first() =~= pvec@.skip(pi + 1 as int));
        }
        pi = pi + 1;
    }
    proof {
        assert(pvec@.skip(npv as int) =~= Seq::<usize>::empty());
        assert(c@ == register_inherited(cmid, pvec@, cls, arena));
    }
    let ghost c3 = c@;
    let _ci: usize = a.file.add_class(c);
    proof {
        assert forall|i: int| 0 <= i < a@.file.classes.len() implies
            crate::dcfile::idxs_in_arena(#[trigger] a@.file.classes[i].fields, a@.file.fields.len())
            && crate::dcfile::idxs_in_arena(a@.file.classes[i].parents, a@.file.classes.len())
            && crate::dcfile::idxs_in_arena(
            a@.file.classes[i].inherited_fields,
            a@.file.fields.len(),
        ) && class_tables_wf(a@.file.classes[i]) by {
            if i < st2.file.classes.len() {
                assert(a@.file.classes[i] == st2.file.classes[i]);
                assert(crate::dcfile::idxs_in_arena(st2.file.classes[i].fields, st2.file.fields.len()));
                assert(crate::dcfile::idxs_in_arena(
                    st2.file.classes[i].parents,
                    st2.file.classes.len(),
                ));
                assert(crate::dcfile::idxs_in_arena(
                    st2.file.classes[i].inherited_fields,
                    st2.file.fields.len(),
                ));
            } else {
                assert(a@.file.classes[i] == c3);
                assert(c3.parents == pvec@);
                assert forall|y: int| 0 <= y < c3.parents.len() implies c3.parents[y]
                    < a@.file.classes.len() by {
                    assert(pvec@[y] < cls.len());
                }
            }
        }
        assert forall|i: int| 0 <= i < a@.file.structs.len() implies
            crate::dcfile::idxs_in_arena(
            #[trigger] a@.file.structs[i].fields,
            a@.file.fields.len(),
        ) by {
            assert(a@.file.structs[i] == st2.file.structs[i]);
            assert(crate::dcfile::idxs_in_arena(st2.file.structs[i].fields, st2.file.fields.len()));
        }
        assert(file_content_wf(a@.file));
        assert(analyzer_wf(a@));
        assert(class_step(old(a)@, d@) == Ok::<AnalyzerModel, ParseError>(a@));
    }
    Ok(())
}

} // verus!

verus! {

/// Takes in the parser's declaration trees and compiles them: populates the
/// intermediate aggregate declaration by declaration, validates as it goes,
/// and finalizes the published, immutable aggregate with its accumulated
/// hash. The result is exactly what the small-step model [`analyzed`]
/// computes: the published content on success — hash included, so equal
/// inputs always publish equal hashes — and the model's error on the first
/// invalid declaration, with no partial schema published.
pub fn semantic_analyzer(data: PipelineData) -> (r: Result<crate::dcfile::DCFile, ParseError>)
    ensures
        match r {
            Ok(f) => analyzed(data@) is Ok && crate::dcfile::published_wf(f@) && (match analyzed(
                data@,
            ) {
                Ok(st) => f@.content == st.file,
                Err(_) => false,
            }),
            Err(e) => analyzed(data@) == Err::<AnalyzerModel, ParseError>(e),
        },
{
    let mut a = Analyzer {
        file: intermediate::DCFile::default(),
        next_field_id: 0,
        next_class_id: 0,
    };
    let ghost all = data@;
    proof {
        assert(a@.file == init_state().file);
        assert(a@ == init_state());
        assert(all.skip(0) =~= all);
        assert forall|i: int| 0 <= i < a@.file.structs.len() implies
            crate::dcfile::idxs_in_arena(
            #[trigger] a@.file.structs[i].fields,
            a@.file.fields.len(),
        ) by {}
        assert forall|i: int| 0 <= i < a@.file.classes.len() implies
            crate::dcfile::idxs_in_arena(#[trigger] a@.file.classes[i].fields, a@.file.fields.len())
            && crate::dcfile::idxs_in_arena(a@.file.classes[i].parents, a@.file.classes.len())
            && crate::dcfile::idxs_in_arena(
            a@.file.classes[i].inherited_fields,
            a@.file.fields.len(),
        ) && class_tables_wf(a@.file.classes[i]) by {}
        assert(file_content_wf(a@.file));
    }
    let nt: usize = data.syntax_trees.len();
    let mut i: usize = 0;
    while i < nt
        invariant
            i <= nt,
            nt == all.len(),
            all == data@,
            analyzer_wf(a@),
            run_trees(a@, all.skip(i as int)) == analyzed(all),
        decreases nt - i,
    {
        let tree: &SyntaxTree = &data.syntax_trees[i];
        let ghost decls = tree@;
        proof {
            assert(all.skip(i as int).first() == all[i as int]);
            assert(all[i as int] == data.syntax_trees@[i as int]@);
            assert(all.skip(i as int).drop_first() =~= all.skip(i + 1 as int));
            assert(decls.skip(0) =~= decls);
        }
        let nd: usize = tree.type_declarations.len();
        let mut j: usize = 0;
        while j < nd
            invariant
                j <= nd,
                nd == decls.len(),
                i < nt,
                nt == all.len(),
                all == data@,
                decls == data.syntax_trees@[i as int]@,
                decls == tree@,
                nd == tree.type_declarations@.len(),
                analyzer_wf(a@),
                (match run_decls(a@, decls.skip(j as int)) {
                    Ok(st2) => run_trees(st2, all.skip(i + 1 as int)),
                    Err(e) => Err::<AnalyzerModel, ParseError>(e),
                }) == analyzed(all),
            decreases nd - j,
        {
            proof {
                assert(decls.skip(j as int).first() == decls[j as int]);
                assert(decls[j as int] == tree.type_declarations@[j as int]@);
                assert(decls.skip(j as int).drop_first() =~= decls.skip(j + 1 as int));
            }
            match &tree.type_declarations[j] {
                TypeDeclaration::PythonImport(imp) => {
                    handle_import(&mut a, imp);
                },
                TypeDeclaration::KeywordType(_) => (),
                TypeDeclaration::Ignore => (),
                TypeDeclaration::TypedefType(td) => {
                    match handle_typedef(&mut a, td) {
                        Ok(()) => (),
                        Err(e) => {
                            return Err(e);
                        },
                    }
                },
                TypeDeclaration::StructType(sd) => {
                    match handle_struct(&mut a, sd) {
                        Ok(()) => (),
                        Err(e) => {
                            return Err(e);
                        },
                    }
                },
                TypeDeclaration::DClassType(cd) => {
                    match handle_class(&mut a, cd) {
                        Ok(()) => (),
                        Err(e) => {
                            return Err(e);
                        },
                    }
                },
            }
            j = j + 1;
        }
        proof {
            assert(decls.skip(nd as int) =~= Seq::<DeclModel>::empty());
        }
        i = i + 1;
    }
    proof {
        assert(all.skip(nt as int) =~= Seq::<Seq<DeclModel>>::empty());
        assert(analyzed(all) == Ok::<AnalyzerModel, ParseError>(a@));
    }
    let Analyzer { file, next_field_id: _, next_class_id: _ } = a;
    let published = file.publish();
    Ok(published)
}

} // verus!

verus! {

// ---------- Id uniqueness ---------- //

/// No two fields share an id.
pub open spec fn field_ids_distinct(fs: Seq<FieldModel>) -> bool {
    forall|i: int, j: int| 0 <= i < j < fs.len() ==> fs[i].id != fs[j].id
}

/// No two classes share an id.
pub open spec fn class_ids_distinct(cs: Seq<ClassModel>) -> bool {
    forall|i: int, j: int| 0 <= i < j < cs.len() ==> cs[i].class_id != cs[j].class_id
}

/// The allocators stay ahead of every id handed out, so no id is ever
/// reused.
pub open spec fn ids_invariant(st: AnalyzerModel) -> bool {
    &&& field_ids_distinct(st.file.fields)
    &&& class_ids_distinct(st.file.classes)
    &&& forall|i: int|
        0 <= i < st.file.fields.len() ==> (#[trigger] st.file.fields[i].id as int)
            < st.next_field_id
    &&& forall|i: int|
        0 <= i < st.file.classes.len() ==> (#[trigger] st.file.classes[i].class_id as int)
            < st.next_class_id
}

proof fn lemma_any_field_id_iff(fs: Seq<FieldModel>, id: FieldId)
    ensures
        any_field_id(fs, id) <==> exists|i: int| 0 <= i < fs.len() && fs[i].id == id,
    decreases fs.len(),
{
    if fs.len() != 0 {
        lemma_any_field_id_iff(fs.drop_last(), id);
        if fs.last().id == id {
            assert(fs[fs.len() - 1].id == id);
        }
        if exists|i: int| 0 <= i < fs.len() && fs[i].id == id {
            let i = choose|i: int| 0 <= i < fs.len() && fs[i].id == id;
            if i < fs.len() - 1 {
                assert(fs.drop_last()[i].id == id);
            }
        }
    }
}

proof fn lemma_any_class_id_iff(cs: Seq<ClassModel>, id: DClassId)
    ensures
        any_class_id(cs, id) <==> exists|i: int| 0 <= i < cs.len() && cs[i].class_id == id,
    decreases cs.len(),
{
    if cs.len() != 0 {
        lemma_any_class_id_iff(cs.drop_last(), id);
        if cs.last().class_id == id {
            assert(cs[cs.len() - 1].class_id == id);
        }
        if exists|i: int| 0 <= i < cs.len() && cs[i].class_id == id {
            let i = choose|i: int| 0 <= i < cs.len() && cs[i].class_id == id;
            if i < cs.len() - 1 {
                assert(cs.drop_last()[i].class_id == id);
            }
        }
    }
}

proof fn lemma_alloc_field_id_fresh(st: AnalyzerModel, explicit: Option<FieldId>)
    requires
        ids_invariant(st),
    ensures
        match alloc_field_id(st, explicit) {
            Ok(p) => (forall|i: int|
                0 <= i < st.file.fields.len() ==> (#[trigger] st.file.fields[i].id) != p.0) && (
            p.0 as int) < p.1 && st.next_field_id <= p.1 && (forall|i: int|
                0 <= i < st.file.fields.len() ==> (#[trigger] st.file.fields[i].id as int) < p.1),
            Err(_) => true,
        },
{
    match explicit {
        Some(e) => {
            lemma_any_field_id_iff(st.file.fields, e);
        },
        None => {},
    }
}

proof fn lemma_alloc_class_id_fresh(st: AnalyzerModel, explicit: Option<DClassId>)
    requires
        ids_invariant(st),
    ensures
        match alloc_class_id(st, explicit) {
            Ok(p) => (forall|i: int|
                0 <= i < st.file.classes.len() ==> (#[trigger] st.file.classes[i].class_id)
                    != p.0) && (p.0 as int) < p.1 && st.next_class_id <= p.1 && (forall|i: int|
                0 <= i < st.file.classes.len() ==> (#[trigger] st.file.classes[i].class_id as int)
                    < p.1),
            Err(_) => true,
        },
{
    match explicit {
        Some(e) => {
            lemma_any_class_id_iff(st.file.classes, e);
        },
        None => {},
    }
}

proof fn lemma_class_field_step_ids(
    st: AnalyzerModel,
    cidx: usize,
    c: ClassModel,
    d: FieldDeclModel,
)
    requires
        ids_invariant(st),
    ensures
        match class_field_step(st, cidx, c, d) {
            Ok(p) => ids_invariant(p.0) && p.0.file.classes == st.file.classes
                && p.0.next_class_id == st.next_class_id && p.1.class_id == c.class_id,
            Err(_) => true,
        },
{
    lemma_alloc_field_id_fresh(st, d.explicit_id);
}

proof fn lemma_struct_field_step_ids(
    st: AnalyzerModel,
    sidx: usize,
    s: StructModel,
    d: FieldDeclModel,
)
    requires
        ids_invariant(st),
    ensures
        match struct_field_step(st, sidx, s, d) {
            Ok(p) => ids_invariant(p.0) && p.0.file.classes == st.file.classes
                && p.0.next_class_id == st.next_class_id,
            Err(_) => true,
        },
{
    lemma_alloc_field_id_fresh(st, d.explicit_id);
}

proof fn lemma_class_fold_ids(
    st: AnalyzerModel,
    cidx: usize,
    c: ClassModel,
    ds: Seq<FieldDeclModel>,
)
    requires
        ids_invariant(st),
    ensures
        match class_fields_fold(st, cidx, c, ds) {
            Ok(p) => ids_invariant(p.0) && p.0.file.classes == st.file.classes
                && p.0.next_class_id == st.next_class_id && p.1.class_id == c.class_id,
            Err(_) => true,
        },
    decreases ds.len(),
{
    if ds.len() != 0 {
        lemma_class_field_step_ids(st, cidx, c, ds.first());
        match class_field_step(st, cidx, c, ds.first()) {
            Ok(p) => {
                lemma_class_fold_ids(p.0, cidx, p.1, ds.drop_first());
            },
            Err(_) => {},
        }
    }
}

proof fn lemma_struct_fold_ids(
    st: AnalyzerModel,
    sidx: usize,
    s: StructModel,
    ds: Seq<FieldDeclModel>,
)
    requires
        ids_invariant(st),
    ensures
        match struct_fields_fold(st, sidx, s, ds) {
            Ok(p) => ids_invariant(p.0) && p.0.file.classes == st.file.classes
                && p.0.next_class_id == st.next_class_id,
            Err(_) => true,
        },
    decreases ds.len(),
{
    if ds.len() != 0 {
        lemma_struct_field_step_ids(st, sidx, s, ds.first());
        match struct_field_step(st, sidx, s, ds.first()) {
            Ok(p) => {
                lemma_struct_fold_ids(p.0, sidx, p.1, ds.drop_first());
            },
            Err(_) => {},
        }
    }
}

proof fn lemma_register_list_class_id(c: ClassModel, idxs: Seq<usize>, arena: Seq<FieldModel>)
    ensures
        register_inherited_list(c, idxs, arena).class_id == c.class_id,
    decreases idxs.len(),
{
    if idxs.len() != 0 {
        lemma_register_list_class_id(
            class_register(
                c,
                RegEntry {
                    name: arena[idxs.first() as int].name,
                    id: arena[idxs.first() as int].id,
                    index: idxs.first(),
                },
                true,
            ),
            idxs.drop_first(),
            arena,
        );
    }
}

proof fn lemma_register_inherited_class_id(
    c: ClassModel,
    ps: Seq<usize>,
    cs: Seq<ClassModel>,
    arena: Seq<FieldModel>,
)
    ensures
        register_inherited(c, ps, cs, arena).class_id == c.class_id,
    decreases ps.len(),
{
    if ps.len() != 0 {
        let c2 = register_inherited_list(
            c,
            cs[ps.first() as int].inherited_fields + cs[ps.first() as int].fields,
            arena,
        );
        lemma_register_list_class_id(
            c,
            cs[ps.first() as int].inherited_fields + cs[ps.first() as int].fields,
            arena,
        );
        lemma_register_inherited_class_id(c2, ps.drop_first(), cs, arena);
    }
}

proof fn lemma_decl_step_ids(st: AnalyzerModel, d: DeclModel)
    requires
        ids_invariant(st),
    ensures
        match decl_step(st, d) {
            Ok(st2) => ids_invariant(st2),
            Err(_) => true,
        },
{
    match d {
        DeclModel::PythonImport(_) => {},
        DeclModel::KeywordType(_) => {},
        DeclModel::Ignore => {},
        DeclModel::TypedefType(_) => {},
        DeclModel::StructType(s) => {
            if !(find_struct_index(st.file.structs, s.name) is Some) {
                lemma_struct_fold_ids(
                    st,
                    st.file.structs.len() as usize,
                    StructModel { name: s.name, fields: Seq::empty() },
                    s.fields,
                );
            }
        },
        DeclModel::DClassType(cd) => {
            if !(find_class_index(st.file.classes, cd.name) is Some) {
                lemma_alloc_class_id_fresh(st, cd.explicit_id);
                match alloc_class_id(st, cd.explicit_id) {
                    Ok(pc) => {
                        match resolve_parents(st.file.classes, cd.parents) {
                            Ok(pidx) => {
                                let st1 = AnalyzerModel { next_class_id: pc.1, ..st };
                                let cidx = st.file.classes.len() as usize;
                                let c0 = ClassModel {
                                    name: cd.name,
                                    class_id: pc.0,
                                    is_struct: false,
                                    is_bogus: false,
                                    parents: pidx,
                                    constructor: None,
                                    fields: Seq::empty(),
                                    inherited_fields: Seq::empty(),
                                    reg: Seq::empty(),
                                    name_map: Map::empty(),
                                    id_map: Map::empty(),
                                };
                                lemma_class_fold_ids(st1, cidx, c0, cd.fields);
                                match class_fields_fold(st1, cidx, c0, cd.fields) {
                                    Ok(p) => {
                                        lemma_register_inherited_class_id(
                                            p.1,
                                            pidx,
                                            p.0.file.classes,
                                            p.0.file.fields,
                                        );
                                    },
                                    Err(_) => {},
                                }
                            },
                            Err(_) => {},
                        }
                    },
                    Err(_) => {},
                }
            }
        },
    }
}

proof fn lemma_run_decls_ids(st: AnalyzerModel, ds: Seq<DeclModel>)
    requires
        ids_invariant(st),
    ensures
        match run_decls(st, ds) {
            Ok(st2) => ids_invariant(st2),
            Err(_) => true,
        },
    decreases ds.len(),
{
    if ds.len() != 0 {
        lemma_decl_step_ids(st, ds.first());
        match decl_step(st, ds.first()) {
            Ok(st2) => {
                lemma_run_decls_ids(st2, ds.drop_first());
            },
            Err(_) => {},
        }
    }
}

proof fn lemma_run_trees_ids(st: AnalyzerModel, ts: Seq<Seq<DeclModel>>)
    requires
        ids_invariant(st),
    ensures
        match run_trees(st, ts) {
            Ok(st2) => ids_invariant(st2),
            Err(_) => true,
        },
    decreases ts.len(),
{
    if ts.len() != 0 {
        lemma_run_decls_ids(st, ts.first());
        match run_decls(st, ts.first()) {
            Ok(st2) => {
                lemma_run_trees_ids(st2, ts.drop_first());
            },
            Err(_) => {},
        }
    }
}

/// Law: id uniqueness. In any schema the compilation accepts, field ids are
/// pairwise distinct and class ids are pairwise distinct: each id allocator
/// moves strictly past every id it hands out — explicit or automatic — so
/// no id is ever assigned twice or reused.
pub proof fn lemma_id_uniqueness(data: Seq<Seq<DeclModel>>)
    ensures
        match analyzed(data) {
            Ok(st) => field_ids_distinct(st.file.fields) && class_ids_distinct(st.file.classes),
            Err(_) => true,
        },
{
    lemma_run_trees_ids(init_state(), data);
}

/// Law: a declaration that asks for an explicit id some earlier declaration
/// already carries is a compile error, for fields and classes alike.
pub proof fn lemma_duplicate_explicit_id_rejected(st: AnalyzerModel, e: FieldId, ec: DClassId)
    ensures
        any_field_id(st.file.fields, e) ==> alloc_field_id(st, Some(e)) == Err::<
            (FieldId, u32),
            ParseError,
        >(ParseError::DuplicateFieldId),
        any_class_id(st.file.classes, ec) ==> alloc_class_id(st, Some(ec)) == Err::<
            (DClassId, u32),
            ParseError,
        >(ParseError::DuplicateClassId),
{
}

} // verus!

verus! {

/// Law: hash determinism across compilations. Any two published schemas
/// compiled from the same declaration input carry the same 32-bit hash, in
/// the same or different process runs, on any machine: the hash is a pure
/// function of the declarations alone.
pub proof fn lemma_published_hash_deterministic(
    data: Seq<Seq<DeclModel>>,
    a: crate::dcfile::PublishedModel,
    b: crate::dcfile::PublishedModel,
)
    requires
        crate::dcfile::published_wf(a),
        crate::dcfile::published_wf(b),
        match analyzed(data) {
            Ok(st) => a.content == st.file && b.content == st.file,
            Err(_) => false,
        },
    ensures
        a.hash == b.hash,
{
}

} // verus!
