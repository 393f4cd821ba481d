//! The field, struct and class models of a compiled schema, and the published
//! schema aggregate.
//!
//! Classes and fields live in owned arenas (vectors) inside the aggregate and
//! refer to one another by stable integer indices, so a child class stores its
//! parent's arena index and every holder of an index sees later updates to the
//! shared entry. A class owns two insertion-ordered multi-valued lookup
//! tables, name-to-field and id-to-field, covering its own and its inherited
//! fields; lookups return every match and callers pick the last one (the
//! nearest, most-overriding declaration).

use crate::dctype::{type_hash, DCTypeDefinition, DCTypeEnum, TypeModel};
use crate::globals::{DClassId, FieldId};
use crate::hashgen::{int_hash, str_hash, DCHashGenerator};
use vstd::prelude::*;

verus! {

// ---------- Python import ---------- //

/// Abstract value of a [`DCPythonImport`].
pub struct ImportModel {
    pub module: Seq<char>,
    pub symbols: Seq<Seq<char>>,
}

/// One python-import declaration of the schema, with its symbol list already
/// expanded (a multi-suffix expression such as `Class/AI/OV` has become
/// `Class`, `ClassAI`, `ClassOV`).
pub struct DCPythonImport {
    pub module: String,
    pub symbols: Vec<String>,
}

impl View for DCPythonImport {
    type V = ImportModel;

    open spec fn view(&self) -> ImportModel {
        ImportModel {
            module: self.module@,
            symbols: self.symbols@.map_values(|s: String| s@),
        }
    }
}

/// The hash contribution of the symbols of an import, in declaration order.
pub open spec fn symbols_hash(h: u32, symbols: Seq<Seq<char>>) -> u32
    decreases symbols.len(),
{
    if symbols.len() == 0 {
        h
    } else {
        str_hash(symbols_hash(h, symbols.drop_last()), symbols.last())
    }
}

/// The hash contribution of one import: its module name, then each expanded
/// symbol in order.
pub open spec fn import_hash(h: u32, im: ImportModel) -> u32 {
    symbols_hash(str_hash(h, im.module), im.symbols)
}

impl DCPythonImport {
    /// Accumulates the properties of this DC element into the file hash.
    pub fn generate_hash(&self, hashgen: &mut DCHashGenerator)
        ensures
            final(hashgen)@ == import_hash(old(hashgen)@, self@),
    {
        hashgen.add_string(self.module.as_str());
        let ghost h1: u32 = hashgen@;
        let n: usize = self.symbols.len();
        let mut i: usize = 0;
        while i < n
            invariant
                i <= n,
                n == self.symbols@.len(),
                hashgen@ == symbols_hash(h1, self@.symbols.take(i as int)),
            decreases n - i,
        {
            hashgen.add_string(self.symbols[i].as_str());
            proof {
                assert(self@.symbols.take(i + 1 as int).drop_last() =~= self@.symbols.take(
                    i as int,
                ));
            }
            i = i + 1;
        }
        proof {
            assert(self@.symbols.take(n as int) =~= self@.symbols);
        }
    }
}

// ---------- Field ---------- //

/// Which container a field is attached to. Exactly one owner is ever set,
/// and attachment is irreversible.
#[derive(Debug, Clone, Copy, PartialEq, Eq, Structural)]
pub enum FieldOwner {
    /// Not yet attached to any container.
    Unowned,
    /// Owned by the struct at this arena index.
    InStruct(usize),
    /// Owned by the class at this arena index.
    InClass(usize),
}

/// Abstract value of a [`DCField`].
pub struct FieldModel {
    pub name: Seq<char>,
    pub id: FieldId,
    pub owner: FieldOwner,
    pub dc_type: TypeModel,
    pub default_value_stale: bool,
    pub has_default_value: bool,
    pub default_value: Seq<u8>,
    pub bogus: bool,
}

/// A field model after a default value is stored: the pre-encoded bytes are
/// kept verbatim and the staleness flag is cleared.
pub open spec fn with_default(f: FieldModel, bytes: Seq<u8>) -> FieldModel {
    FieldModel { has_default_value: true, default_value_stale: false, default_value: bytes, ..f }
}

/// A field model after its declared type changes: a default value set
/// earlier stays, byte-for-byte, but is flagged stale — the model never
/// re-encodes it on its own.
pub open spec fn with_type(f: FieldModel, t: TypeModel) -> FieldModel {
    FieldModel {
        dc_type: t,
        default_value_stale: f.default_value_stale || f.has_default_value,
        ..f
    }
}

/// Law: setting a default value and then changing the field's declared type
/// leaves the default present and its raw bytes untouched, but flags it
/// stale for the analyzer to re-encode.
pub proof fn lemma_default_value_staleness(f: FieldModel, bytes: Seq<u8>, t: TypeModel)
    ensures
        with_type(with_default(f, bytes), t).has_default_value,
        with_type(with_default(f, bytes), t).default_value_stale,
        with_type(with_default(f, bytes), t).default_value == bytes,
{
}

/// The hash contribution of one field: its name, its id, then its type.
pub open spec fn field_hash(h: u32, f: FieldModel) -> u32 {
    type_hash(int_hash(str_hash(h, f.name), f.id as i32), f.dc_type)
}

/// A single named, typed, identified unit of state belonging to a struct or
/// a class. Created un-attached and without a default value, mutated by the
/// analyzer while it resolves the declaration, then frozen into the
/// published schema.
pub struct DCField {
    field_name: String,
    field_id: FieldId,
    owner: FieldOwner,
    dc_type: DCTypeDefinition,
    default_value_stale: bool,
    has_default_value: bool,
    default_value: Vec<u8>,
    bogus_field: bool,
}

impl View for DCField {
    type V = FieldModel;

    closed spec fn view(&self) -> FieldModel {
        FieldModel {
            name: self.field_name@,
            id: self.field_id,
            owner: self.owner,
            dc_type: self.dc_type@,
            default_value_stale: self.default_value_stale,
            has_default_value: self.has_default_value,
            default_value: self.default_value@,
            bogus: self.bogus_field,
        }
    }
}

/// Construction and mutation capabilities of a field, as used by the
/// semantic analyzer while it populates a schema.
pub trait DCFieldInterface: Sized {
    /// The abstract value the contracts below speak of.
    spec fn model(&self) -> FieldModel;

    /// A fresh, un-attached field with no default value and an invalid type.
    fn new(name: &str, id: FieldId) -> (r: Self)
        ensures
            r.model().name == name@,
            r.model().id == id,
            r.model().owner == FieldOwner::Unowned,
            r.model().dc_type.data_type == DCTypeEnum::TInvalid,
            r.model().dc_type.alias is None,
            !r.model().has_default_value,
            !r.model().default_value_stale,
            r.model().default_value == Seq::<u8>::empty(),
            !r.model().bogus,
    ;

    /// Accumulates the properties of this DC element into the file hash.
    fn generate_hash(&self, hashgen: &mut DCHashGenerator)
        ensures
            final(hashgen)@ == field_hash(old(hashgen)@, self.model()),
    ;

    /// Replaces the field id; everything else is untouched.
    fn set_field_id(&mut self, id: FieldId)
        ensures
            final(self).model() == (FieldModel { id, ..old(self).model() }),
    ;

    /// Replaces the field name; everything else is untouched.
    fn set_field_name(&mut self, name: String)
        ensures
            final(self).model() == (FieldModel { name: name@, ..old(self).model() }),
    ;

    /// Attaches the field to the struct at the given arena index.
    fn set_parent_struct(&mut self, parent: usize)
        requires
            old(self).model().owner == FieldOwner::Unowned,
        ensures
            final(self).model() == (FieldModel {
                owner: FieldOwner::InStruct(parent),
                ..old(self).model()
            }),
    ;

    /// Attaches the field to the class at the given arena index.
    fn set_parent_dclass(&mut self, parent: usize)
        requires
            old(self).model().owner == FieldOwner::Unowned,
        ensures
            final(self).model() == (FieldModel {
                owner: FieldOwner::InClass(parent),
                ..old(self).model()
            }),
    ;
}

impl DCFieldInterface for DCField {
    open spec fn model(&self) -> FieldModel {
        self@
    }

    fn new(name: &str, id: FieldId) -> (r: Self) {
        DCField {
            field_name: name.to_owned(),
            field_id: id,
            owner: FieldOwner::Unowned,
            dc_type: DCTypeDefinition::new(),
            default_value_stale: false,
            has_default_value: false,
            default_value: Vec::new(),
            bogus_field: false,
        }
    }

    fn generate_hash(&self, hashgen: &mut DCHashGenerator) {
        hashgen.add_string(self.field_name.as_str());
        hashgen.add_int(self.field_id as i32);
        self.dc_type.generate_hash(hashgen);
    }

    fn set_field_id(&mut self, id: FieldId) {
        self.field_id = id;
    }

    fn set_field_name(&mut self, name: String) {
        self.field_name = name;
    }

    fn set_parent_struct(&mut self, parent: usize) {
        self.owner = FieldOwner::InStruct(parent);
    }

    fn set_parent_dclass(&mut self, parent: usize) {
        self.owner = FieldOwner::InClass(parent);
    }
}

impl DCField {
    /// The field's name.
    pub fn get_name(&self) -> (r: String)
        ensures
            r@ == self@.name,
    {
        self.field_name.clone()
    }

    /// The field's numeric id.
    pub fn get_id(&self) -> (r: FieldId)
        ensures
            r == self@.id,
    {
        self.field_id
    }

    /// The field's resolved type.
    pub fn get_field_type(&self) -> (r: &DCTypeDefinition)
        ensures
            r@ == self@.dc_type,
    {
        &self.dc_type
    }

    /// Resolves the field's declared type. A default value stored earlier is
    /// kept byte-for-byte but flagged stale; it is never re-encoded here.
    pub fn set_field_type(&mut self, dc_type: DCTypeDefinition)
        ensures
            final(self)@ == with_type(old(self)@, dc_type@),
    {
        self.dc_type = dc_type;
        if self.has_default_value {
            self.default_value_stale = true;
        }
    }

    /// Stores a default value, pre-encoded as raw wire bytes by the caller.
    pub fn set_default_value(&mut self, bytes: Vec<u8>)
        ensures
            final(self)@ == with_default(old(self)@, bytes@),
    {
        self.default_value = bytes;
        self.has_default_value = true;
        self.default_value_stale = false;
    }

    /// True iff a default value is stored.
    pub fn has_default_value(&self) -> (r: bool)
        ensures
            r == self@.has_default_value,
    {
        self.has_default_value
    }

    /// True iff the stored default value predates the latest type change and
    /// must be re-encoded before use.
    pub fn is_default_value_stale(&self) -> (r: bool)
        ensures
            r == self@.default_value_stale,
    {
        self.default_value_stale
    }

    /// The stored default value, as raw wire bytes.
    pub fn get_default_value(&self) -> (r: &Vec<u8>)
        ensures
            r@ == self@.default_value,
    {
        &self.default_value
    }

    /// Marks the field as the bogus sentinel (never a real schema field).
    pub fn set_bogus(&mut self, bogus: bool)
        ensures
            final(self)@ == (FieldModel { bogus, ..old(self)@ }),
    {
        self.bogus_field = bogus;
    }

    /// True iff the field is the bogus sentinel returned by failed lookups.
    pub fn is_bogus(&self) -> (r: bool)
        ensures
            r == self@.bogus,
    {
        self.bogus_field
    }
}

// ---------- Struct ---------- //

/// Abstract value of a [`DCStruct`].
pub struct StructModel {
    pub name: Seq<char>,
    pub fields: Seq<usize>,
}

/// An ordered field container with no inheritance and no network identity,
/// used for compound value types nested inside fields. Field entries are
/// arena indices into the owning schema's field arena.
pub struct DCStruct {
    struct_name: String,
    fields: Vec<usize>,
}

impl View for DCStruct {
    type V = StructModel;

    closed spec fn view(&self) -> StructModel {
        StructModel { name: self.struct_name@, fields: self.fields@ }
    }
}

/// The hash contribution of a run of fields, each looked up in the arena,
/// in declaration order.
pub open spec fn fields_hash(h: u32, idxs: Seq<usize>, arena: Seq<FieldModel>) -> u32
    decreases idxs.len(),
{
    if idxs.len() == 0 {
        h
    } else {
        field_hash(fields_hash(h, idxs.drop_last(), arena), arena[idxs.last() as int])
    }
}

/// True iff every index of `idxs` points inside the arena.
pub open spec fn idxs_in_arena(idxs: Seq<usize>, arena_len: nat) -> bool {
    forall|i: int| 0 <= i < idxs.len() ==> idxs[i] < arena_len
}

/// The hash contribution of one struct: its name, then its fields in order.
pub open spec fn struct_hash(h: u32, s: StructModel, arena: Seq<FieldModel>) -> u32 {
    fields_hash(str_hash(h, s.name), s.fields, arena)
}

/// The models of an arena of fields.
pub open spec fn field_models(arena: Seq<DCField>) -> Seq<FieldModel> {
    arena.map_values(|f: DCField| f@)
}

impl DCStruct {
    /// A fresh struct with no fields.
    pub fn new(name: &str) -> (r: Self)
        ensures
            r@.name == name@,
            r@.fields == Seq::<usize>::empty(),
    {
        DCStruct { struct_name: name.to_owned(), fields: Vec::new() }
    }

    /// Appends a field, given by its arena index.
    pub fn add_field(&mut self, index: usize)
        ensures
            final(self)@ == (StructModel {
                fields: old(self)@.fields.push(index),
                ..old(self)@
            }),
    {
        self.fields.push(index);
    }

    /// The struct's name.
    pub fn get_name(&self) -> (r: String)
        ensures
            r@ == self@.name,
    {
        self.struct_name.clone()
    }

    /// How many fields the struct owns.
    pub fn get_num_fields(&self) -> (r: usize)
        ensures
            r == self@.fields.len(),
    {
        self.fields.len()
    }

    /// The arena index of the field at the given position, if any.
    pub fn get_field(&self, index: usize) -> (r: Option<usize>)
        ensures
            match r {
                Some(v) => index < self@.fields.len() && v == self@.fields[index as int],
                None => index >= self@.fields.len(),
            },
    {
        if index < self.fields.len() {
            Some(self.fields[index])
        } else {
            None
        }
    }

    /// Accumulates the properties of this DC element into the file hash.
    pub fn generate_hash(&self, arena: &Vec<DCField>, hashgen: &mut DCHashGenerator)
        requires
            idxs_in_arena(self@.fields, arena@.len()),
        ensures
            final(hashgen)@ == struct_hash(old(hashgen)@, self@, field_models(arena@)),
    {
        hashgen.add_string(self.struct_name.as_str());
        let ghost h1: u32 = hashgen@;
        let n: usize = self.fields.len();
        let mut i: usize = 0;
        while i < n
            invariant
                i <= n,
                n == self@.fields.len(),
                idxs_in_arena(self@.fields, arena@.len()),
                hashgen@ == fields_hash(h1, self@.fields.take(i as int), field_models(arena@)),
            decreases n - i,
        {
            let fi: usize = self.fields[i];
            arena[fi].generate_hash(hashgen);
            proof {
                assert(self@.fields.take(i + 1 as int).drop_last() =~= self@.fields.take(i as int));
            }
            i = i + 1;
        }
        proof {
            assert(self@.fields.take(n as int) =~= self@.fields);
        }
    }
}

} // verus!

verus! {

// ---------- Field lookup tables ---------- //

// The two lookup tables of a class are insertion-ordered multi-valued maps
// from an outside crate. Verus sees them only through the named contents
// below and the trusted wrappers that state, over those names, what the
// crate's own source shows: `insert` appends the value to the key's vector
// (creating it when absent), and `get_vec` returns that vector.

#[verifier::external_type_specification]
#[verifier::external_body]
#[verifier::reject_recursive_types(K)]
#[verifier::reject_recursive_types(V)]
#[verifier::reject_recursive_types(S)]
pub struct ExMultiMap<K, V, S>(multimap::MultiMap<K, V, S>);

/// Multi-valued map from field name to arena indices, insertion-ordered
/// within each key.
pub type FieldName2Field = multimap::MultiMap<String, usize>;

/// Multi-valued map from field id to arena indices, insertion-ordered
/// within each key.
pub type FieldIndex2Field = multimap::MultiMap<FieldId, usize>;

/// What the name table holds: for each present key, the values inserted
/// under it, in insertion order.
pub uninterp spec fn name_table_model(m: FieldName2Field) -> Map<Seq<char>, Seq<usize>>;

/// What the id table holds: for each present key, the values inserted under
/// it, in insertion order.
pub uninterp spec fn id_table_model(m: FieldIndex2Field) -> Map<FieldId, Seq<usize>>;

/// Relies on multimap::MultiMap::new: the fresh map holds no keys.
#[verifier::external_body]
fn name_table_new() -> (r: FieldName2Field)
    ensures
        name_table_model(r) == (Map::<Seq<char>, Seq<usize>>::empty()),
{
    multimap::MultiMap::new()
}

/// Relies on multimap::MultiMap::insert: the value is pushed onto the key's
/// vector, which is created with the value alone when the key is absent.
#[verifier::external_body]
fn name_table_insert(m: &mut FieldName2Field, k: &String, v: usize)
    ensures
        name_table_model(*final(m)) == name_table_model(*old(m)).insert(
            k@,
            if name_table_model(*old(m)).contains_key(k@) {
                name_table_model(*old(m))[k@].push(v)
            } else {
                seq![v]
            },
        ),
{
    m.insert(k.clone(), v);
}

/// Relies on multimap::MultiMap::get_vec: the key's vector in insertion
/// order, or nothing when the key is absent.
#[verifier::external_body]
fn name_table_get(m: &FieldName2Field, k: &String) -> (r: Option<Vec<usize>>)
    ensures
        match r {
            Some(v) => name_table_model(*m).contains_key(k@) && v@ == name_table_model(*m)[k@],
            None => !name_table_model(*m).contains_key(k@),
        },
{
    m.get_vec(k).cloned()
}

/// Relies on multimap::MultiMap::new: the fresh map holds no keys.
#[verifier::external_body]
fn id_table_new() -> (r: FieldIndex2Field)
    ensures
        id_table_model(r) == (Map::<FieldId, Seq<usize>>::empty()),
{
    multimap::MultiMap::new()
}

/// Relies on multimap::MultiMap::insert: the value is pushed onto the key's
/// vector, which is created with the value alone when the key is absent.
#[verifier::external_body]
fn id_table_insert(m: &mut FieldIndex2Field, k: FieldId, v: usize)
    ensures
        id_table_model(*final(m)) == id_table_model(*old(m)).insert(
            k,
            if id_table_model(*old(m)).contains_key(k) {
                id_table_model(*old(m))[k].push(v)
            } else {
                seq![v]
            },
        ),
{
    m.insert(k, v);
}

/// Relies on multimap::MultiMap::get_vec: the key's vector in insertion
/// order, or nothing when the key is absent.
#[verifier::external_body]
fn id_table_get(m: &FieldIndex2Field, k: FieldId) -> (r: Option<Vec<usize>>)
    ensures
        match r {
            Some(v) => id_table_model(*m).contains_key(k) && v@ == id_table_model(*m)[k],
            None => !id_table_model(*m).contains_key(k),
        },
{
    m.get_vec(&k).cloned()
}

// ---------- DClass ---------- //

/// One field registration of a class: the field's name, id and arena index,
/// in the order the class learned of it (own fields first, inherited fields
/// after, parent by parent).
pub struct RegEntry {
    pub name: Seq<char>,
    pub id: FieldId,
    pub index: usize,
}

/// The arena indices of the registrations named `k`, in registration order.
pub open spec fn name_matches(reg: Seq<RegEntry>, k: Seq<char>) -> Seq<usize>
    decreases reg.len(),
{
    if reg.len() == 0 {
        Seq::empty()
    } else {
        let prefix = name_matches(reg.drop_last(), k);
        if reg.last().name == k {
            prefix.push(reg.last().index)
        } else {
            prefix
        }
    }
}

/// The arena indices of the registrations with id `id`, in registration
/// order.
pub open spec fn id_matches(reg: Seq<RegEntry>, id: FieldId) -> Seq<usize>
    decreases reg.len(),
{
    if reg.len() == 0 {
        Seq::empty()
    } else {
        let prefix = id_matches(reg.drop_last(), id);
        if reg.last().id == id {
            prefix.push(reg.last().index)
        } else {
            prefix
        }
    }
}

proof fn lemma_name_matches_push(reg: Seq<RegEntry>, e: RegEntry, k: Seq<char>)
    ensures
        name_matches(reg.push(e), k) == if e.name == k {
            name_matches(reg, k).push(e.index)
        } else {
            name_matches(reg, k)
        },
{
    assert(reg.push(e).drop_last() =~= reg);
    assert(reg.push(e).last() == e);
}

proof fn lemma_id_matches_push(reg: Seq<RegEntry>, e: RegEntry, id: FieldId)
    ensures
        id_matches(reg.push(e), id) == if e.id == id {
            id_matches(reg, id).push(e.index)
        } else {
            id_matches(reg, id)
        },
{
    assert(reg.push(e).drop_last() =~= reg);
    assert(reg.push(e).last() == e);
}

/// Law: matches of a concatenated registration sequence are the
/// concatenation of each part's matches, in order. For a class whose
/// registrations run own fields first and then each parent's contribution in
/// parent-declaration order, a name lookup therefore returns the own matches
/// followed by each parent's matches, parent by parent.
pub proof fn lemma_name_matches_concat(a: Seq<RegEntry>, b: Seq<RegEntry>, k: Seq<char>)
    ensures
        name_matches(a + b, k) == name_matches(a, k) + name_matches(b, k),
    decreases b.len(),
{
    if b.len() == 0 {
        assert(a + b =~= a);
        assert(name_matches(a, k) + name_matches(b, k) =~= name_matches(a, k));
    } else {
        lemma_name_matches_concat(a, b.drop_last(), k);
        assert((a + b).drop_last() =~= a + b.drop_last());
        assert((a + b).last() == b.last());
        if b.last().name == k {
            assert((name_matches(a, k) + name_matches(b.drop_last(), k)).push(b.last().index)
                =~= name_matches(a, k) + name_matches(b.drop_last(), k).push(b.last().index));
        }
    }
}

/// Law: multi-inheritance resolution order. For a class whose
/// registrations run its own fields first and then each parent's
/// contribution in parent-declaration order, a name lookup returns the own
/// matches, then the first parent's matches, then the second parent's, in
/// exactly that order — so when two parents both declare a field of one
/// name, the child sees both, parent by parent, and the effective field
/// (the last match) comes from the later parent.
pub proof fn lemma_multi_parent_lookup_order(
    own: Seq<RegEntry>,
    p1: Seq<RegEntry>,
    p2: Seq<RegEntry>,
    k: Seq<char>,
)
    ensures
        name_matches(own + p1 + p2, k) == name_matches(own, k) + name_matches(p1, k)
            + name_matches(p2, k),
{
    lemma_name_matches_concat(own, p1, k);
    lemma_name_matches_concat(own + p1, p2, k);
}

/// Abstract value of a [`DClass`].
pub struct ClassModel {
    pub name: Seq<char>,
    pub class_id: DClassId,
    pub is_struct: bool,
    pub is_bogus: bool,
    pub parents: Seq<usize>,
    pub constructor: Option<usize>,
    pub fields: Seq<usize>,
    pub inherited_fields: Seq<usize>,
    pub reg: Seq<RegEntry>,
    pub name_map: Map<Seq<char>, Seq<usize>>,
    pub id_map: Map<FieldId, Seq<usize>>,
}

/// Well-formedness of a class's lookup tables: each table holds, for every
/// key, exactly the registered matches of that key, in registration order.
pub open spec fn class_tables_wf(c: ClassModel) -> bool {
    &&& forall|k: Seq<char>|
        #[trigger] c.name_map.dom().contains(k) ==> c.name_map[k] == name_matches(c.reg, k)
    &&& forall|k: Seq<char>| #![trigger name_matches(c.reg, k)]
        name_matches(c.reg, k).len() != 0 ==> c.name_map.dom().contains(k)
    &&& forall|id: FieldId|
        #[trigger] c.id_map.dom().contains(id) ==> c.id_map[id] == id_matches(c.reg, id)
    &&& forall|id: FieldId| #![trigger id_matches(c.reg, id)]
        id_matches(c.reg, id).len() != 0 ==> c.id_map.dom().contains(id)
}

/// A class model after one field registration.
pub open spec fn class_register(c: ClassModel, e: RegEntry, inherited: bool) -> ClassModel {
    ClassModel {
        reg: c.reg.push(e),
        fields: if inherited {
            c.fields
        } else {
            c.fields.push(e.index)
        },
        inherited_fields: if inherited {
            c.inherited_fields.push(e.index)
        } else {
            c.inherited_fields
        },
        name_map: c.name_map.insert(e.name, name_matches(c.reg.push(e), e.name)),
        id_map: c.id_map.insert(e.id, id_matches(c.reg.push(e), e.id)),
        ..c
    }
}

/// The hash contribution of a class's parents: each parent's class id, in
/// declaration order.
pub open spec fn parents_hash(h: u32, ps: Seq<usize>, classes: Seq<ClassModel>) -> u32
    decreases ps.len(),
{
    if ps.len() == 0 {
        h
    } else {
        int_hash(
            parents_hash(h, ps.drop_last(), classes),
            classes[ps.last() as int].class_id as i32,
        )
    }
}

/// The hash contribution of one class: its name, its id, its parents'
/// ids in declaration order, then its own fields in declaration order.
pub open spec fn class_hash(h: u32, c: ClassModel, classes: Seq<ClassModel>, arena: Seq<
    FieldModel,
>) -> u32 {
    fields_hash(
        parents_hash(int_hash(str_hash(h, c.name), c.class_id as i32), c.parents, classes),
        c.fields,
        arena,
    )
}

/// The models of an arena of classes.
pub open spec fn class_models(arena: Seq<DClass>) -> Seq<ClassModel> {
    arena.map_values(|c: DClass| c@)
}

/// A named, numerically-identified, field-owning entity that may inherit
/// from one or more parent classes, in declaration order. Parents, the
/// constructor and all fields are arena indices into the owning schema.
pub struct DClass {
    class_name: String,
    class_id: DClassId,
    is_struct: bool,
    is_bogus_class: bool,
    class_parents: Vec<usize>,
    constructor: Option<usize>,
    fields: Vec<usize>,
    inherited_fields: Vec<usize>,
    field_name_2_field: FieldName2Field,
    field_index_2_field: FieldIndex2Field,
    registered: Ghost<Seq<RegEntry>>,
}

impl View for DClass {
    type V = ClassModel;

    closed spec fn view(&self) -> ClassModel {
        ClassModel {
            name: self.class_name@,
            class_id: self.class_id,
            is_struct: self.is_struct,
            is_bogus: self.is_bogus_class,
            parents: self.class_parents@,
            constructor: self.constructor,
            fields: self.fields@,
            inherited_fields: self.inherited_fields@,
            reg: self.registered@,
            name_map: name_table_model(self.field_name_2_field),
            id_map: id_table_model(self.field_index_2_field),
        }
    }
}

/// Construction, mutation and query capabilities of a class, as used by the
/// semantic analyzer and by the daemons' read-only lookups.
pub trait DClassInterface: Sized {
    /// The abstract value the contracts below speak of.
    spec fn model(&self) -> ClassModel;

    /// A fresh root class: no parents, no fields, no constructor, flagged
    /// bogus until the analyzer confirms the declaration is well-formed.
    fn new(name: &str, id: DClassId) -> (r: Self)
        ensures
            r.model().name == name@,
            r.model().class_id == id,
            !r.model().is_struct,
            r.model().is_bogus,
            r.model().parents == Seq::<usize>::empty(),
            r.model().constructor is None,
            r.model().fields == Seq::<usize>::empty(),
            r.model().inherited_fields == Seq::<usize>::empty(),
            r.model().reg == Seq::<RegEntry>::empty(),
            r.model().name_map == (Map::<Seq<char>, Seq<usize>>::empty()),
            r.model().id_map == (Map::<FieldId, Seq<usize>>::empty()),
            class_tables_wf(r.model()),
    ;

    /// Accumulates the properties of this DC element into the file hash.
    fn generate_hash(&self, classes: &Vec<Self>, arena: &Vec<DCField>, hashgen: &mut DCHashGenerator)
        requires
            idxs_in_arena(self.model().fields, arena@.len()),
            idxs_in_arena(self.model().parents, classes@.len()),
        ensures
            final(hashgen)@ == class_hash(
                old(hashgen)@,
                self.model(),
                classes@.map_values(|c: Self| c.model()),
                field_models(arena@),
            ),
    ;

    /// Appends one parent (multi-inheritance is additive, never replacing).
    fn set_parent(&mut self, parent: usize)
        ensures
            final(self).model() == (ClassModel {
                parents: old(self).model().parents.push(parent),
                ..old(self).model()
            }),
    ;

    /// The class's name.
    fn get_name(&self) -> (r: String)
        ensures
            r@ == self.model().name,
    ;

    /// The class's numeric id.
    fn get_class_id(&self) -> (r: DClassId)
        ensures
            r == self.model().class_id,
    ;

    /// How many parents the class has.
    fn get_num_parents(&self) -> (r: usize)
        ensures
            r == self.model().parents.len(),
    ;

    /// The arena index of the parent at the given position, if any.
    fn get_parent(&self, index: usize) -> (r: Option<usize>)
        ensures
            match r {
                Some(p) => index < self.model().parents.len() && p == self.model().parents[
                    index as int
                ],
                None => index >= self.model().parents.len(),
            },
    ;

    /// True iff a constructor field is set.
    fn has_constructor(&self) -> (r: bool)
        ensures
            r == (self.model().constructor is Some),
    ;

    /// The arena index of the constructor field, if one exists.
    fn get_constructor(&self) -> (r: Option<usize>)
        ensures
            r == self.model().constructor,
    ;
}

impl DClassInterface for DClass {
    open spec fn model(&self) -> ClassModel {
        self@
    }

    fn new(name: &str, id: DClassId) -> (r: Self) {
        DClass {
            class_name: name.to_owned(),
            class_id: id,
            is_struct: false,
            is_bogus_class: true,
            class_parents: Vec::new(),
            constructor: None,
            fields: Vec::new(),
            inherited_fields: Vec::new(),
            field_name_2_field: name_table_new(),
            field_index_2_field: id_table_new(),
            registered: Ghost(Seq::empty()),
        }
    }

    #[verifier::rlimit(60)]
    fn generate_hash(
        &self,
        classes: &Vec<DClass>,
        arena: &Vec<DCField>,
        hashgen: &mut DCHashGenerator,
    ) {
        let ghost cms: Seq<ClassModel> = classes@.map_values(|c: DClass| c@);
        hashgen.add_string(self.class_name.as_str());
        hashgen.add_int(self.class_id as i32);
        let ghost h1: u32 = hashgen@;
        let np: usize = self.class_parents.len();
        let mut i: usize = 0;
        while i < np
            invariant
                i <= np,
                np == self@.parents.len(),
                idxs_in_arena(self@.parents, classes@.len()),
                cms == classes@.map_values(|c: DClass| c@),
                hashgen@ == parents_hash(h1, self@.parents.take(i as int), cms),
            decreases np - i,
        {
            let p: usize = self.class_parents[i];
            hashgen.add_int(classes[p].get_class_id() as i32);
            proof {
                assert(cms[p as int] == classes@[p as int]@);
                assert(self@.parents.take(i + 1 as int).drop_last() =~= self@.parents.take(
                    i as int,
                ));
                assert(self@.parents.take(i + 1 as int).last() == self@.parents[i as int]);
            }
            i = i + 1;
        }
        proof {
            assert(self@.parents.take(np as int) =~= self@.parents);
        }
        let ghost h2: u32 = hashgen@;
        let nf: usize = self.fields.len();
        let mut j: usize = 0;
        while j < nf
            invariant
                j <= nf,
                nf == self@.fields.len(),
                idxs_in_arena(self@.fields, arena@.len()),
                hashgen@ == fields_hash(h2, self@.fields.take(j as int), field_models(arena@)),
            decreases nf - j,
        {
            let fi: usize = self.fields[j];
            arena[fi].generate_hash(hashgen);
            proof {
                assert(self@.fields.take(j + 1 as int).drop_last() =~= self@.fields.take(j as int));
            }
            j = j + 1;
        }
        proof {
            assert(self@.fields.take(nf as int) =~= self@.fields);
            assert(classes@.map_values(|c: DClass| c.model()) =~= cms);
        }
    }

    fn set_parent(&mut self, parent: usize) {
        self.class_parents.push(parent);
    }

    fn get_name(&self) -> (r: String) {
        self.class_name.clone()
    }

    fn get_class_id(&self) -> (r: DClassId) {
        self.class_id
    }

    fn get_num_parents(&self) -> (r: usize) {
        self.class_parents.len()
    }

    fn get_parent(&self, index: usize) -> (r: Option<usize>) {
        if index < self.class_parents.len() {
            Some(self.class_parents[index])
        } else {
            None
        }
    }

    fn has_constructor(&self) -> (r: bool) {
        self.constructor.is_some()
    }

    fn get_constructor(&self) -> (r: Option<usize>) {
        self.constructor
    }
}

impl DClass {
    /// Registers one field (own or inherited) under its name and id in the
    /// class's lookup tables, appending it to the matching field list.
    pub fn register_field(&mut self, index: usize, name: &String, id: FieldId, inherited: bool)
        requires
            class_tables_wf(old(self)@),
        ensures
            final(self)@ == class_register(
                old(self)@,
                RegEntry { name: name@, id, index },
                inherited,
            ),
            class_tables_wf(final(self)@),
    {
        let ghost e = RegEntry { name: name@, id, index };
        let ghost old_model = self@;
        if inherited {
            self.inherited_fields.push(index);
        } else {
            self.fields.push(index);
        }
        name_table_insert(&mut self.field_name_2_field, name, index);
        id_table_insert(&mut self.field_index_2_field, id, index);
        proof {
            self.registered@ = self.registered@.push(e);
        }
        proof {
            let reg = old_model.reg;
            assert forall|k: Seq<char>|
                name_matches(reg.push(e), k) == (if e.name == k {
                    name_matches(reg, k).push(e.index)
                } else {
                    name_matches(reg, k)
                }) by {
                lemma_name_matches_push(reg, e, k);
            }
            assert forall|id2: FieldId|
                id_matches(reg.push(e), id2) == (if e.id == id2 {
                    id_matches(reg, id2).push(e.index)
                } else {
                    id_matches(reg, id2)
                }) by {
                lemma_id_matches_push(reg, e, id2);
            }
            if old_model.name_map.contains_key(e.name) {
                assert(old_model.name_map[e.name] == name_matches(reg, e.name));
            } else {
                assert(name_matches(reg, e.name).len() == 0);
                assert(name_matches(reg, e.name) =~= Seq::<usize>::empty());
                assert(seq![e.index] =~= name_matches(reg, e.name).push(e.index));
            }
            if old_model.id_map.contains_key(e.id) {
                assert(old_model.id_map[e.id] == id_matches(reg, e.id));
            } else {
                assert(id_matches(reg, e.id).len() == 0);
                assert(id_matches(reg, e.id) =~= Seq::<usize>::empty());
                assert(seq![e.index] =~= id_matches(reg, e.id).push(e.index));
            }
            assert(self@ =~= class_register(old_model, e, inherited)) by {
                assert(self@.name_map == class_register(old_model, e, inherited).name_map);
                assert(self@.id_map == class_register(old_model, e, inherited).id_map);
            }
        }
    }

    /// Every field registered under the given name, own matches first and
    /// inherited matches after, in registration order. Callers that want the
    /// one effective field take the last match.
    pub fn get_fields_by_name(&self, name: &String) -> (r: Vec<usize>)
        requires
            class_tables_wf(self@),
        ensures
            r@ == name_matches(self@.reg, name@),
    {
        match name_table_get(&self.field_name_2_field, name) {
            Some(v) => {
                proof {
                    assert(self@.name_map.dom().contains(name@));
                    assert(self@.name_map[name@] == name_matches(self@.reg, name@));
                }
                v
            },
            None => {
                proof {
                    assert(!self@.name_map.dom().contains(name@));
                    assert(name_matches(self@.reg, name@) =~= Seq::<usize>::empty());
                }
                Vec::new()
            },
        }
    }

    /// Every field registered under the given id, in registration order.
    pub fn get_fields_by_id(&self, id: FieldId) -> (r: Vec<usize>)
        requires
            class_tables_wf(self@),
        ensures
            r@ == id_matches(self@.reg, id),
    {
        match id_table_get(&self.field_index_2_field, id) {
            Some(v) => {
                proof {
                    assert(self@.id_map.dom().contains(id));
                    assert(self@.id_map[id] == id_matches(self@.reg, id));
                }
                v
            },
            None => {
                proof {
                    assert(!self@.id_map.dom().contains(id));
                    assert(id_matches(self@.reg, id) =~= Seq::<usize>::empty());
                }
                Vec::new()
            },
        }
    }

    /// The one effective field of the given name: the last match, the
    /// nearest and most-overriding declaration. Nothing when the class has
    /// no field of that name.
    pub fn resolve_field_by_name(&self, name: &String) -> (r: Option<usize>)
        requires
            class_tables_wf(self@),
        ensures
            match r {
                Some(idx) => name_matches(self@.reg, name@).len() != 0 && idx == name_matches(
                    self@.reg,
                    name@,
                ).last(),
                None => name_matches(self@.reg, name@).len() == 0,
            },
    {
        let all = self.get_fields_by_name(name);
        if all.len() == 0 {
            None
        } else {
            Some(all[all.len() - 1])
        }
    }

    /// Sets the constructor field of the class.
    pub fn set_constructor(&mut self, index: usize)
        ensures
            final(self)@ == (ClassModel { constructor: Some(index), ..old(self)@ }),
    {
        self.constructor = Some(index);
    }

    /// Flips the bogus flag; the analyzer clears it once the declaration is
    /// confirmed well-formed.
    pub fn set_bogus_class(&mut self, bogus: bool)
        ensures
            final(self)@ == (ClassModel { is_bogus: bogus, ..old(self)@ }),
    {
        self.is_bogus_class = bogus;
    }

    /// True iff the class is still the bogus sentinel.
    pub fn is_bogus_class(&self) -> (r: bool)
        ensures
            r == self@.is_bogus,
    {
        self.is_bogus_class
    }

    /// Marks the class as representing a struct declaration.
    pub fn set_is_struct(&mut self, is_struct: bool)
        ensures
            final(self)@ == (ClassModel { is_struct, ..old(self)@ }),
    {
        self.is_struct = is_struct;
    }

    /// How many fields the class owns directly.
    pub fn get_num_own_fields(&self) -> (r: usize)
        ensures
            r == self@.fields.len(),
    {
        self.fields.len()
    }

    /// The arena index of the own field at the given position, if any.
    pub fn get_own_field(&self, index: usize) -> (r: Option<usize>)
        ensures
            match r {
                Some(v) => index < self@.fields.len() && v == self@.fields[index as int],
                None => index >= self@.fields.len(),
            },
    {
        if index < self.fields.len() {
            Some(self.fields[index])
        } else {
            None
        }
    }

    /// How many fields the class inherits.
    pub fn get_num_inherited_fields(&self) -> (r: usize)
        ensures
            r == self@.inherited_fields.len(),
    {
        self.inherited_fields.len()
    }

    /// The arena index of the inherited field at the given position, if any.
    pub fn get_inherited_field(&self, index: usize) -> (r: Option<usize>)
        ensures
            match r {
                Some(v) => index < self@.inherited_fields.len() && v == self@.inherited_fields[
                    index as int
                ],
                None => index >= self@.inherited_fields.len(),
            },
    {
        if index < self.inherited_fields.len() {
            Some(self.inherited_fields[index])
        } else {
            None
        }
    }
}

} // verus!

verus! {

// ---------- Published schema aggregate ---------- //

/// Abstract content of a schema aggregate: every import, typedef, struct and
/// class, plus the field arena they index into.
pub struct FileModel {
    pub imports: Seq<ImportModel>,
    pub typedefs: Seq<TypeModel>,
    pub structs: Seq<StructModel>,
    pub classes: Seq<ClassModel>,
    pub fields: Seq<FieldModel>,
}

/// The models of a vector of imports.
pub open spec fn import_models(v: Seq<DCPythonImport>) -> Seq<ImportModel> {
    v.map_values(|x: DCPythonImport| x@)
}

/// The models of a vector of type definitions.
pub open spec fn type_models(v: Seq<DCTypeDefinition>) -> Seq<TypeModel> {
    v.map_values(|x: DCTypeDefinition| x@)
}

/// The models of a vector of structs.
pub open spec fn struct_models(v: Seq<DCStruct>) -> Seq<StructModel> {
    v.map_values(|x: DCStruct| x@)
}

/// The hash contribution of all imports, in declaration order.
pub open spec fn imports_hash(h: u32, ims: Seq<ImportModel>) -> u32
    decreases ims.len(),
{
    if ims.len() == 0 {
        h
    } else {
        import_hash(imports_hash(h, ims.drop_last()), ims.last())
    }
}

/// The hash contribution of all typedefs, in declaration order.
pub open spec fn typedefs_hash(h: u32, ts: Seq<TypeModel>) -> u32
    decreases ts.len(),
{
    if ts.len() == 0 {
        h
    } else {
        type_hash(typedefs_hash(h, ts.drop_last()), ts.last())
    }
}

/// The hash contribution of all structs, in declaration order.
pub open spec fn structs_hash(h: u32, ss: Seq<StructModel>, arena: Seq<FieldModel>) -> u32
    decreases ss.len(),
{
    if ss.len() == 0 {
        h
    } else {
        struct_hash(structs_hash(h, ss.drop_last(), arena), ss.last(), arena)
    }
}

/// The hash contribution of a run of classes, in declaration order; parent
/// ids are looked up in `all`.
pub open spec fn classes_hash(
    h: u32,
    cs: Seq<ClassModel>,
    all: Seq<ClassModel>,
    arena: Seq<FieldModel>,
) -> u32
    decreases cs.len(),
{
    if cs.len() == 0 {
        h
    } else {
        class_hash(classes_hash(h, cs.drop_last(), all, arena), cs.last(), all, arena)
    }
}

/// The whole-schema hash: from the seed, imports, then typedefs, then
/// structs, then classes, each element walked as its own hash contribution
/// says. Any divergence in this order is a protocol-breaking bug.
pub open spec fn file_hash(m: FileModel) -> u32 {
    classes_hash(
        structs_hash(
            typedefs_hash(imports_hash(crate::hashgen::HASH_SEED, m.imports), m.typedefs),
            m.structs,
            m.fields,
        ),
        m.classes,
        m.classes,
        m.fields,
    )
}

/// Every arena index stored in a struct or class of the schema points inside
/// the owning arenas.
pub open spec fn file_content_wf(m: FileModel) -> bool {
    &&& forall|i: int|
        0 <= i < m.structs.len() ==> idxs_in_arena((#[trigger] m.structs[i]).fields, m.fields.len())
    &&& forall|i: int|
        0 <= i < m.classes.len() ==> idxs_in_arena((#[trigger] m.classes[i]).fields, m.fields.len())
            && idxs_in_arena(m.classes[i].parents, m.classes.len()) && idxs_in_arena(
            m.classes[i].inherited_fields,
            m.fields.len(),
        ) && class_tables_wf(m.classes[i])
}

/// Abstract value of a published [`DCFile`]: its content and the final
/// accumulated hash.
pub struct PublishedModel {
    pub content: FileModel,
    pub hash: u32,
}

/// Well-formedness of a published schema: valid arena indices, and a hash
/// equal to the whole-schema hash of the content.
pub open spec fn published_wf(m: PublishedModel) -> bool {
    &&& file_content_wf(m.content)
    &&& m.hash == file_hash(m.content)
}

/// Law: the published hash is a pure function of the schema's content. Two
/// published schemas holding the same declarations carry the same hash,
/// whichever process, machine or run compiled them; so two peers that
/// compiled textually identical schemas can prove wire compatibility by
/// comparing hashes.
pub proof fn lemma_hash_determinism(a: PublishedModel, b: PublishedModel)
    requires
        published_wf(a),
        published_wf(b),
        a.content == b.content,
    ensures
        a.hash == b.hash,
{
}

/// The published, immutable schema aggregate: every struct, class and import
/// of a compiled schema, the field arena, and the final accumulated hash.
/// Handed read-only to every daemon for the life of the process; none of the
/// queries below mutate.
pub struct DCFile {
    imports: Vec<DCPythonImport>,
    typedefs: Vec<DCTypeDefinition>,
    structs: Vec<DCStruct>,
    classes: Vec<DClass>,
    fields: Vec<DCField>,
    hash: u32,
}

impl View for DCFile {
    type V = PublishedModel;

    closed spec fn view(&self) -> PublishedModel {
        PublishedModel {
            content: FileModel {
                imports: import_models(self.imports@),
                typedefs: type_models(self.typedefs@),
                structs: struct_models(self.structs@),
                classes: class_models(self.classes@),
                fields: field_models(self.fields@),
            },
            hash: self.hash,
        }
    }
}

impl DCFile {
    /// Assembles a published schema from finished parts and its accumulated
    /// hash; only the intermediate aggregate's finalization calls this.
    pub(crate) fn assemble(
        imports: Vec<DCPythonImport>,
        typedefs: Vec<DCTypeDefinition>,
        structs: Vec<DCStruct>,
        classes: Vec<DClass>,
        fields: Vec<DCField>,
        hash: u32,
    ) -> (r: Self)
        ensures
            r@.content.imports == import_models(imports@),
            r@.content.typedefs == type_models(typedefs@),
            r@.content.structs == struct_models(structs@),
            r@.content.classes == class_models(classes@),
            r@.content.fields == field_models(fields@),
            r@.hash == hash,
    {
        DCFile { imports, typedefs, structs, classes, fields, hash }
    }

    /// The published 32-bit compatibility hash.
    pub fn get_hash(&self) -> (r: u32)
        ensures
            r == self@.hash,
    {
        self.hash
    }

    /// How many python-import declarations the schema holds.
    pub fn get_num_imports(&self) -> (r: usize)
        ensures
            r == self@.content.imports.len(),
    {
        self.imports.len()
    }

    /// The import at the given position, in declaration order.
    pub fn get_python_import(&self, index: usize) -> (r: &DCPythonImport)
        requires
            index < self@.content.imports.len(),
        ensures
            r@ == self@.content.imports[index as int],
    {
        &self.imports[index]
    }

    /// How many typedef declarations the schema holds.
    pub fn get_num_typedefs(&self) -> (r: usize)
        ensures
            r == self@.content.typedefs.len(),
    {
        self.typedefs.len()
    }

    /// The typedef at the given position, in declaration order.
    pub fn get_typedef(&self, index: usize) -> (r: &DCTypeDefinition)
        requires
            index < self@.content.typedefs.len(),
        ensures
            r@ == self@.content.typedefs[index as int],
    {
        &self.typedefs[index]
    }

    /// How many struct declarations the schema holds.
    pub fn get_num_structs(&self) -> (r: usize)
        ensures
            r == self@.content.structs.len(),
    {
        self.structs.len()
    }

    /// The struct at the given arena index.
    pub fn get_struct(&self, index: usize) -> (r: &DCStruct)
        requires
            index < self@.content.structs.len(),
        ensures
            r@ == self@.content.structs[index as int],
    {
        &self.structs[index]
    }

    /// How many classes the schema holds.
    pub fn get_num_dclasses(&self) -> (r: usize)
        ensures
            r == self@.content.classes.len(),
    {
        self.classes.len()
    }

    /// The class at the given arena index.
    pub fn get_dclass(&self, index: usize) -> (r: &DClass)
        requires
            index < self@.content.classes.len(),
        ensures
            r@ == self@.content.classes[index as int],
    {
        &self.classes[index]
    }

    /// The field at the given arena index.
    pub fn get_field(&self, index: usize) -> (r: &DCField)
        requires
            index < self@.content.fields.len(),
        ensures
            r@ == self@.content.fields[index as int],
    {
        &self.fields[index]
    }

    /// The arena index of the first class with the given numeric id, or
    /// nothing when no class carries it.
    pub fn get_dclass_by_id(&self, id: DClassId) -> (r: Option<usize>)
        ensures
            match r {
                Some(i) => i < self@.content.classes.len() && self@.content.classes[
                    i as int
                ].class_id == id && forall|j: int|
                    0 <= j < i ==> (#[trigger] self@.content.classes[j]).class_id != id,
                None => forall|j: int|
                    0 <= j < self@.content.classes.len() ==> (#[trigger] self@.content.classes[
                        j
                    ]).class_id != id,
            },
    {
        let n: usize = self.classes.len();
        let mut i: usize = 0;
        while i < n
            invariant
                i <= n,
                n == self@.content.classes.len(),
                forall|j: int| 0 <= j < i ==> (#[trigger] self@.content.classes[j]).class_id != id,
            decreases n - i,
        {
            if self.classes[i].get_class_id() == id {
                proof {
                    assert(self@.content.classes[i as int] == self.classes@[i as int]@);
                }
                return Some(i);
            }
            proof {
                assert(self@.content.classes[i as int] == self.classes@[i as int]@);
            }
            i = i + 1;
        }
        None
    }

    /// The arena index of the first class with the given name, or nothing
    /// when no class carries it.
    pub fn get_dclass_by_name(&self, name: &str) -> (r: Option<usize>)
        ensures
            match r {
                Some(i) => i < self@.content.classes.len() && self@.content.classes[i as int].name
                    == name@ && forall|j: int|
                    0 <= j < i ==> (#[trigger] self@.content.classes[j]).name != name@,
                None => forall|j: int|
                    0 <= j < self@.content.classes.len() ==> (#[trigger] self@.content.classes[
                        j
                    ]).name != name@,
            },
    {
        let target: String = name.to_owned();
        let n: usize = self.classes.len();
        let mut i: usize = 0;
        while i < n
            invariant
                i <= n,
                n == self@.content.classes.len(),
                target@ == name@,
                forall|j: int| 0 <= j < i ==> (#[trigger] self@.content.classes[j]).name != name@,
            decreases n - i,
        {
            let cname: String = self.classes[i].get_name();
            if cname == target {
                proof {
                    assert(self@.content.classes[i as int] == self.classes@[i as int]@);
                }
                return Some(i);
            }
            proof {
                assert(self@.content.classes[i as int] == self.classes@[i as int]@);
            }
            i = i + 1;
        }
        None
    }
}

} // verus!
