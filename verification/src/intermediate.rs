//! The mutable, intermediate form of a schema aggregate, assembled by the
//! semantic analyzer during compilation and finalized into the published,
//! immutable [`crate::dcfile::DCFile`].

use crate::dcfile::{
    class_hash, class_models, class_tables_wf, classes_hash, field_models, file_content_wf,
    file_hash, idxs_in_arena, import_models, imports_hash, published_wf, struct_models,
    structs_hash, type_models, typedefs_hash, DCField, DCPythonImport, DCStruct, DClass,
    DClassInterface, FileModel,
};
use crate::dctype::DCTypeDefinition;
use crate::hashgen::{DCHashGenerator, HASH_SEED};
use vstd::prelude::*;

verus! {

/// The intermediate schema aggregate. It owns the same content as the
/// published form, stays mutable while the analyzer appends declarations,
/// and is finalized exactly once by [`DCFile::publish`].
pub struct DCFile {
    imports: Vec<DCPythonImport>,
    typedefs: Vec<DCTypeDefinition>,
    structs: Vec<DCStruct>,
    classes: Vec<DClass>,
    fields: Vec<DCField>,
}

impl View for DCFile {
    type V = FileModel;

    closed spec fn view(&self) -> FileModel {
        FileModel {
            imports: import_models(self.imports@),
            typedefs: type_models(self.typedefs@),
            structs: struct_models(self.structs@),
            classes: class_models(self.classes@),
            fields: field_models(self.fields@),
        }
    }
}

impl Default for DCFile {
    /// An empty intermediate aggregate.
    fn default() -> (r: Self)
        ensures
            r@.imports == Seq::<crate::dcfile::ImportModel>::empty(),
            r@.typedefs == Seq::<crate::dctype::TypeModel>::empty(),
            r@.structs == Seq::<crate::dcfile::StructModel>::empty(),
            r@.classes == Seq::<crate::dcfile::ClassModel>::empty(),
            r@.fields == Seq::<crate::dcfile::FieldModel>::empty(),
    {
        let r = DCFile {
            imports: Vec::new(),
            typedefs: Vec::new(),
            structs: Vec::new(),
            classes: Vec::new(),
            fields: Vec::new(),
        };
        proof {
            assert(r@.imports =~= Seq::<crate::dcfile::ImportModel>::empty());
            assert(r@.typedefs =~= Seq::<crate::dctype::TypeModel>::empty());
            assert(r@.structs =~= Seq::<crate::dcfile::StructModel>::empty());
            assert(r@.classes =~= Seq::<crate::dcfile::ClassModel>::empty());
            assert(r@.fields =~= Seq::<crate::dcfile::FieldModel>::empty());
        }
        r
    }
}

impl DCFile {
    /// Appends one python-import declaration, its symbols already expanded.
    pub fn add_python_import(&mut self, import: DCPythonImport)
        ensures
            final(self)@ == (FileModel {
                imports: old(self)@.imports.push(import@),
                ..old(self)@
            }),
    {
        self.imports.push(import);
        proof {
            assert(final(self)@.imports =~= old(self)@.imports.push(import@));
        }
    }

    /// Appends one typedef declaration.
    pub fn add_typedef(&mut self, td: DCTypeDefinition)
        ensures
            final(self)@ == (FileModel {
                typedefs: old(self)@.typedefs.push(td@),
                ..old(self)@
            }),
    {
        let ghost tdm = td@;
        self.typedefs.push(td);
        proof {
            assert(final(self)@.typedefs =~= old(self)@.typedefs.push(tdm));
        }
    }

    /// Appends one field to the arena and hands back its arena index.
    pub fn add_field(&mut self, f: DCField) -> (r: usize)
        ensures
            final(self)@ == (FileModel { fields: old(self)@.fields.push(f@), ..old(self)@ }),
            r == old(self)@.fields.len(),
    {
        let ghost fm = f@;
        let r = self.fields.len();
        self.fields.push(f);
        proof {
            assert(final(self)@.fields =~= old(self)@.fields.push(fm));
        }
        r
    }

    /// Appends one struct and hands back its arena index.
    pub fn add_struct(&mut self, s: DCStruct) -> (r: usize)
        ensures
            final(self)@ == (FileModel { structs: old(self)@.structs.push(s@), ..old(self)@ }),
            r == old(self)@.structs.len(),
    {
        let ghost sm = s@;
        let r = self.structs.len();
        self.structs.push(s);
        proof {
            assert(final(self)@.structs =~= old(self)@.structs.push(sm));
        }
        r
    }

    /// Appends one class and hands back its arena index.
    pub fn add_class(&mut self, c: DClass) -> (r: usize)
        ensures
            final(self)@ == (FileModel { classes: old(self)@.classes.push(c@), ..old(self)@ }),
            r == old(self)@.classes.len(),
    {
        let ghost cm = c@;
        let r = self.classes.len();
        self.classes.push(c);
        proof {
            assert(final(self)@.classes =~= old(self)@.classes.push(cm));
        }
        r
    }

    /// How many imports are gathered so far.
    pub fn get_num_imports(&self) -> (r: usize)
        ensures
            r == self@.imports.len(),
    {
        self.imports.len()
    }

    /// How many typedefs are gathered so far.
    pub fn get_num_typedefs(&self) -> (r: usize)
        ensures
            r == self@.typedefs.len(),
    {
        self.typedefs.len()
    }

    /// The typedef at the given position.
    pub fn get_typedef(&self, index: usize) -> (r: &DCTypeDefinition)
        requires
            index < self@.typedefs.len(),
        ensures
            r@ == self@.typedefs[index as int],
    {
        &self.typedefs[index]
    }

    /// How many structs are gathered so far.
    pub fn get_num_structs(&self) -> (r: usize)
        ensures
            r == self@.structs.len(),
    {
        self.structs.len()
    }

    /// The struct at the given arena index.
    pub fn get_struct(&self, index: usize) -> (r: &DCStruct)
        requires
            index < self@.structs.len(),
        ensures
            r@ == self@.structs[index as int],
    {
        &self.structs[index]
    }

    /// How many classes are gathered so far.
    pub fn get_num_dclasses(&self) -> (r: usize)
        ensures
            r == self@.classes.len(),
    {
        self.classes.len()
    }

    /// The class at the given arena index.
    pub fn get_dclass(&self, index: usize) -> (r: &DClass)
        requires
            index < self@.classes.len(),
        ensures
            r@ == self@.classes[index as int],
    {
        &self.classes[index]
    }

    /// How many fields the arena holds so far.
    pub fn get_num_fields(&self) -> (r: usize)
        ensures
            r == self@.fields.len(),
    {
        self.fields.len()
    }

    /// The field at the given arena index.
    pub fn get_field(&self, index: usize) -> (r: &DCField)
        requires
            index < self@.fields.len(),
        ensures
            r@ == self@.fields[index as int],
    {
        &self.fields[index]
    }

    /// Finalizes the aggregate: walks imports, then typedefs, then structs,
    /// then classes, in strict declaration order, accumulating the
    /// whole-schema hash, and hands the content to the published, immutable
    /// form. No further mutation is possible afterwards.
    #[verifier::rlimit(80)]
    pub fn publish(self) -> (r: crate::dcfile::DCFile)
        requires
            file_content_wf(self@),
        ensures
            r@.content == self@,
            published_wf(r@),
    {
        let ghost m: FileModel = self@;
        let mut hashgen = DCHashGenerator::new();

        let ni: usize = self.imports.len();
        let mut i: usize = 0;
        while i < ni
            invariant
                i <= ni,
                ni == m.imports.len(),
                m.imports == import_models(self.imports@),
                hashgen@ == imports_hash(HASH_SEED, m.imports.take(i as int)),
            decreases ni - i,
        {
            self.imports[i].generate_hash(&mut hashgen);
            proof {
                assert(m.imports[i as int] == self.imports@[i as int]@);
                assert(m.imports.take(i + 1 as int).drop_last() =~= m.imports.take(i as int));
                assert(m.imports.take(i + 1 as int).last() == m.imports[i as int]);
            }
            i = i + 1;
        }
        proof {
            assert(m.imports.take(ni as int) =~= m.imports);
        }

        let ghost h1: u32 = hashgen@;
        let nt: usize = self.typedefs.len();
        let mut j: usize = 0;
        while j < nt
            invariant
                j <= nt,
                nt == m.typedefs.len(),
                m.typedefs == type_models(self.typedefs@),
                hashgen@ == typedefs_hash(h1, m.typedefs.take(j as int)),
            decreases nt - j,
        {
            self.typedefs[j].generate_hash(&mut hashgen);
            proof {
                assert(m.typedefs[j as int] == self.typedefs@[j as int]@);
                assert(m.typedefs.take(j + 1 as int).drop_last() =~= m.typedefs.take(j as int));
                assert(m.typedefs.take(j + 1 as int).last() == m.typedefs[j as int]);
            }
            j = j + 1;
        }
        proof {
            assert(m.typedefs.take(nt as int) =~= m.typedefs);
        }

        let ghost h2: u32 = hashgen@;
        let ns: usize = self.structs.len();
        let mut k: usize = 0;
        while k < ns
            invariant
                k <= ns,
                ns == m.structs.len(),
                m.structs == struct_models(self.structs@),
                m.fields == field_models(self.fields@),
                file_content_wf(m),
                hashgen@ == structs_hash(h2, m.structs.take(k as int), m.fields),
            decreases ns - k,
        {
            proof {
                assert(m.structs[k as int] == self.structs@[k as int]@);
                assert(idxs_in_arena(self.structs@[k as int]@.fields, self.fields@.len()));
            }
            self.structs[k].generate_hash(&self.fields, &mut hashgen);
            proof {
                assert(m.structs.take(k + 1 as int).drop_last() =~= m.structs.take(k as int));
                assert(m.structs.take(k + 1 as int).last() == m.structs[k as int]);
            }
            k = k + 1;
        }
        proof {
            assert(m.structs.take(ns as int) =~= m.structs);
        }

        let ghost h3: u32 = hashgen@;
        let nc: usize = self.classes.len();
        let mut l: usize = 0;
        while l < nc
            invariant
                l <= nc,
                nc == m.classes.len(),
                m.classes == class_models(self.classes@),
                m.fields == field_models(self.fields@),
                file_content_wf(m),
                hashgen@ == classes_hash(h3, m.classes.take(l as int), m.classes, m.fields),
            decreases nc - l,
        {
            proof {
                assert(m.classes[l as int] == self.classes@[l as int]@);
                assert(idxs_in_arena(self.classes@[l as int]@.fields, self.fields@.len()));
                assert(idxs_in_arena(self.classes@[l as int]@.parents, self.classes@.len()));
            }
            let c: &DClass = &self.classes[l];
            c.generate_hash(&self.classes, &self.fields, &mut hashgen);
            proof {
                assert(self.classes@.map_values(|x: DClass| x.model()) =~= class_models(
                    self.classes@,
                ));
                assert(m.classes.take(l + 1 as int).drop_last() =~= m.classes.take(l as int));
                assert(m.classes.take(l + 1 as int).last() == m.classes[l as int]);
            }
            l = l + 1;
        }
        proof {
            assert(m.classes.take(nc as int) =~= m.classes);
            assert(hashgen@ == file_hash(m));
        }

        let hash: u32 = hashgen.get_hash();
        crate::dcfile::DCFile::assemble(
            self.imports,
            self.typedefs,
            self.structs,
            self.classes,
            self.fields,
            hash,
        )
    }
}

} // verus!
