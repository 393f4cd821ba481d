//! Tests of the semantic analyzer: import expansion, id allocation, the
//! error taxonomy, and the end-to-end compilation of a small schema.

use libdonet::dcfile::DClassInterface;
use libdonet::dctype::{DCNumber, DCTypeEnum};
use libdonet::globals::ParseError;
use libdonet::semantics::{
    semantic_analyzer, ClassDecl, FieldDecl, PipelineData, PyImportDecl, StructDecl, SyntaxTree,
    TypeDeclaration, TypedefDecl,
};

fn one_tree(decls: Vec<TypeDeclaration>) -> PipelineData {
    PipelineData { syntax_trees: vec![SyntaxTree { type_declarations: decls }] }
}

fn import(module: &str, symbols: Vec<&str>) -> TypeDeclaration {
    TypeDeclaration::PythonImport(PyImportDecl {
        module: module.to_string(),
        symbols: symbols.iter().map(|s| s.to_string()).collect(),
    })
}

fn field(name: &str, declared_type: &str) -> FieldDecl {
    FieldDecl {
        name: name.to_string(),
        declared_type: declared_type.to_string(),
        explicit_id: None,
        default: None,
    }
}

fn dclass(name: &str, parents: Vec<&str>, fields: Vec<FieldDecl>) -> TypeDeclaration {
    TypeDeclaration::DClassType(ClassDecl {
        name: name.to_string(),
        explicit_id: None,
        parents: parents.iter().map(|s| s.to_string()).collect(),
        fields,
    })
}

#[test]
fn python_imports() {
    let data = one_tree(vec![
        import("views", vec!["*"]),
        import("views", vec!["DistributedDonut"]),
        import("views", vec!["Class/AI/OV"]),
    ]);

    let dcf = semantic_analyzer(data).expect("Failed to parse syntax.");

    let num_imports: usize = dcf.get_num_imports();
    assert_eq!(num_imports, 3);

    let symbols: Vec<Vec<String>> = vec![
        vec!["*".into()],
        vec!["DistributedDonut".into()],
        vec!["Class".into(), "ClassAI".into(), "ClassOV".into()],
    ];

    for index in 0..num_imports - 1 {
        let import = dcf.get_python_import(index);

        assert_eq!(import.module, "views");

        let target_symbols: &Vec<String> = symbols.get(index).unwrap();

        assert_eq!(*target_symbols, import.symbols);
    }
}

#[test]
fn import_expansion_all_forms() {
    let data = one_tree(vec![import("views", vec!["*", "DistributedDonut", "Class/AI/OV"])]);
    let dcf = semantic_analyzer(data).unwrap();
    assert_eq!(dcf.get_num_imports(), 1);
    let imp = dcf.get_python_import(0);
    assert_eq!(imp.module, "views");
    assert_eq!(
        imp.symbols,
        vec!["*", "DistributedDonut", "Class", "ClassAI", "ClassOV"]
            .into_iter()
            .map(String::from)
            .collect::<Vec<String>>()
    );
}

#[test]
fn end_to_end_typedef_and_class() {
    let build = || {
        one_tree(vec![
            TypeDeclaration::TypedefType(TypedefDecl {
                base_type: "uint32".to_string(),
                alias: "ChannelId".to_string(),
            }),
            dclass("Avatar", vec![], vec![field("name", "string"), field("hp", "ChannelId")]),
        ])
    };

    let dcf = semantic_analyzer(build()).unwrap();
    assert_eq!(dcf.get_num_dclasses(), 1);
    let avatar = dcf.get_dclass(0);
    assert_eq!(avatar.get_name(), "Avatar");
    assert_eq!(avatar.get_num_parents(), 0);
    assert_eq!(avatar.get_num_own_fields(), 2);

    let f0 = dcf.get_field(avatar.get_own_field(0).unwrap());
    assert_eq!(f0.get_name(), "name");
    assert_eq!(f0.get_field_type().get_dc_type(), DCTypeEnum::TVarString);
    assert!(f0.get_field_type().is_variable_length());
    assert!(!f0.get_field_type().has_alias());

    let f1 = dcf.get_field(avatar.get_own_field(1).unwrap());
    assert_eq!(f1.get_name(), "hp");
    assert_eq!(f1.get_field_type().get_dc_type(), DCTypeEnum::TUInt32);
    assert_eq!(f1.get_field_type().get_size(), 4);
    assert_eq!(f1.get_field_type().get_alias(), Ok("ChannelId".to_string()));

    // Recompiling the identical text publishes the identical hash.
    let again = semantic_analyzer(build()).unwrap();
    assert_eq!(dcf.get_hash(), again.get_hash());
}

#[test]
fn hash_changes_with_declaration_order() {
    let a = one_tree(vec![
        dclass("A", vec![], vec![field("x", "uint8")]),
        dclass("B", vec![], vec![field("y", "uint8")]),
    ]);
    let b = one_tree(vec![
        dclass("B", vec![], vec![field("y", "uint8")]),
        dclass("A", vec![], vec![field("x", "uint8")]),
    ]);
    let ha = semantic_analyzer(a).unwrap().get_hash();
    let hb = semantic_analyzer(b).unwrap().get_hash();
    assert_ne!(ha, hb);
}

#[test]
fn hash_changes_with_type_alias() {
    let plain = one_tree(vec![dclass("A", vec![], vec![field("x", "uint32")])]);
    let aliased = one_tree(vec![
        TypeDeclaration::TypedefType(TypedefDecl {
            base_type: "uint32".to_string(),
            alias: "ChannelId".to_string(),
        }),
        dclass("A", vec![], vec![field("x", "ChannelId")]),
    ]);
    let h1 = semantic_analyzer(plain).unwrap().get_hash();
    let h2 = semantic_analyzer(aliased).unwrap().get_hash();
    assert_ne!(h1, h2);
}

#[test]
fn auto_ids_strictly_increase() {
    let data = one_tree(vec![
        dclass("A", vec![], vec![field("x", "uint8"), field("y", "uint8")]),
        dclass("B", vec![], vec![field("z", "uint8")]),
    ]);
    let dcf = semantic_analyzer(data).unwrap();
    let a = dcf.get_dclass(0);
    let b = dcf.get_dclass(1);
    assert_eq!(a.get_class_id(), 0);
    assert_eq!(b.get_class_id(), 1);
    assert_eq!(dcf.get_field(a.get_own_field(0).unwrap()).get_id(), 0);
    assert_eq!(dcf.get_field(a.get_own_field(1).unwrap()).get_id(), 1);
    assert_eq!(dcf.get_field(b.get_own_field(0).unwrap()).get_id(), 2);
}

#[test]
fn auto_ids_never_reuse_explicit() {
    // An explicit id moves the allocator past it: the next automatic id is new.
    let data = one_tree(vec![dclass(
        "A",
        vec![],
        vec![
            FieldDecl {
                name: "x".to_string(),
                declared_type: "uint8".to_string(),
                explicit_id: Some(7),
                default: None,
            },
            field("y", "uint8"),
        ],
    )]);
    let dcf = semantic_analyzer(data).unwrap();
    let a = dcf.get_dclass(0);
    assert_eq!(dcf.get_field(a.get_own_field(0).unwrap()).get_id(), 7);
    assert_eq!(dcf.get_field(a.get_own_field(1).unwrap()).get_id(), 8);
}

#[test]
fn duplicate_explicit_field_id_is_error() {
    let data = one_tree(vec![dclass(
        "A",
        vec![],
        vec![
            FieldDecl {
                name: "x".to_string(),
                declared_type: "uint8".to_string(),
                explicit_id: Some(3),
                default: None,
            },
            FieldDecl {
                name: "y".to_string(),
                declared_type: "uint8".to_string(),
                explicit_id: Some(3),
                default: None,
            },
        ],
    )]);
    assert!(matches!(semantic_analyzer(data), Err(ParseError::DuplicateFieldId)));
}

#[test]
fn duplicate_explicit_class_id_is_error() {
    let data = one_tree(vec![
        TypeDeclaration::DClassType(ClassDecl {
            name: "A".to_string(),
            explicit_id: Some(2),
            parents: vec![],
            fields: vec![],
        }),
        TypeDeclaration::DClassType(ClassDecl {
            name: "B".to_string(),
            explicit_id: Some(2),
            parents: vec![],
            fields: vec![],
        }),
    ]);
    assert!(matches!(semantic_analyzer(data), Err(ParseError::DuplicateClassId)));
}

#[test]
fn duplicate_class_name_is_error() {
    let data = one_tree(vec![dclass("A", vec![], vec![]), dclass("A", vec![], vec![])]);
    assert!(matches!(semantic_analyzer(data), Err(ParseError::DuplicateClassName)));
}

#[test]
fn duplicate_struct_name_is_error() {
    let mk = |name: &str| {
        TypeDeclaration::StructType(StructDecl { name: name.to_string(), fields: vec![] })
    };
    let data = one_tree(vec![mk("Point"), mk("Point")]);
    assert!(matches!(semantic_analyzer(data), Err(ParseError::DuplicateStructName)));
}

#[test]
fn duplicate_field_name_is_error() {
    let data = one_tree(vec![dclass(
        "A",
        vec![],
        vec![field("x", "uint8"), field("x", "uint16")],
    )]);
    assert!(matches!(semantic_analyzer(data), Err(ParseError::DuplicateFieldName)));
}

#[test]
fn duplicate_typedef_alias_is_error() {
    let mk = || {
        TypeDeclaration::TypedefType(TypedefDecl {
            base_type: "uint32".to_string(),
            alias: "ChannelId".to_string(),
        })
    };
    let data = one_tree(vec![mk(), mk()]);
    assert!(matches!(semantic_analyzer(data), Err(ParseError::DuplicateTypeAlias)));
}

#[test]
fn forward_parent_reference_is_error() {
    // Parents resolve against earlier declarations only.
    let data = one_tree(vec![
        dclass("Child", vec!["Parent"], vec![]),
        dclass("Parent", vec![], vec![]),
    ]);
    assert!(matches!(semantic_analyzer(data), Err(ParseError::UnresolvedParent)));
}

#[test]
fn unknown_field_type_is_error() {
    let data = one_tree(vec![dclass("A", vec![], vec![field("x", "NoSuchType")])]);
    assert!(matches!(semantic_analyzer(data), Err(ParseError::UnresolvedType)));
}

#[test]
fn malformed_default_value_is_error() {
    // An unsigned literal does not fit a signed 8-bit field slot.
    let data = one_tree(vec![dclass(
        "A",
        vec![],
        vec![FieldDecl {
            name: "x".to_string(),
            declared_type: "int8".to_string(),
            explicit_id: None,
            default: Some(DCNumber::new_unsigned_integer(1)),
        }],
    )]);
    assert!(matches!(semantic_analyzer(data), Err(ParseError::MalformedDefaultValue)));
}

#[test]
fn out_of_range_default_value_is_error() {
    let data = one_tree(vec![dclass(
        "A",
        vec![],
        vec![FieldDecl {
            name: "x".to_string(),
            declared_type: "int8".to_string(),
            explicit_id: None,
            default: Some(DCNumber::new_integer(128)),
        }],
    )]);
    assert!(matches!(semantic_analyzer(data), Err(ParseError::MalformedDefaultValue)));
}

#[test]
fn id_space_exhaustion_is_error() {
    // An explicit id at the top of the 16-bit space spends it: the next
    // automatic allocation has nothing left.
    let data = one_tree(vec![dclass(
        "A",
        vec![],
        vec![
            FieldDecl {
                name: "x".to_string(),
                declared_type: "uint8".to_string(),
                explicit_id: Some(65535),
                default: None,
            },
            field("y", "uint8"),
        ],
    )]);
    assert!(matches!(semantic_analyzer(data), Err(ParseError::IdSpaceExhausted)));
}

#[test]
fn default_value_encoded_little_endian() {
    let data = one_tree(vec![dclass(
        "A",
        vec![],
        vec![FieldDecl {
            name: "hp".to_string(),
            declared_type: "uint32".to_string(),
            explicit_id: None,
            default: Some(DCNumber::new_unsigned_integer(0x01020304)),
        }],
    )]);
    let dcf = semantic_analyzer(data).unwrap();
    let f = dcf.get_field(dcf.get_dclass(0).get_own_field(0).unwrap());
    assert!(f.has_default_value());
    assert!(!f.is_default_value_stale());
    assert_eq!(f.get_default_value(), &vec![0x04u8, 0x03, 0x02, 0x01]);
}

#[test]
fn multi_inheritance_field_resolution() {
    // Both parents declare `x`; the child sees both matches in parent
    // order and the effective field is the last one.
    let data = one_tree(vec![
        dclass("P1", vec![], vec![field("x", "uint8")]),
        dclass("P2", vec![], vec![field("x", "uint16")]),
        dclass("Child", vec!["P1", "P2"], vec![]),
    ]);
    let dcf = semantic_analyzer(data).unwrap();
    let p1 = dcf.get_dclass(0);
    let p2 = dcf.get_dclass(1);
    let child = dcf.get_dclass(2);

    let p1x = p1.get_own_field(0).unwrap();
    let p2x = p2.get_own_field(0).unwrap();

    let matches = child.get_fields_by_name(&"x".to_string());
    assert_eq!(matches, vec![p1x, p2x]);

    let effective = child.resolve_field_by_name(&"x".to_string()).unwrap();
    assert_eq!(effective, p2x);
    assert_eq!(dcf.get_field(effective).get_field_type().get_dc_type(), DCTypeEnum::TUInt16);
}

#[test]
fn inherited_fields_flatten_parent_by_parent() {
    let data = one_tree(vec![
        dclass("G", vec![], vec![field("g", "uint8")]),
        dclass("P", vec!["G"], vec![field("p", "uint8")]),
        dclass("C", vec!["P"], vec![field("c", "uint8")]),
    ]);
    let dcf = semantic_analyzer(data).unwrap();
    let g = dcf.get_dclass(0);
    let p = dcf.get_dclass(1);
    let c = dcf.get_dclass(2);

    let gg = g.get_own_field(0).unwrap();
    let pp = p.get_own_field(0).unwrap();

    assert_eq!(p.get_num_inherited_fields(), 1);
    assert_eq!(p.get_inherited_field(0), Some(gg));

    // C inherits P's contribution: P's inherited fields first, then P's own.
    assert_eq!(c.get_num_inherited_fields(), 2);
    assert_eq!(c.get_inherited_field(0), Some(gg));
    assert_eq!(c.get_inherited_field(1), Some(pp));
}

#[test]
fn constructor_is_field_named_like_class() {
    let data = one_tree(vec![dclass(
        "Avatar",
        vec![],
        vec![field("Avatar", "uint8"), field("hp", "uint16")],
    )]);
    let dcf = semantic_analyzer(data).unwrap();
    let avatar = dcf.get_dclass(0);
    assert!(avatar.has_constructor());
    assert_eq!(avatar.get_constructor(), avatar.get_own_field(0));
    assert!(!avatar.is_bogus_class());
}

#[test]
fn deprecated_grammar_is_dropped() {
    let with_noise = one_tree(vec![
        TypeDeclaration::KeywordType("broadcast".to_string()),
        dclass("A", vec![], vec![field("x", "uint8")]),
        TypeDeclaration::Ignore,
    ]);
    let plain = one_tree(vec![dclass("A", vec![], vec![field("x", "uint8")])]);
    let h1 = semantic_analyzer(with_noise).unwrap().get_hash();
    let h2 = semantic_analyzer(plain).unwrap().get_hash();
    assert_eq!(h1, h2);
}

#[test]
fn class_lookup_by_name_and_id() {
    let data = one_tree(vec![dclass("A", vec![], vec![]), dclass("B", vec![], vec![])]);
    let dcf = semantic_analyzer(data).unwrap();
    assert_eq!(dcf.get_dclass_by_name("B"), Some(1));
    assert_eq!(dcf.get_dclass_by_name("C"), None);
    assert_eq!(dcf.get_dclass_by_id(0), Some(0));
    assert_eq!(dcf.get_dclass_by_id(9), None);
}
