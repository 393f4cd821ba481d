//! Tests of the type system, the hash accumulator, the field and class
//! models, and the protocol message ids.

use libdonet::dcfile::{DCField, DCFieldInterface, DClass, DClassInterface};
use libdonet::dctype::{DCNumber, DCNumberType, DCTypeDefinition, DCTypeEnum};
use libdonet::hashgen::DCHashGenerator;
use libdonet::protocol::Protocol;

#[test]
fn hash_starts_at_seed() {
    let hashgen = DCHashGenerator::new();
    assert_eq!(hashgen.get_hash(), 0x811c9dc5);
}

#[test]
fn hash_of_one_int() {
    let mut hashgen = DCHashGenerator::new();
    hashgen.add_int(1);
    assert_eq!(hashgen.get_hash(), 0xfb69b604);
}

#[test]
fn hash_of_negative_int_uses_twos_complement() {
    let mut hashgen = DCHashGenerator::new();
    hashgen.add_int(-1);
    assert_eq!(hashgen.get_hash(), 0xe3160fb1);
}

#[test]
fn hash_of_string_is_length_prefixed() {
    let mut hashgen = DCHashGenerator::new();
    hashgen.add_string("ab");
    assert_eq!(hashgen.get_hash(), 0x3d4f2c14);
}

#[test]
fn hash_is_deterministic_across_runs() {
    let feed = || {
        let mut h = DCHashGenerator::new();
        h.add_int(42);
        h.add_string("Avatar");
        h.add_int(-7);
        h.get_hash()
    };
    assert_eq!(feed(), feed());
}

#[test]
fn type_definition_round_trip() {
    let mut td = DCTypeDefinition::new_with_type(DCTypeEnum::TUInt32);
    assert_eq!(td.get_dc_type(), DCTypeEnum::TUInt32);
    assert!(td.is_variable_length());
    assert_eq!(td.get_size(), 0);
    assert!(!td.has_alias());
    assert_eq!(td.get_alias(), Err(()));

    td.set_size(4);
    assert!(!td.is_variable_length());
    assert_eq!(td.get_size(), 4);

    td.set_alias("ChannelId".to_string());
    assert!(td.has_alias());
    assert_eq!(td.get_alias(), Ok("ChannelId".to_string()));
}

#[test]
fn aliased_typedef_hashes_differently() {
    let td = DCTypeDefinition::new_with_type(DCTypeEnum::TUInt32);
    let mut aliased = DCTypeDefinition::new_with_type(DCTypeEnum::TUInt32);
    aliased.set_alias("ChannelId".to_string());

    let mut h1 = DCHashGenerator::new();
    td.generate_hash(&mut h1);
    let mut h2 = DCHashGenerator::new();
    aliased.generate_hash(&mut h2);
    assert_ne!(h1.get_hash(), h2.get_hash());
    assert_eq!(h2.get_hash(), 0x419f5bd4);
}

#[test]
fn type_keywords_render_lowercase() {
    assert_eq!(DCTypeEnum::TInt8.to_dc_keyword(), "int8");
    assert_eq!(DCTypeEnum::TVarBlob32.to_dc_keyword(), "var blob32");
    assert_eq!(DCTypeEnum::TInvalid.to_dc_keyword(), "invalid");
}

#[test]
fn typedef_renders_as_dc_source() {
    let mut td = DCTypeDefinition::new_with_type(DCTypeEnum::TUInt32);
    td.set_alias("ChannelId".to_string());
    assert_eq!(td.to_dc_string(), "typedef uint32 ChannelId;\n");
}

#[test]
fn number_equality_compares_kind_only() {
    assert_eq!(DCNumber::new_integer(1), DCNumber::new_integer(2));
    assert_eq!(DCNumber::new_unsigned_integer(1), DCNumber::new_unsigned_integer(9));
    assert_ne!(DCNumber::new_integer(1), DCNumber::new_unsigned_integer(1));
    assert_ne!(DCNumber::new(), DCNumber::new_float_bits(0));
    assert_eq!(DCNumber::new().number_type(), DCNumberType::Null);
    assert_eq!(DCNumber::new_integer(5).number_type(), DCNumberType::Int);
    assert_eq!(DCNumber::new_float_bits(7).number_type(), DCNumberType::Float);
}

#[test]
fn field_default_value_staleness() {
    let mut f = DCField::new("hp", 3);
    assert!(!f.has_default_value());

    f.set_field_type(DCTypeDefinition::new_with_type(DCTypeEnum::TUInt32));
    f.set_default_value(vec![1, 2, 3, 4]);
    assert!(f.has_default_value());
    assert!(!f.is_default_value_stale());

    // Changing the declared type keeps the default but flags it stale; the
    // raw bytes are never recomputed.
    f.set_field_type(DCTypeDefinition::new_with_type(DCTypeEnum::TUInt64));
    assert!(f.has_default_value());
    assert!(f.is_default_value_stale());
    assert_eq!(f.get_default_value(), &vec![1, 2, 3, 4]);
}

#[test]
fn field_attachment_and_identity() {
    let mut f = DCField::new("pos", 9);
    assert_eq!(f.get_name(), "pos");
    assert_eq!(f.get_id(), 9);
    f.set_field_name("position".to_string());
    f.set_field_id(10);
    f.set_parent_dclass(0);
    assert_eq!(f.get_name(), "position");
    assert_eq!(f.get_id(), 10);
    assert!(!f.is_bogus());
}

#[test]
fn class_parents_are_ordered_and_additive() {
    let mut c = DClass::new("Child", 4);
    assert_eq!(c.get_name(), "Child");
    assert_eq!(c.get_class_id(), 4);
    assert!(c.is_bogus_class());
    assert_eq!(c.get_num_parents(), 0);
    assert_eq!(c.get_parent(0), None);

    c.set_parent(2);
    c.set_parent(7);
    assert_eq!(c.get_num_parents(), 2);
    assert_eq!(c.get_parent(0), Some(2));
    assert_eq!(c.get_parent(1), Some(7));

    assert!(!c.has_constructor());
    assert_eq!(c.get_constructor(), None);
    c.set_constructor(11);
    assert!(c.has_constructor());
    assert_eq!(c.get_constructor(), Some(11));
}

#[test]
fn class_lookup_tables_keep_every_match_in_order() {
    let mut c = DClass::new("C", 0);
    c.register_field(10, &"x".to_string(), 1, false);
    c.register_field(11, &"y".to_string(), 2, false);
    c.register_field(12, &"x".to_string(), 1, true);

    assert_eq!(c.get_fields_by_name(&"x".to_string()), vec![10, 12]);
    assert_eq!(c.get_fields_by_name(&"y".to_string()), vec![11]);
    assert_eq!(c.get_fields_by_name(&"z".to_string()), Vec::<usize>::new());
    assert_eq!(c.get_fields_by_id(1), vec![10, 12]);
    assert_eq!(c.get_fields_by_id(9), Vec::<usize>::new());

    assert_eq!(c.resolve_field_by_name(&"x".to_string()), Some(12));
    assert_eq!(c.resolve_field_by_name(&"z".to_string()), None);

    assert_eq!(c.get_num_own_fields(), 2);
    assert_eq!(c.get_own_field(0), Some(10));
    assert_eq!(c.get_num_inherited_fields(), 1);
    assert_eq!(c.get_inherited_field(0), Some(12));
}

#[test]
fn protocol_message_ids() {
    assert_eq!(Protocol::ClientHello.value(), 1);
    assert_eq!(Protocol::ClientObjectSetField.value(), 120);
    assert_eq!(Protocol::SSCreateObjectWithRequired.value(), 2000);
    assert_eq!(Protocol::DBCreateObject.value(), 3000);
    assert_eq!(Protocol::MDLogMessage.value(), 9014);
}
