use agentsdk::ir::{
    AnyOfIr, FieldIr, IrType, Name, NewtypeIr, PrimitiveType, StructIr, TypeDefinitionIr, TypeIr, ValidationIr, VariantIr,
};

fn renames() -> Vec<(String, String)> {
    vec![("Old".into(), "New".into()), ("E".into(), "E2".into())]
}

fn names_of(t: &TypeIr) -> String {
    match t {
        TypeIr::Reference(n) => format!("ref {n}"),
        TypeIr::Enum(n) => format!("enum {n}"),
        TypeIr::Array(b) => format!("[{}]", names_of(b)),
        TypeIr::MapOf(b) => format!("{{{}}}", names_of(b)),
        TypeIr::Primitive(p) => format!("{p:?}"),
        TypeIr::Value => "value".into(),
    }
}

#[test]
fn names_keep_their_origin() {
    let mut n = Name::Generated("A".into());
    assert_eq!(n.as_str(), "A");
    assert!(n.is_generated());
    n.set_string("B".into());
    assert_eq!(n.as_str(), "B");
    assert!(n.is_generated());
    assert!(!Name::from_string("C".into()).is_generated());
}

#[test]
fn references_are_renamed_at_every_depth() {
    let mut t = TypeIr::Array(Box::new(TypeIr::MapOf(Box::new(TypeIr::Reference("Old".into())))));
    t.update_reference(&renames());
    assert_eq!(names_of(&t), "[{ref New}]");
    let mut e = TypeIr::Enum("E".into());
    e.update_reference(&renames());
    assert_eq!(names_of(&e), "enum E2");
    let mut k = TypeIr::Reference("Keep".into());
    k.update_reference(&renames());
    assert_eq!(names_of(&k), "ref Keep");
    assert!(TypeIr::Value.can_derive_default());
}

#[test]
fn fields_get_snake_case_names() {
    let f = FieldIr::new("petId", TypeIr::Primitive(PrimitiveType::String), true, vec![], None);
    assert_eq!(f.rust_name, "pet_id");
    assert_eq!(f.serde_rename.as_deref(), Some("petId"));
    let g = FieldIr::new("name", TypeIr::Value, false, vec![], None);
    assert_eq!(g.rust_name, "name");
    assert!(g.serde_rename.is_none());
}

#[test]
fn fields_are_renamed_only_when_the_identifier_differs() {
    let f = FieldIr::from_names("Kind", "kind".into(), TypeIr::Value, true, vec![], None);
    assert_eq!(f.rust_name, "kind");
    assert_eq!(f.serde_rename.as_deref(), Some("Kind"));
    let g = FieldIr::from_names("kind", "kind".into(), TypeIr::Value, true, vec![], None);
    assert!(g.serde_rename.is_none());
}

#[test]
fn struct_definitions_track_derives_and_validation() {
    let mut s = StructIr {
        name: Name::Provided("Pet".into()),
        fields: vec![
            FieldIr::new("id", TypeIr::Reference("Old".into()), true, vec![], None),
            FieldIr::new("n", TypeIr::Value, false, vec![ValidationIr::Length { min: Some(1), max: None }], None),
        ],
        derives: vec!["Debug".into()],
        description: Some("A pet".into()),
        additional_properties_type: None,
    };
    assert!(s.has_validation());
    assert!(!s.is_infallible());
    s.add_derive("Clone".into());
    s.add_derive("Debug".into());
    assert_eq!(s.derives(), &["Debug".to_string(), "Clone".to_string()][..]);
    assert!(s.has_derive("Clone"));
    s.remove_derive("Debug");
    assert_eq!(s.derives(), &["Clone".to_string()][..]);
    assert!(s.should_derive("Default"));
    s.update_references(&renames());
    assert_eq!(names_of(&s.fields[0].type_info), "ref New");
    assert_eq!(s.description(), Some("A pet"));
    let mut d = TypeDefinitionIr::Struct(s);
    d.set_name("Animal".into());
    assert_eq!(IrType::name(&d), "Animal");
    assert!(!IrType::is_generated(&d));
}

#[test]
fn unions_write_their_own_default() {
    let u = AnyOfIr {
        name: Name::Generated("U".into()),
        variants: vec![VariantIr { name: "A".into(), type_info: TypeIr::Reference("Old".into()) }],
        derives: vec![],
        description: None,
    };
    assert!(u.has_custom_default());
    assert!(!u.should_derive_default());
    assert!(!u.should_derive("Default"));
    assert!(!u.should_derive("derive_more::From"));
    assert!(u.should_derive("Clone"));
    let n = NewtypeIr { name: Name::Provided("N".into()), target: TypeIr::Value, derives: vec![], description: None };
    assert!(n.should_derive("Default"));
}

#[test]
fn derives_change_in_place() {
    let mut d = TypeDefinitionIr::Newtype(NewtypeIr {
        name: Name::Provided("Id".into()),
        target: TypeIr::Primitive(PrimitiveType::String),
        derives: vec!["Debug".into()],
        description: None,
    });
    d.derives_mut().push("Hash".into());
    assert!(d.has_derive("Hash"));
    d.derives_mut().retain(|t| t != "Debug");
    assert_eq!(d.derives(), &["Hash".to_string()][..]);
}

#[test]
fn definitions_rename_the_types_they_refer_to() {
    let mut d = TypeDefinitionIr::Newtype(NewtypeIr {
        name: Name::Provided("Wrapper".into()),
        target: TypeIr::Array(Box::new(TypeIr::Reference("Old".into()))),
        derives: vec![],
        description: None,
    });
    d.update_references(&renames());
    match &d {
        TypeDefinitionIr::Newtype(n) => assert_eq!(names_of(&n.target), "[ref New]"),
        _ => panic!("variant changed"),
    }
}
