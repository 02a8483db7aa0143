use macro_attr::attrs::DeriveRequest;
use macro_attr::dispatch::{check_request, requirement_of, DeriveError, Requirement, Target};
use macro_attr::enums::{EnumDef, Payload, ShapeError, VariantDef};
use macro_attr::structs::{FieldDef, StructDef, StructKind};

fn request(name: &str) -> DeriveRequest {
    DeriveRequest { name: name.to_string(), args: String::new() }
}

fn variant(name: &str, payload: Payload) -> VariantDef {
    VariantDef { name: name.to_string(), payload, discriminant: None }
}

fn get() -> Target {
    Target::Enum(EnumDef {
        name: "Get".to_string(),
        variants: vec![
            variant("Up", Payload::Unit),
            variant("Down", Payload::Unit),
            variant("AllAround", Payload::Unit),
        ],
    })
}

fn value() -> Target {
    Target::Enum(EnumDef {
        name: "Value".to_string(),
        variants: vec![
            variant("Int", Payload::Tuple(vec!["i64".to_string()])),
            variant("Str", Payload::Tuple(vec!["&'static str".to_string()])),
        ],
    })
}

fn dummy() -> Target {
    Target::Struct(StructDef {
        name: "Dummy".to_string(),
        kind: StructKind::Tuple,
        fields: vec![FieldDef { name: None, ty: "i32".to_string(), is_pub: false }],
    })
}

#[test]
fn requirements_by_name() {
    assert_eq!(requirement_of(&"IterVariants".to_string()), Some(Requirement::UnitOnlyEnum));
    assert_eq!(requirement_of(&"TryFrom".to_string()), Some(Requirement::UnitOnlyEnum));
    assert_eq!(requirement_of(&"EnumFromInner".to_string()), Some(Requirement::SingleFieldEnum));
    assert_eq!(requirement_of(&"EnumTag".to_string()), Some(Requirement::AnyEnum));
    assert_eq!(requirement_of(&"NewtypeAdd".to_string()), Some(Requirement::Newtype));
    assert_eq!(requirement_of(&"NewtypeDisplay".to_string()), Some(Requirement::Newtype));
    assert_eq!(requirement_of(&"StructNew".to_string()), Some(Requirement::AnyStruct));
    assert_eq!(requirement_of(&"Newtyp".to_string()), None);
    assert_eq!(requirement_of(&"Serialize".to_string()), None);
}

#[test]
fn unit_only_derivations_on_enums() {
    assert_eq!(check_request(&request("IterVariants"), &get()), Ok(Requirement::UnitOnlyEnum));
    assert_eq!(check_request(&request("NextVariant"), &get()), Ok(Requirement::UnitOnlyEnum));
    assert_eq!(
        check_request(&request("EnumDisplay"), &value()),
        Err(DeriveError::Shape(ShapeError::NonUnitaryVariant("Int".to_string())))
    );
}

#[test]
fn single_field_derivations_on_enums() {
    assert_eq!(check_request(&request("EnumFromInner"), &value()), Ok(Requirement::SingleFieldEnum));
    assert_eq!(
        check_request(&request("EnumInnerAsTrait"), &get()),
        Err(DeriveError::Shape(ShapeError::NonUnaryVariant("Up".to_string())))
    );
    assert_eq!(check_request(&request("EnumTag"), &get()), Ok(Requirement::AnyEnum));
}

#[test]
fn derivations_on_structs() {
    assert_eq!(check_request(&request("NewtypeAdd"), &dummy()), Ok(Requirement::Newtype));
    assert_eq!(check_request(&request("StructTypeIndex"), &dummy()), Ok(Requirement::AnyStruct));
    assert_eq!(check_request(&request("IterVariants"), &dummy()), Err(DeriveError::WrongItemKind));
    assert_eq!(check_request(&request("NewtypeAdd"), &get()), Err(DeriveError::WrongItemKind));
    let pair = Target::Struct(StructDef {
        name: "Pair".to_string(),
        kind: StructKind::Tuple,
        fields: vec![
            FieldDef { name: None, ty: "i32".to_string(), is_pub: false },
            FieldDef { name: None, ty: "i32".to_string(), is_pub: false },
        ],
    });
    assert_eq!(check_request(&request("NewtypeNeg"), &pair), Err(DeriveError::NotNewtype));
    assert_eq!(check_request(&request("Frobnicate"), &pair), Err(DeriveError::Unknown));
}
