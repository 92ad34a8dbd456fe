use caf_format::{TypeInfo, TypeKind, TypeRegistry};

#[test]
fn registry_names_types_by_their_place() {
    let mut registry = TypeRegistry::new();
    assert_eq!(registry.get(0), None);
    let id = registry.register(TypeInfo::new("u8", TypeKind::Opaque));
    assert_eq!(id, 0);
    let id = registry.register(TypeInfo::new("Vec<u8>", TypeKind::List { item: 0 }));
    assert_eq!(id, 1);
    assert_eq!(registry.get(1), Some(&TypeInfo::new("Vec<u8>", TypeKind::List { item: 0 })));
    assert_eq!(registry.get(2), None);
}

#[test]
fn item_type_is_known_for_lists_and_arrays_only() {
    assert_eq!(TypeInfo::new("a", TypeKind::List { item: 4 }).item_type(), Some(4));
    assert_eq!(TypeInfo::new("a", TypeKind::Array { item: 5 }).item_type(), Some(5));
    for kind in [
        TypeKind::Struct,
        TypeKind::TupleStruct,
        TypeKind::Tuple,
        TypeKind::KeyValueMap,
        TypeKind::ValueSet,
        TypeKind::Enum,
        TypeKind::Opaque,
    ] {
        assert_eq!(TypeInfo::new("a", kind).item_type(), None);
    }
}

#[test]
fn registry_with_a_dangling_item_type_is_not_complete() {
    let mut registry = TypeRegistry::new();
    registry.register(TypeInfo::new("Vec<u8>", TypeKind::List { item: 1 }));
    assert!(!registry.check_complete());
    registry.register(TypeInfo::new("u8", TypeKind::Opaque));
    assert!(registry.check_complete());
    assert!(!registry.check_resolves(&TypeInfo::new("x", TypeKind::Array { item: 2 })));
    assert!(registry.check_resolves(&TypeInfo::new("x", TypeKind::Array { item: 1 })));
    assert!(registry.check_resolves(&TypeInfo::new("x", TypeKind::Enum)));
}

#[test]
fn empty_registry_is_complete() {
    assert!(TypeRegistry::new().check_complete());
}
