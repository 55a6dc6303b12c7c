use bevy_remote::params::{newtype_field, option_inner, takes_no_params};
use bevy_remote::type_info::{
    Registration, TypeInfo, TypeKind, TypeRegistry, TypeTable, UnnamedField, VariantInfo,
};

fn s(text: &str) -> String {
    text.to_string()
}

fn info(path: &str, kind: TypeKind) -> TypeInfo {
    TypeInfo {
        type_path: s(path),
        docs: None,
        kind,
    }
}

fn option_of(inner_path: &str, inner: usize) -> TypeInfo {
    info(
        &format!("core::option::Option<{inner_path}>"),
        TypeKind::Enum {
            variants: vec![
                VariantInfo::Unit { name: s("None") },
                VariantInfo::Tuple {
                    name: s("Some"),
                    fields: vec![UnnamedField {
                        type_path: s(inner_path),
                        type_info: Some(inner),
                    }],
                },
            ],
        },
    )
}

#[test]
fn option_inner_finds_the_payload() {
    let table = TypeTable {
        types: vec![
            option_of("u8", 1),
            info("u8", TypeKind::Opaque),
            // An enum shaped like an Option, but under another path.
            info(
                "my::Maybe<u8>",
                TypeKind::Enum {
                    variants: vec![VariantInfo::Tuple {
                        name: s("Some"),
                        fields: vec![UnnamedField {
                            type_path: s("u8"),
                            type_info: Some(1),
                        }],
                    }],
                },
            ),
            // The Option path on something that is no enum.
            info("core::option::Option<u8>", TypeKind::Opaque),
        ],
        entity: None,
    };
    assert_eq!(option_inner(&table, 0), Some(1));
    assert_eq!(option_inner(&table, 1), None);
    assert_eq!(option_inner(&table, 2), None);
    assert_eq!(option_inner(&table, 3), None);
}

#[test]
fn takes_no_params_only_for_empty_shapes() {
    let table = TypeTable {
        types: vec![
            info("my::Unit", TypeKind::Struct { fields: vec![] }),
            info("()", TypeKind::Tuple { fields: vec![] }),
            info("my::Empty", TypeKind::TupleStruct { fields: vec![] }),
            info(
                "my::Wrapper",
                TypeKind::TupleStruct {
                    fields: vec![UnnamedField {
                        type_path: s("u8"),
                        type_info: None,
                    }],
                },
            ),
            info("alloc::vec::Vec<u8>", TypeKind::List { item: None }),
            info("my::Never", TypeKind::Enum { variants: vec![] }),
        ],
        entity: None,
    };
    assert!(takes_no_params(&table, 0));
    assert!(takes_no_params(&table, 1));
    assert!(takes_no_params(&table, 2));
    assert!(!takes_no_params(&table, 3));
    assert!(!takes_no_params(&table, 4));
    assert!(!takes_no_params(&table, 5));
}

#[test]
fn newtype_field_is_the_single_unskipped_field() {
    let wrapper = info(
        "my::Wrapper",
        TypeKind::TupleStruct {
            fields: vec![UnnamedField {
                type_path: s("u8"),
                type_info: None,
            }],
        },
    );
    let pair = info(
        "my::Pair",
        TypeKind::TupleStruct {
            fields: vec![
                UnnamedField {
                    type_path: s("u8"),
                    type_info: None,
                },
                UnnamedField {
                    type_path: s("u8"),
                    type_info: None,
                },
            ],
        },
    );
    let table = TypeTable {
        types: vec![wrapper, pair],
        entity: None,
    };
    let empty = TypeRegistry {
        registrations: vec![],
    };
    assert_eq!(newtype_field(&table, 0, &empty).unwrap().type_path, "u8");
    assert!(newtype_field(&table, 1, &empty).is_none());
    let skipping = TypeRegistry {
        registrations: vec![Registration {
            type_id: 0,
            reflect_deserialize: false,
            serialization_data: true,
        }],
    };
    assert!(newtype_field(&table, 0, &skipping).is_none());
}

#[test]
fn registry_lookup_takes_the_first_registration() {
    let registry = TypeRegistry {
        registrations: vec![
            Registration {
                type_id: 4,
                reflect_deserialize: true,
                serialization_data: false,
            },
            Registration {
                type_id: 4,
                reflect_deserialize: false,
                serialization_data: true,
            },
        ],
    };
    assert!(registry.get(4).unwrap().reflect_deserialize);
    assert!(registry.get(3).is_none());
}
