use bevy_remote::json_value::{JsonObject, JsonValue};
use bevy_remote::params::{method_description, method_params, method_result, Parameter};
use bevy_remote::type_info::{
    NamedField, Registration, TypeInfo, TypeKind, TypeRegistry, TypeTable, UnnamedField,
    VariantInfo,
};

fn s(text: &str) -> String {
    text.to_string()
}

fn named(name: &str, path: &str, ty: Option<usize>) -> NamedField {
    NamedField {
        name: s(name),
        type_path: s(path),
        type_info: ty,
        docs: None,
        has_default: false,
    }
}

fn unnamed(path: &str, ty: Option<usize>) -> UnnamedField {
    UnnamedField {
        type_path: s(path),
        type_info: ty,
    }
}

fn info(path: &str, kind: TypeKind) -> TypeInfo {
    TypeInfo {
        type_path: s(path),
        docs: None,
        kind,
    }
}

fn registered(type_id: usize, reflect_deserialize: bool) -> Registration {
    Registration {
        type_id,
        reflect_deserialize,
        serialization_data: false,
    }
}

/// The types of a params struct like the one below, with `TestParams` first.
///
/// ```ignore
/// /// Very good user-facing description
/// struct TestParams {
///     /// testyboy
///     entity: Entity,
///     components: Vec<String>,
///     #[reflect(default)]
///     default_aint_required: bool,
///     none_aint_required: Option<Entity>,
///     value: Json,
///     selector: Selector,
///     serde_selector: ComponentSelector,
/// }
/// enum Selector { All, Paths(Vec<String>) }
/// ```
fn test_params() -> (TypeTable, TypeRegistry) {
    let mut entity = named("entity", "bevy_ecs::entity::Entity", Some(1));
    entity.docs = Some(s(" testyboy"));
    let mut default_field = named("default_aint_required", "bool", Some(4));
    default_field.has_default = true;
    let mut params = info(
        "bevy_remote::schemas::params::tests::TestParams",
        TypeKind::Struct {
            fields: vec![
                entity,
                named("components", "alloc::vec::Vec<alloc::string::String>", Some(2)),
                default_field,
                named(
                    "none_aint_required",
                    "core::option::Option<bevy_ecs::entity::Entity>",
                    Some(5),
                ),
                named("value", "bevy_remote::json::Json", Some(6)),
                named("selector", "bevy_remote::schemas::params::tests::Selector", Some(7)),
                named(
                    "serde_selector",
                    "bevy_remote::builtin_methods::ComponentSelector",
                    Some(8),
                ),
            ],
        },
    );
    params.docs = Some(s(" Very good user-facing description"));
    let types = vec![
        params,
        info("bevy_ecs::entity::Entity", TypeKind::Opaque),
        info(
            "alloc::vec::Vec<alloc::string::String>",
            TypeKind::List { item: Some(3) },
        ),
        info("alloc::string::String", TypeKind::Opaque),
        info("bool", TypeKind::Opaque),
        info(
            "core::option::Option<bevy_ecs::entity::Entity>",
            TypeKind::Enum {
                variants: vec![
                    VariantInfo::Unit { name: s("None") },
                    VariantInfo::Tuple {
                        name: s("Some"),
                        fields: vec![unnamed("bevy_ecs::entity::Entity", Some(1))],
                    },
                ],
            },
        ),
        info("bevy_remote::json::Json", TypeKind::Opaque),
        info(
            "bevy_remote::schemas::params::tests::Selector",
            TypeKind::Enum {
                variants: vec![
                    VariantInfo::Unit { name: s("All") },
                    VariantInfo::Tuple {
                        name: s("Paths"),
                        fields: vec![unnamed("alloc::vec::Vec<alloc::string::String>", Some(2))],
                    },
                ],
            },
        ),
        info(
            "bevy_remote::builtin_methods::ComponentSelector",
            TypeKind::Enum {
                variants: vec![
                    VariantInfo::Unit { name: s("All") },
                    VariantInfo::Tuple {
                        name: s("Paths"),
                        fields: vec![unnamed("alloc::vec::Vec<alloc::string::String>", Some(2))],
                    },
                ],
            },
        ),
    ];
    let registry = TypeRegistry {
        registrations: vec![
            registered(0, false),
            registered(1, true),
            registered(2, true),
            registered(3, true),
            registered(4, true),
            registered(5, true),
            registered(6, true),
            registered(7, false),
            registered(8, true),
        ],
    };
    (
        TypeTable {
            types,
            entity: Some(1),
        },
        registry,
    )
}

fn params_of(table: &TypeTable, registry: &TypeRegistry, id: usize) -> Vec<Parameter> {
    assert!(table.is_well_formed());
    method_params(table, id, registry)
}

fn param<'a>(params: &'a [Parameter], name: &str) -> &'a Parameter {
    params.iter().find(|param| param.name == name).unwrap()
}

fn object(value: &JsonValue) -> &JsonObject {
    match value {
        JsonValue::Object(object) => object,
        other => panic!("not an object: {:?}", other),
    }
}

fn member<'a>(value: &'a JsonValue, key: &str) -> &'a JsonValue {
    object(value).get(key).unwrap()
}

fn string(value: &JsonValue) -> &str {
    match value {
        JsonValue::String(text) => text.as_str(),
        other => panic!("not a string: {:?}", other),
    }
}

fn array(value: &JsonValue) -> &Vec<JsonValue> {
    match value {
        JsonValue::Array(items) => items,
        other => panic!("not an array: {:?}", other),
    }
}

fn strings(value: &JsonValue) -> Vec<String> {
    array(value).iter().map(|item| string(item).to_string()).collect()
}

fn number(value: &JsonValue) -> &str {
    match value {
        JsonValue::Number(text) => text.as_str(),
        other => panic!("not a number: {:?}", other),
    }
}

fn boolean(value: &JsonValue) -> bool {
    match value {
        JsonValue::Bool(b) => *b,
        other => panic!("not a boolean: {:?}", other),
    }
}

fn keys(value: &JsonValue) -> Vec<String> {
    let mut keys: Vec<String> = object(value)
        .entries()
        .iter()
        .map(|(key, _)| key.clone())
        .collect();
    keys.sort();
    keys
}

#[test]
fn describes_fields() {
    let (table, registry) = test_params();
    let params = params_of(&table, &registry, 0);
    let required: Vec<_> = params
        .iter()
        .map(|param| (param.name.as_str(), param.required))
        .collect();
    assert_eq!(
        required,
        [
            ("entity", true),
            ("components", true),
            ("default_aint_required", false),
            ("none_aint_required", false),
            ("value", true),
            ("selector", true),
            ("serde_selector", true),
        ]
    );
    assert_eq!(
        method_description(&table, 0).as_deref(),
        Some("Very good user-facing description")
    );
    assert_eq!(
        param(&params, "entity").description.as_deref(),
        Some("testyboy")
    );
}

#[test]
fn schemas_follow_the_reflection_format() {
    let (table, registry) = test_params();
    let params = params_of(&table, &registry, 0);
    assert_eq!(string(member(&param(&params, "entity").schema, "type")), "integer");
    assert_eq!(
        strings(member(&param(&params, "none_aint_required").schema, "type")),
        vec![s("integer"), s("null")]
    );
    assert_eq!(
        string(member(
            member(&param(&params, "components").schema, "items"),
            "type"
        )),
        "string"
    );
    assert!(object(&param(&params, "value").schema).get("type").is_none());
    let first = &array(member(&param(&params, "selector").schema, "oneOf"))[0];
    assert_eq!(keys(first), vec![s("const")]);
    assert_eq!(string(member(first, "const")), "All");
    assert!(object(&param(&params, "serde_selector").schema)
        .get("oneOf")
        .is_none());
}

#[test]
fn recursive_types_are_expanded_once() {
    // struct Tree { children: Vec<Tree> }
    let table = TypeTable {
        types: vec![
            info(
                "bevy_remote::schemas::params::tests::Tree",
                TypeKind::Struct {
                    fields: vec![named(
                        "children",
                        "alloc::vec::Vec<bevy_remote::schemas::params::tests::Tree>",
                        Some(1),
                    )],
                },
            ),
            info(
                "alloc::vec::Vec<bevy_remote::schemas::params::tests::Tree>",
                TypeKind::List { item: Some(0) },
            ),
        ],
        entity: None,
    };
    let registry = TypeRegistry {
        registrations: vec![registered(0, false), registered(1, false)],
    };
    let params = params_of(&table, &registry, 0);
    let nested = member(&param(&params, "children").schema, "items");
    assert!(object(nested).get("properties").is_none());
    assert_eq!(
        keys(nested),
        vec![s("typePath")],
        "a type inside itself is named, not described again"
    );
}

#[test]
fn every_described_type_names_its_path() {
    let (table, registry) = test_params();
    let params = params_of(&table, &registry, 0);
    let expected = [
        ("entity", "bevy_ecs::entity::Entity"),
        ("components", "alloc::vec::Vec<alloc::string::String>"),
        ("default_aint_required", "bool"),
        ("value", "bevy_remote::json::Json"),
        ("selector", "bevy_remote::schemas::params::tests::Selector"),
        ("serde_selector", "bevy_remote::builtin_methods::ComponentSelector"),
    ];
    for (name, path) in expected {
        assert_eq!(string(member(&param(&params, name).schema, "typePath")), path);
    }
    // The `Option` is described as its inner type that may be null.
    assert_eq!(
        string(member(&param(&params, "none_aint_required").schema, "typePath")),
        "bevy_ecs::entity::Entity"
    );
}

#[test]
fn entity_is_a_non_negative_integer() {
    let (table, registry) = test_params();
    let params = params_of(&table, &registry, 0);
    let schema = &param(&params, "entity").schema;
    assert_eq!(keys(schema), vec![s("minimum"), s("type"), s("typePath")]);
    assert_eq!(number(member(schema, "minimum")), "0");
}

#[test]
fn serde_types_are_named_only() {
    let (table, registry) = test_params();
    let params = params_of(&table, &registry, 0);
    assert_eq!(
        keys(&param(&params, "serde_selector").schema),
        vec![s("typePath")]
    );
}

#[test]
fn struct_params_describe_their_fields_as_objects() {
    let (table, registry) = test_params();
    let result = method_result(&table, 0, &registry);
    assert_eq!(result.name, "result");
    assert!(result.required);
    assert_eq!(
        result.description.as_deref(),
        Some("Very good user-facing description")
    );
    let schema = &result.schema;
    assert_eq!(string(member(schema, "type")), "object");
    assert!(!boolean(member(schema, "additionalProperties")));
    assert_eq!(
        strings(member(schema, "required")),
        vec![s("entity"), s("components"), s("value"), s("selector"), s("serde_selector")]
    );
    let properties = member(schema, "properties");
    assert_eq!(
        keys(properties),
        vec![
            s("components"),
            s("default_aint_required"),
            s("entity"),
            s("none_aint_required"),
            s("selector"),
            s("serde_selector"),
            s("value"),
        ]
    );
    // Field docs become the field schema's description.
    assert_eq!(
        string(member(member(properties, "entity"), "description")),
        "testyboy"
    );
    assert_eq!(string(member(member(properties, "default_aint_required"), "type")), "boolean");
    // Tuple variants with one field carry that field's schema.
    let selector = member(properties, "selector");
    let paths = &array(member(selector, "oneOf"))[1];
    assert_eq!(strings(member(paths, "required")), vec![s("Paths")]);
    let payload = member(member(paths, "properties"), "Paths");
    assert_eq!(string(member(payload, "type")), "array");
    assert_eq!(string(member(member(payload, "items"), "type")), "string");
}

#[test]
fn non_struct_params_have_no_params() {
    let (table, registry) = test_params();
    assert!(params_of(&table, &registry, 2).is_empty());
    assert!(params_of(&table, &registry, 4).is_empty());
    assert_eq!(method_description(&table, 1), None);
}

fn single(kind: TypeKind, extra: Vec<TypeInfo>) -> TypeTable {
    let mut types = vec![info("my::Type", kind)];
    types.extend(extra);
    TypeTable {
        types,
        entity: None,
    }
}

fn schema_of(table: &TypeTable, registry: &TypeRegistry) -> JsonValue {
    assert!(table.is_well_formed());
    method_result(table, 0, registry).schema
}

fn no_registry() -> TypeRegistry {
    TypeRegistry {
        registrations: Vec::new(),
    }
}

#[test]
fn tuples_are_arrays_of_fixed_positions() {
    let table = single(
        TypeKind::Tuple {
            fields: vec![unnamed("u32", Some(1)), unnamed("my::Unknown", None)],
        },
        vec![info("u32", TypeKind::Opaque)],
    );
    let schema = schema_of(&table, &no_registry());
    assert_eq!(string(member(&schema, "type")), "array");
    assert!(!boolean(member(&schema, "items")));
    let positions = array(member(&schema, "prefixItems"));
    assert_eq!(positions.len(), 2);
    assert_eq!(string(member(&positions[0], "type")), "integer");
    assert!(object(&positions[1]).entries().is_empty());
}

#[test]
fn newtypes_are_described_as_their_field() {
    let table = single(
        TypeKind::TupleStruct {
            fields: vec![unnamed("alloc::string::String", Some(1))],
        },
        vec![info("alloc::string::String", TypeKind::Opaque)],
    );
    let schema = schema_of(&table, &no_registry());
    assert_eq!(keys(&schema), vec![s("type"), s("typePath")]);
    assert_eq!(string(member(&schema, "type")), "string");
    assert_eq!(string(member(&schema, "typePath")), "my::Type");

    // A newtype that skips its field is described as a tuple.
    let registry = TypeRegistry {
        registrations: vec![Registration {
            type_id: 0,
            reflect_deserialize: false,
            serialization_data: true,
        }],
    };
    let schema = schema_of(&table, &registry);
    assert_eq!(string(member(&schema, "type")), "array");
    assert_eq!(array(member(&schema, "prefixItems")).len(), 1);
}

#[test]
fn arrays_have_their_capacity() {
    let table = single(
        TypeKind::Array {
            item: Some(1),
            capacity: 3,
        },
        vec![info("f32", TypeKind::Opaque)],
    );
    let schema = schema_of(&table, &no_registry());
    assert_eq!(string(member(&schema, "type")), "array");
    assert_eq!(number(member(&schema, "minItems")), "3");
    assert_eq!(number(member(&schema, "maxItems")), "3");
    assert_eq!(string(member(member(&schema, "items"), "type")), "number");
}

#[test]
fn sets_and_maps() {
    let set = single(TypeKind::SetType, vec![]);
    let schema = schema_of(&set, &no_registry());
    assert_eq!(string(member(&schema, "type")), "array");
    assert!(boolean(member(&schema, "uniqueItems")));

    let map = single(
        TypeKind::MapType { value: Some(1) },
        vec![info("i64", TypeKind::Opaque)],
    );
    let schema = schema_of(&map, &no_registry());
    assert_eq!(string(member(&schema, "type")), "object");
    assert_eq!(
        string(member(member(&schema, "additionalProperties"), "type")),
        "integer"
    );

    let unknown_values = single(TypeKind::MapType { value: None }, vec![]);
    let schema = schema_of(&unknown_values, &no_registry());
    assert!(object(member(&schema, "additionalProperties")).entries().is_empty());
}

#[test]
fn lists_describe_their_items() {
    let list = single(
        TypeKind::List { item: Some(1) },
        vec![info("bool", TypeKind::Opaque)],
    );
    let schema = schema_of(&list, &no_registry());
    assert_eq!(keys(&schema), vec![s("items"), s("type"), s("typePath")]);
    assert_eq!(string(member(&schema, "type")), "array");
    let items = member(&schema, "items");
    assert_eq!(keys(items), vec![s("type"), s("typePath")]);
    assert_eq!(string(member(items, "typePath")), "bool");
    assert_eq!(string(member(items, "type")), "boolean");
}

#[test]
fn one_field_tuple_structs_take_their_own_path() {
    let meters = single(
        TypeKind::TupleStruct {
            fields: vec![unnamed("u32", Some(1))],
        },
        vec![info("u32", TypeKind::Opaque)],
    );
    let schema = schema_of(&meters, &no_registry());
    assert_eq!(keys(&schema), vec![s("type"), s("typePath")]);
    assert_eq!(string(member(&schema, "typePath")), "my::Type");
    assert_eq!(string(member(&schema, "type")), "integer");
}

#[test]
fn unit_enums_are_string_enumerations() {
    let table = single(
        TypeKind::Enum {
            variants: vec![
                VariantInfo::Unit { name: s("Red") },
                VariantInfo::Unit { name: s("Green") },
            ],
        },
        vec![],
    );
    let schema = schema_of(&table, &no_registry());
    assert_eq!(string(member(&schema, "type")), "string");
    assert_eq!(strings(member(&schema, "enum")), vec![s("Red"), s("Green")]);
}

#[test]
fn struct_and_tuple_variants_are_tagged_objects() {
    let table = single(
        TypeKind::Enum {
            variants: vec![
                VariantInfo::Struct {
                    name: s("Move"),
                    fields: vec![named("x", "u8", Some(1)), named("y", "core::option::Option<u8>", Some(2))],
                },
                VariantInfo::Tuple {
                    name: s("Pair"),
                    fields: vec![unnamed("u8", Some(1)), unnamed("u8", Some(1))],
                },
            ],
        },
        vec![
            info("u8", TypeKind::Opaque),
            info(
                "core::option::Option<u8>",
                TypeKind::Enum {
                    variants: vec![
                        VariantInfo::Unit { name: s("None") },
                        VariantInfo::Tuple {
                            name: s("Some"),
                            fields: vec![unnamed("u8", Some(1))],
                        },
                    ],
                },
            ),
        ],
    );
    let schema = schema_of(&table, &no_registry());
    let variants = array(member(&schema, "oneOf"));
    let moved = &variants[0];
    assert_eq!(string(member(moved, "type")), "object");
    assert_eq!(strings(member(moved, "required")), vec![s("Move")]);
    let body = member(member(moved, "properties"), "Move");
    assert_eq!(strings(member(body, "required")), vec![s("x")]);
    assert_eq!(
        strings(member(member(member(body, "properties"), "y"), "type")),
        vec![s("integer"), s("null")]
    );
    let pair = member(member(&variants[1], "properties"), "Pair");
    assert_eq!(array(member(pair, "prefixItems")).len(), 2);
}

#[test]
fn options_of_enums_accept_null_as_another_variant() {
    let table = TypeTable {
        types: vec![
            info(
                "core::option::Option<my::Shape>",
                TypeKind::Enum {
                    variants: vec![
                        VariantInfo::Unit { name: s("None") },
                        VariantInfo::Tuple {
                            name: s("Some"),
                            fields: vec![unnamed("my::Shape", Some(1))],
                        },
                    ],
                },
            ),
            info(
                "my::Shape",
                TypeKind::Enum {
                    variants: vec![
                        VariantInfo::Unit { name: s("Dot") },
                        VariantInfo::Tuple {
                            name: s("Circle"),
                            fields: vec![unnamed("u8", Some(2))],
                        },
                    ],
                },
            ),
            info("u8", TypeKind::Opaque),
        ],
        entity: None,
    };
    let schema = schema_of(&table, &no_registry());
    let variants = array(member(&schema, "oneOf"));
    assert_eq!(variants.len(), 3);
    assert_eq!(string(member(&variants[2], "type")), "null");
}

#[test]
fn fields_of_unknown_type_are_named_only() {
    let table = single(
        TypeKind::Struct {
            fields: vec![named("dynamic", "my::Dynamic", None)],
        },
        vec![],
    );
    let registry = no_registry();
    let params = params_of(&table, &registry, 0);
    assert_eq!(keys(&params[0].schema), vec![s("typePath")]);
    assert_eq!(string(member(&params[0].schema, "typePath")), "my::Dynamic");
    assert!(params[0].required);
}

#[test]
fn malformed_tables_are_detected() {
    let dangling = single(TypeKind::List { item: Some(5) }, vec![]);
    assert!(!dangling.is_well_formed());
    let bad_entity = TypeTable {
        types: vec![info("bool", TypeKind::Opaque)],
        entity: Some(1),
    };
    assert!(!bad_entity.is_well_formed());
    let self_option = TypeTable {
        types: vec![info(
            "core::option::Option<Self>",
            TypeKind::Enum {
                variants: vec![VariantInfo::Tuple {
                    name: s("Some"),
                    fields: vec![unnamed("core::option::Option<Self>", Some(0))],
                }],
            },
        )],
        entity: None,
    };
    assert!(!self_option.is_well_formed());
    let (table, _) = test_params();
    assert!(table.is_well_formed());
}

#[test]
fn the_entity_must_be_the_opaque_entity_type() {
    let entity = TypeTable {
        types: vec![info("bevy_ecs::entity::Entity", TypeKind::Opaque)],
        entity: Some(0),
    };
    assert!(entity.is_well_formed());
    let not_opaque = TypeTable {
        types: vec![info("bevy_ecs::entity::Entity", TypeKind::List { item: None })],
        entity: Some(0),
    };
    assert!(!not_opaque.is_well_formed());
    let other_path = TypeTable {
        types: vec![info("my::Entity", TypeKind::Opaque)],
        entity: Some(0),
    };
    assert!(!other_path.is_well_formed());
}

#[test]
fn empty_params_types_describe_no_params() {
    let table = single(TypeKind::Struct { fields: vec![] }, vec![]);
    let registry = no_registry();
    assert!(bevy_remote::params::takes_no_params(&table, 0));
    assert!(params_of(&table, &registry, 0).is_empty());
    let schema = schema_of(&table, &registry);
    assert!(array(member(&schema, "required")).is_empty());
    assert!(object(member(&schema, "properties")).entries().is_empty());
}

#[test]
fn result_requires_what_params_require() {
    let (table, registry) = test_params();
    let params = params_of(&table, &registry, 0);
    let required: Vec<String> = params
        .iter()
        .filter(|param| param.required)
        .map(|param| param.name.clone())
        .collect();
    let result = method_result(&table, 0, &registry);
    assert_eq!(strings(member(&result.schema, "required")), required);
}

#[test]
fn inline_schema_flags_options_and_restores_visiting() {
    let (table, registry) = test_params();
    let mut visiting = vec![0usize, 7];
    let (schema, is_option) = bevy_remote::params::inline_schema(5, &table, &registry, &mut visiting);
    assert!(is_option);
    assert_eq!(visiting, vec![0, 7]);
    assert_eq!(strings(member(&schema, "type")), vec![s("integer"), s("null")]);
    let (schema, is_option) = bevy_remote::params::inline_schema(2, &table, &registry, &mut visiting);
    assert!(!is_option);
    assert_eq!(visiting, vec![0, 7]);
    assert_eq!(string(member(member(&schema, "items"), "type")), "string");
    // A type already being described is only named.
    let (schema, _) = bevy_remote::params::inline_schema(7, &table, &registry, &mut visiting);
    assert_eq!(keys(&schema), vec![s("typePath")]);
}
