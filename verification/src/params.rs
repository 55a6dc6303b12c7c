//! `OpenRPC` descriptions of method params types, built from reflection.

use vstd::prelude::*;

use crate::json_value::{models, JsonModel, JsonObject, JsonValue};
use crate::text::{clean_docs_spec, decimal, decimal_string, str_eq};
use crate::type_info::{
    info_refs_ok, lemma_option_depth_bounded, lemma_option_depth_decreases,
    lemma_option_inner_in_range, named_fields_ok, ref_ok, unnamed_fields_ok, variant_ok, NamedField,
    TypeKind, TypeRegistry, TypeTable, UnnamedField, VariantInfo,
};

pub use crate::text::clean_docs;

verus! {

/// How many types of the table are not among `visiting`.
pub open spec fn unvisited(t: TypeTable, visiting: Seq<usize>) -> nat {
    Set::<usize>::range(0, t.types.len()).difference(visiting.to_set()).len()
}

pub proof fn lemma_unvisited_push(t: TypeTable, visiting: Seq<usize>, id: usize)
    requires
        id < t.types@.len(),
        !visiting.contains(id),
    ensures
        unvisited(t, visiting.push(id)) < unvisited(t, visiting),
{
    let range = Set::<usize>::range(0, t.types.len());
    let before = range.difference(visiting.to_set());
    let after = range.difference(visiting.push(id).to_set());
    assert(visiting.push(id)[visiting.len() as int] == id);
    assert forall|x: usize| before.remove(id).contains(x) implies #[trigger] after.contains(x) by {
        if visiting.push(id).contains(x) {
            let j = choose|j: int| 0 <= j < visiting.push(id).len() && visiting.push(id)[j] == x;
            if j < visiting.len() {
                assert(visiting[j] == x);
            }
        }
    }
    assert forall|x: usize| #[trigger] after.contains(x) implies before.remove(id).contains(x) by {
        if visiting.contains(x) {
            let j = choose|j: int| 0 <= j < visiting.len() && visiting[j] == x;
            assert(visiting.push(id)[j] == x);
        }
    }
    assert(after =~= before.remove(id));
    vstd::set_lib::range_set_properties::<usize>(0, t.types.len());
    assert(range.contains(id));
    assert(!visiting.to_set().contains(id));
    assert(before.contains(id));
}

/// An object holding just the type path.
pub open spec fn path_object(path: Seq<char>) -> Map<Seq<char>, JsonModel> {
    Map::empty().insert("typePath"@, JsonModel::Str(path))
}

/// The JSON type of a primitive, by its type path.
pub open spec fn opaque_json_type(path: Seq<char>) -> Option<Seq<char>> {
    if path == "bool"@ {
        Some("boolean"@)
    } else if path == "u8"@ || path == "u16"@ || path == "u32"@ || path == "u64"@ || path
        == "u128"@ || path == "usize"@ || path == "i8"@ || path == "i16"@ || path == "i32"@
        || path == "i64"@ || path == "i128"@ || path == "isize"@ {
        Some("integer"@)
    } else if path == "f32"@ || path == "f64"@ {
        Some("number"@)
    } else if path == "char"@ || path == "str"@ || path == "alloc::string::String"@ {
        Some("string"@)
    } else {
        None
    }
}

/// `schema` with a nullable type: a `type` string becomes `[type, "null"]`,
/// else a `oneOf` list gains `{"type": "null"}`.
pub open spec fn nullable_spec(schema: JsonModel) -> JsonModel {
    match schema {
        JsonModel::Object(m) => if m.contains_key("type"@) && m["type"@] is Str {
            JsonModel::Object(
                m.insert("type"@, JsonModel::Array(seq![m["type"@], JsonModel::Str("null"@)])),
            )
        } else if m.contains_key("oneOf"@) && m["oneOf"@] is Array {
            JsonModel::Object(
                m.insert(
                    "oneOf"@,
                    JsonModel::Array(
                        m["oneOf"@]->Array_0.push(
                            JsonModel::Object(Map::empty().insert("type"@, JsonModel::Str("null"@))),
                        ),
                    ),
                ),
            )
        } else {
            schema
        },
        _ => schema,
    }
}

/// A field's schema with the field's docs as its description.
pub open spec fn described(schema: JsonModel, docs: Option<String>, with_docs: bool) -> JsonModel {
    match (docs, schema) {
        (Some(d), JsonModel::Object(m)) => if with_docs {
            JsonModel::Object(m.insert("description"@, JsonModel::Str(clean_docs_spec(d@))))
        } else {
            schema
        },
        _ => schema,
    }
}

/// The `properties` of an object schema: each field's schema under its name.
pub open spec fn properties_spec(
    fields: Seq<NamedField>,
    results: Seq<(JsonModel, bool)>,
    with_docs: bool,
) -> Map<Seq<char>, JsonModel>
    decreases fields.len(),
{
    if fields.len() == 0 {
        Map::empty()
    } else {
        let k = fields.len() - 1;
        properties_spec(fields.drop_last(), results, with_docs).insert(
            fields[k].name@,
            described(results[k].0, fields[k].docs, with_docs),
        )
    }
}

/// A field may be left out when its type is an `Option` or it has a default.
pub open spec fn field_required(field: NamedField, is_option: bool) -> bool {
    !is_option && !field.has_default
}

/// The `required` list of an object schema: the names of the fields that may not be left out.
pub open spec fn required_spec(fields: Seq<NamedField>, results: Seq<(JsonModel, bool)>) -> Seq<
    JsonModel,
>
    decreases fields.len(),
{
    if fields.len() == 0 {
        Seq::empty()
    } else {
        let k = fields.len() - 1;
        let rest = required_spec(fields.drop_last(), results);
        if field_required(fields[k], results[k].1) {
            rest.push(JsonModel::Str(fields[k].name@))
        } else {
            rest
        }
    }
}

/// An object schema with the given properties, none other allowed.
pub open spec fn object_schema(
    base: Map<Seq<char>, JsonModel>,
    properties: Map<Seq<char>, JsonModel>,
    required: Seq<JsonModel>,
) -> Map<Seq<char>, JsonModel> {
    base.insert("type"@, JsonModel::Str("object"@)).insert(
        "properties"@,
        JsonModel::Object(properties),
    ).insert("required"@, JsonModel::Array(required)).insert(
        "additionalProperties"@,
        JsonModel::Bool(false),
    )
}

/// The schema of an enum variant with a payload: an object with one member, named after it.
pub open spec fn variant_object_spec(name: Seq<char>, payload: JsonModel) -> JsonModel {
    JsonModel::Object(
        object_schema(Map::empty(), Map::empty().insert(name, payload), seq![JsonModel::Str(name)]),
    )
}

/// The schema of a type, and whether the type is an `Option`, while the types
/// in `visiting` are being described further out.
pub open spec fn inline_schema_spec(
    t: TypeTable,
    reg: TypeRegistry,
    id: usize,
    visiting: Seq<usize>,
) -> (JsonModel, bool)
    decreases unvisited(t, visiting), t.option_depth(id, t.len_spec()), 1nat,
    when t.wf() && id < t.len_spec()
{
    match t.option_inner_spec(id) {
        Some(inner) => {
            proof {
                lemma_option_depth_decreases(t, id, inner);
            }
            (nullable_spec(inline_schema_spec(t, reg, inner, visiting).0), true)
        },
        None => (type_schema_spec(t, reg, id, visiting), false),
    }
}

/// The schema of a type that is no `Option`.
pub open spec fn type_schema_spec(
    t: TypeTable,
    reg: TypeRegistry,
    id: usize,
    visiting: Seq<usize>,
) -> JsonModel
    decreases unvisited(t, visiting), t.option_depth(id, t.len_spec()), 0nat,
    when t.wf() && id < t.len_spec()
{
    let info = t.info(id);
    let path = info.type_path@;
    let base = path_object(path);
    if t.entity == Some(id) {
        JsonModel::Object(
            base.insert("type"@, JsonModel::Str("integer"@)).insert(
                "minimum"@,
                JsonModel::Number(decimal(0)),
            ),
        )
    } else if reg.deserializes_through_serde(id) && (info.kind is Struct || info.kind is TupleStruct
        || info.kind is Enum) {
        JsonModel::Object(base)
    } else if visiting.contains(id) {
        JsonModel::Object(base)
    } else {
        proof {
            lemma_unvisited_push(t, visiting, id);
        }
        expanded_schema(t, reg, id, visiting.push(id))
    }
}

/// The schema of a type that is described, not only named, while the types
/// in `expanding` are being described: every schema nested in it is taken
/// with `expanding` as its visiting types, so a type of `expanding` met
/// again is only named.
pub open spec fn expanded_schema(
    t: TypeTable,
    reg: TypeRegistry,
    id: usize,
    expanding: Seq<usize>,
) -> JsonModel
    decreases unvisited(t, expanding), t.len_spec() + 7, 0nat,
    when t.wf() && id < t.len_spec()
{
    let info = t.info(id);
    let path = info.type_path@;
    let base = path_object(path);
    match t.newtype_field_spec(reg, id) {
        Some(field) => match unnamed_field_schema_spec(t, reg, field, expanding) {
            JsonModel::Object(inner) => JsonModel::Object(
                base.union_prefer_right(inner).insert("typePath"@, JsonModel::Str(path)),
            ),
            _ => JsonModel::Object(base),
        },
        None => JsonModel::Object(
            match info.kind {
                TypeKind::Struct { fields } => {
                    let results = field_results(t, reg, fields@, expanding);
                    object_schema(
                        base,
                        properties_spec(fields@, results, true),
                        required_spec(fields@, results),
                    )
                },
                TypeKind::TupleStruct { fields } => base.union_prefer_right(
                    tuple_schema_spec(t, reg, fields@, expanding),
                ),
                TypeKind::Tuple { fields } => base.union_prefer_right(
                    tuple_schema_spec(t, reg, fields@, expanding),
                ),
                TypeKind::List { item } => base.insert(
                    "type"@,
                    JsonModel::Str("array"@),
                ).insert("items"@, optional_info_schema_spec(t, reg, item, expanding)),
                TypeKind::Array { item, capacity } => base.insert(
                    "type"@,
                    JsonModel::Str("array"@),
                ).insert("items"@, optional_info_schema_spec(t, reg, item, expanding)).insert(
                    "minItems"@,
                    JsonModel::Number(decimal(capacity as nat)),
                ).insert("maxItems"@, JsonModel::Number(decimal(capacity as nat))),
                TypeKind::SetType => base.insert("type"@, JsonModel::Str("array"@)).insert(
                    "uniqueItems"@,
                    JsonModel::Bool(true),
                ),
                TypeKind::MapType { value } => base.insert(
                    "type"@,
                    JsonModel::Str("object"@),
                ).insert("additionalProperties"@, optional_info_schema_spec(t, reg, value, expanding)),
                TypeKind::Enum { variants } => if forall|i: int|
                    0 <= i < variants@.len() ==> #[trigger] variants@[i] is Unit {
                    base.insert("type"@, JsonModel::Str("string"@)).insert(
                        "enum"@,
                        JsonModel::Array(variant_names(variants@)),
                    )
                } else {
                    base.insert("oneOf"@, JsonModel::Array(variant_schemas_spec(t, reg, variants@, expanding)))
                },
                TypeKind::Opaque => match opaque_json_type(path) {
                    Some(ty) => base.insert("type"@, JsonModel::Str(ty)),
                    None => base,
                },
            },
        ),
    }
}

/// The schema of a named field, and whether its type is an `Option`.
pub open spec fn field_schema_spec(
    t: TypeTable,
    reg: TypeRegistry,
    field: NamedField,
    visiting: Seq<usize>,
) -> (JsonModel, bool)
    decreases unvisited(t, visiting), t.len_spec() + 1, 0nat,
    when t.wf() && ref_ok(field.type_info, t.len_spec())
{
    match field.type_info {
        Some(id) => {
            proof {
                lemma_option_depth_bounded(t, id, t.len_spec());
            }
            inline_schema_spec(t, reg, id, visiting)
        },
        None => (JsonModel::Object(path_object(field.type_path@)), false),
    }
}

/// The schema of a type that reflection may not know; `{}` when it doesn't.
pub open spec fn optional_info_schema_spec(
    t: TypeTable,
    reg: TypeRegistry,
    info: Option<usize>,
    visiting: Seq<usize>,
) -> JsonModel
    decreases unvisited(t, visiting), t.len_spec() + 1, 0nat,
    when t.wf() && ref_ok(info, t.len_spec())
{
    match info {
        Some(id) => {
            proof {
                lemma_option_depth_bounded(t, id, t.len_spec());
            }
            inline_schema_spec(t, reg, id, visiting).0
        },
        None => JsonModel::Object(Map::empty()),
    }
}

/// The schema of an unnamed field.
pub open spec fn unnamed_field_schema_spec(
    t: TypeTable,
    reg: TypeRegistry,
    field: UnnamedField,
    visiting: Seq<usize>,
) -> JsonModel
    decreases unvisited(t, visiting), t.len_spec() + 2, 0nat,
    when t.wf() && ref_ok(field.type_info, t.len_spec())
{
    optional_info_schema_spec(t, reg, field.type_info, visiting)
}

/// The schema of a tuple: an array with one schema per position, and no more items.
pub open spec fn tuple_schema_spec(
    t: TypeTable,
    reg: TypeRegistry,
    fields: Seq<UnnamedField>,
    visiting: Seq<usize>,
) -> Map<Seq<char>, JsonModel>
    decreases unvisited(t, visiting), t.len_spec() + 4, 0nat,
    when t.wf() && unnamed_fields_ok(fields, t.len_spec())
{
    Map::empty().insert("type"@, JsonModel::Str("array"@)).insert(
        "prefixItems"@,
        JsonModel::Array(tuple_items_spec(t, reg, fields, visiting)),
    ).insert("items"@, JsonModel::Bool(false))
}

/// The schema of each position of a tuple.
pub open spec fn tuple_items_spec(
    t: TypeTable,
    reg: TypeRegistry,
    fields: Seq<UnnamedField>,
    visiting: Seq<usize>,
) -> Seq<JsonModel>
    decreases unvisited(t, visiting), t.len_spec() + 3, 0nat,
    when t.wf() && unnamed_fields_ok(fields, t.len_spec())
{
    Seq::new(fields.len(), |i: int| unnamed_field_schema_spec(t, reg, fields[i], visiting))
}

/// The schema of each field of a struct, and whether its type is an `Option`.
pub open spec fn field_results(
    t: TypeTable,
    reg: TypeRegistry,
    fields: Seq<NamedField>,
    visiting: Seq<usize>,
) -> Seq<(JsonModel, bool)>
    decreases unvisited(t, visiting), t.len_spec() + 2, 0nat,
    when t.wf() && named_fields_ok(fields, t.len_spec())
{
    Seq::new(fields.len(), |i: int| field_schema_spec(t, reg, fields[i], visiting))
}

/// The schema of each variant of an enum that is not all unit variants.
pub open spec fn variant_schemas_spec(
    t: TypeTable,
    reg: TypeRegistry,
    variants: Seq<VariantInfo>,
    visiting: Seq<usize>,
) -> Seq<JsonModel>
    decreases unvisited(t, visiting), t.len_spec() + 6, 0nat,
    when t.wf() && forall|i: int| 0 <= i < variants.len() ==> variant_ok(#[trigger] variants[i], t.len_spec())
{
    Seq::new(variants.len(), |i: int| variant_schema_spec(t, reg, variants[i], visiting))
}

/// The names of the variants, as JSON strings.
pub open spec fn variant_names(variants: Seq<VariantInfo>) -> Seq<JsonModel> {
    Seq::new(variants.len(), |i: int| JsonModel::Str(variants[i].name_spec()))
}

/// The schema of one variant of an enum that is not all unit variants.
pub open spec fn variant_schema_spec(
    t: TypeTable,
    reg: TypeRegistry,
    variant: VariantInfo,
    visiting: Seq<usize>,
) -> JsonModel
    decreases unvisited(t, visiting), t.len_spec() + 5, 0nat,
    when t.wf() && variant_ok(variant, t.len_spec())
{
    match variant {
        VariantInfo::Unit { name } => JsonModel::Object(
            Map::empty().insert("const"@, JsonModel::Str(name@)),
        ),
        VariantInfo::Tuple { name, fields } => variant_object_spec(
            name@,
            if fields@.len() == 1 {
                unnamed_field_schema_spec(t, reg, fields@[0], visiting)
            } else {
                JsonModel::Object(tuple_schema_spec(t, reg, fields@, visiting))
            },
        ),
        VariantInfo::Struct { name, fields } => {
            let results = field_results(t, reg, fields@, visiting);
            variant_object_spec(
                name@,
                JsonModel::Object(
                    object_schema(
                        Map::empty(),
                        properties_spec(fields@, results, false),
                        required_spec(fields@, results),
                    ),
                ),
            )
        },
    }
}

} // verus!

verus! {

proof fn lemma_models_push(items: Seq<JsonValue>, x: JsonValue)
    ensures
        models(items.push(x)) == models(items).push(x.model()),
{
    assert(items.push(x).drop_last() =~= items);
}

/// Whether `id` is among `visiting`.
fn contains(visiting: &Vec<usize>, id: usize) -> (r: bool)
    ensures
        r == visiting@.contains(id),
{
    let mut i: usize = 0;
    while i < visiting.len()
        invariant
            i <= visiting@.len(),
            forall|j: int| 0 <= j < i ==> visiting@[j] != id,
        decreases visiting@.len() - i,
    {
        if visiting[i] == id {
            assert(visiting@[i as int] == id);
            return true;
        }
        i += 1;
    }
    false
}

/// An object holding just `path` as the type path.
fn path_object_of(path: &String) -> (r: JsonObject)
    ensures
        r@ == path_object(path@),
{
    let mut o = JsonObject::new();
    o.insert("typePath".to_owned(), JsonValue::String(path.clone()));
    o
}

/// The JSON type of a primitive, by its type path.
fn opaque_json_type_of(path: &str) -> (r: Option<&'static str>)
    ensures
        match r {
            Some(ty) => opaque_json_type(path@) == Some(ty@),
            None => opaque_json_type(path@) == None::<Seq<char>>,
        },
{
    if str_eq(path, "bool") {
        Some("boolean")
    } else if str_eq(path, "u8") || str_eq(path, "u16") || str_eq(path, "u32") || str_eq(path, "u64")
        || str_eq(path, "u128") || str_eq(path, "usize") || str_eq(path, "i8") || str_eq(path, "i16")
        || str_eq(path, "i32") || str_eq(path, "i64") || str_eq(path, "i128") || str_eq(
        path,
        "isize",
    ) {
        Some("integer")
    } else if str_eq(path, "f32") || str_eq(path, "f64") {
        Some("number")
    } else if str_eq(path, "char") || str_eq(path, "str") || str_eq(path, "alloc::string::String") {
        Some("string")
    } else {
        None
    }
}

/// Makes a schema accept `null` as well.
pub fn nullable(schema: JsonValue) -> (r: JsonValue)
    ensures
        r.model() == nullable_spec(schema.model()),
{
    match schema {
        JsonValue::Object(mut schema) => {
            let ghost m = schema@;
            let ty = match schema.get("type") {
                Some(JsonValue::String(ty)) => Some(ty.clone()),
                _ => None,
            };
            match ty {
                Some(ty) => {
                    let mut pair: Vec<JsonValue> = Vec::new();
                    pair.push(JsonValue::String(ty));
                    pair.push(JsonValue::String("null".to_owned()));
                    proof {
                        lemma_models_push(Seq::empty(), pair@[0]);
                        assert(seq![pair@[0]] =~= Seq::<JsonValue>::empty().push(pair@[0]));
                        lemma_models_push(seq![pair@[0]], pair@[1]);
                        assert(pair@ =~= seq![pair@[0]].push(pair@[1]));
                        assert(models(pair@) =~= seq![m["type"@], JsonModel::Str("null"@)]);
                    }
                    schema.insert("type".to_owned(), JsonValue::Array(pair));
                },
                None => {
                    match schema.remove("oneOf") {
                        Some(JsonValue::Array(mut variants)) => {
                            let mut null_type = JsonObject::new();
                            null_type.insert("type".to_owned(), JsonValue::String("null".to_owned()));
                            let null_value = JsonValue::Object(null_type);
                            proof {
                                lemma_models_push(variants@, null_value);
                            }
                            variants.push(null_value);
                            schema.insert("oneOf".to_owned(), JsonValue::Array(variants));
                            assert(schema@ =~= m.insert(
                                "oneOf"@,
                                JsonModel::Array(
                                    m["oneOf"@]->Array_0.push(
                                        JsonModel::Object(
                                            Map::empty().insert("type"@, JsonModel::Str("null"@)),
                                        ),
                                    ),
                                ),
                            ));
                        },
                        Some(other) => {
                            schema.insert("oneOf".to_owned(), other);
                            assert(schema@ =~= m);
                        },
                        None => {
                            assert(schema@ =~= m);
                        },
                    }
                },
            }
            JsonValue::Object(schema)
        },
        other => other,
    }
}

/// The schema of an enum variant with a payload: an object with one member, named after it.
pub fn variant_object(name: &String, payload: JsonValue) -> (r: JsonValue)
    ensures
        r.model() == variant_object_spec(name@, payload.model()),
{
    let mut properties = JsonObject::new();
    properties.insert(name.clone(), payload);
    let mut required: Vec<JsonValue> = Vec::new();
    required.push(JsonValue::String(name.clone()));
    proof {
        lemma_models_push(Seq::empty(), required@[0]);
        assert(required@ =~= Seq::<JsonValue>::empty().push(required@[0]));
    }
    let mut o = JsonObject::new();
    o.insert("type".to_owned(), JsonValue::String("object".to_owned()));
    o.insert("properties".to_owned(), JsonValue::Object(properties));
    o.insert("required".to_owned(), JsonValue::Array(required));
    o.insert("additionalProperties".to_owned(), JsonValue::Bool(false));
    JsonValue::Object(o)
}

} // verus!

verus! {

/// The schema of a named field, and whether its type is an `Option`.
pub fn field_schema(
    field: &NamedField,
    types: &TypeTable,
    registry: &TypeRegistry,
    visiting: &mut Vec<usize>,
) -> (r: (JsonValue, bool))
    requires
        types.wf(),
        ref_ok(field.type_info, types.len_spec()),
    ensures
        final(visiting)@ == old(visiting)@,
        (r.0.model(), r.1) == field_schema_spec(*types, *registry, *field, old(visiting)@),
    decreases unvisited(*types, old(visiting)@), types.len_spec() + 1, 0nat,
{
    match field.type_info {
        Some(info) => {
            proof {
                lemma_option_depth_bounded(*types, info, types.len_spec());
            }
            inline_schema(info, types, registry, visiting)
        },
        None => (JsonValue::Object(path_object_of(&field.type_path)), false),
    }
}

/// The schema of a type that reflection may not know; `{}` when it doesn't.
pub fn optional_info_schema(
    info: Option<usize>,
    types: &TypeTable,
    registry: &TypeRegistry,
    visiting: &mut Vec<usize>,
) -> (r: JsonValue)
    requires
        types.wf(),
        ref_ok(info, types.len_spec()),
    ensures
        final(visiting)@ == old(visiting)@,
        r.model() == optional_info_schema_spec(*types, *registry, info, old(visiting)@),
    decreases unvisited(*types, old(visiting)@), types.len_spec() + 1, 0nat,
{
    match info {
        Some(info) => {
            proof {
                lemma_option_depth_bounded(*types, info, types.len_spec());
            }
            inline_schema(info, types, registry, visiting).0
        },
        None => JsonValue::Object(JsonObject::new()),
    }
}

/// The schema of an unnamed field.
pub fn unnamed_field_schema(
    field: &UnnamedField,
    types: &TypeTable,
    registry: &TypeRegistry,
    visiting: &mut Vec<usize>,
) -> (r: JsonValue)
    requires
        types.wf(),
        ref_ok(field.type_info, types.len_spec()),
    ensures
        final(visiting)@ == old(visiting)@,
        r.model() == unnamed_field_schema_spec(*types, *registry, *field, old(visiting)@),
    decreases unvisited(*types, old(visiting)@), types.len_spec() + 2, 0nat,
{
    optional_info_schema(field.type_info, types, registry, visiting)
}

/// The schema of a tuple: an array with one schema per position, and no more items.
pub fn tuple_schema(
    fields: &Vec<UnnamedField>,
    types: &TypeTable,
    registry: &TypeRegistry,
    visiting: &mut Vec<usize>,
) -> (r: JsonObject)
    requires
        types.wf(),
        unnamed_fields_ok(fields@, types.len_spec()),
    ensures
        final(visiting)@ == old(visiting)@,
        r@ == tuple_schema_spec(*types, *registry, fields@, old(visiting)@),
    decreases unvisited(*types, old(visiting)@), types.len_spec() + 4, 0nat,
{
    let ghost v = visiting@;
    let ghost expected = tuple_items_spec(*types, *registry, fields@, v);
    let mut items: Vec<JsonValue> = Vec::new();
    let mut i: usize = 0;
    while i < fields.len()
        invariant
            types.wf(),
            unnamed_fields_ok(fields@, types.len_spec()),
            visiting@ == v,
            v == old(visiting)@,
            expected == tuple_items_spec(*types, *registry, fields@, v),
            i <= fields@.len(),
            models(items@) == expected.take(i as int),
        decreases fields@.len() - i,
    {
        assert(ref_ok(fields@[i as int].type_info, types.len_spec()));
        let item = unnamed_field_schema(&fields[i], types, registry, visiting);
        proof {
            lemma_models_push(items@, item);
            assert(expected.take(i + 1) =~= expected.take(i as int).push(item.model()));
        }
        items.push(item);
        i += 1;
    }
    assert(expected.take(fields@.len() as int) =~= expected);
    let mut schema = JsonObject::new();
    schema.insert("type".to_owned(), JsonValue::String("array".to_owned()));
    schema.insert("prefixItems".to_owned(), JsonValue::Array(items));
    schema.insert("items".to_owned(), JsonValue::Bool(false));
    schema
}

/// The `properties` and `required` of an object schema for `fields`.
fn fields_schema(
    fields: &Vec<NamedField>,
    with_docs: bool,
    types: &TypeTable,
    registry: &TypeRegistry,
    visiting: &mut Vec<usize>,
) -> (r: (JsonObject, Vec<JsonValue>))
    requires
        types.wf(),
        named_fields_ok(fields@, types.len_spec()),
    ensures
        final(visiting)@ == old(visiting)@,
        r.0@ == properties_spec(
            fields@,
            field_results(*types, *registry, fields@, old(visiting)@),
            with_docs,
        ),
        models(r.1@) == required_spec(
            fields@,
            field_results(*types, *registry, fields@, old(visiting)@),
        ),
    decreases unvisited(*types, old(visiting)@), types.len_spec() + 2, 0nat,
{
    let ghost v = visiting@;
    let ghost results = field_results(*types, *registry, fields@, v);
    let mut properties = JsonObject::new();
    let mut required: Vec<JsonValue> = Vec::new();
    let mut i: usize = 0;
    while i < fields.len()
        invariant
            types.wf(),
            named_fields_ok(fields@, types.len_spec()),
            visiting@ == v,
            v == old(visiting)@,
            results == field_results(*types, *registry, fields@, v),
            i <= fields@.len(),
            properties@ == properties_spec(fields@.take(i as int), results, with_docs),
            models(required@) == required_spec(fields@.take(i as int), results),
        decreases fields@.len() - i,
    {
        let field = &fields[i];
        assert(ref_ok(field.type_info, types.len_spec()));
        let (schema, is_option) = field_schema(field, types, registry, visiting);
        assert(results[i as int] == (schema.model(), is_option));
        assert(fields@.take(i + 1).drop_last() =~= fields@.take(i as int));
        if !is_option && !field.has_default {
            let name = JsonValue::String(field.name.clone());
            proof {
                lemma_models_push(required@, name);
            }
            required.push(name);
        }
        let schema = match (&field.docs, with_docs) {
            (Some(docs), true) => match schema {
                JsonValue::Object(mut object) => {
                    object.insert(
                        "description".to_owned(),
                        JsonValue::String(clean_docs(docs.as_str())),
                    );
                    JsonValue::Object(object)
                },
                other => other,
            },
            _ => schema,
        };
        properties.insert(field.name.clone(), schema);
        i += 1;
    }
    assert(fields@.take(fields@.len() as int) =~= fields@);
    (properties, required)
}

/// The schema of one variant of an enum that is not all unit variants.
fn variant_schema(
    variant: &VariantInfo,
    types: &TypeTable,
    registry: &TypeRegistry,
    visiting: &mut Vec<usize>,
) -> (r: JsonValue)
    requires
        types.wf(),
        variant_ok(*variant, types.len_spec()),
    ensures
        final(visiting)@ == old(visiting)@,
        r.model() == variant_schema_spec(*types, *registry, *variant, old(visiting)@),
    decreases unvisited(*types, old(visiting)@), types.len_spec() + 5, 0nat,
{
    match variant {
        VariantInfo::Unit { name } => {
            let mut o = JsonObject::new();
            o.insert("const".to_owned(), JsonValue::String(name.clone()));
            JsonValue::Object(o)
        },
        VariantInfo::Tuple { name, fields } => {
            let payload = if fields.len() == 1 {
                assert(ref_ok(fields@[0].type_info, types.len_spec()));
                unnamed_field_schema(&fields[0], types, registry, visiting)
            } else {
                JsonValue::Object(tuple_schema(fields, types, registry, visiting))
            };
            variant_object(name, payload)
        },
        VariantInfo::Struct { name, fields } => {
            let (properties, required) = fields_schema(fields, false, types, registry, visiting);
            let mut o = JsonObject::new();
            o.insert("type".to_owned(), JsonValue::String("object".to_owned()));
            o.insert("properties".to_owned(), JsonValue::Object(properties));
            o.insert("required".to_owned(), JsonValue::Array(required));
            o.insert("additionalProperties".to_owned(), JsonValue::Bool(false));
            variant_object(name, JsonValue::Object(o))
        },
    }
}

/// The schema of a type, and whether the type is an `Option`. The types in
/// `visiting` are being described further out; they are named, not described again.
pub fn inline_schema(
    info: usize,
    types: &TypeTable,
    registry: &TypeRegistry,
    visiting: &mut Vec<usize>,
) -> (r: (JsonValue, bool))
    requires
        types.wf(),
        info < types.len_spec(),
    ensures
        final(visiting)@ == old(visiting)@,
        (r.0.model(), r.1) == inline_schema_spec(*types, *registry, info, old(visiting)@),
    decreases unvisited(*types, old(visiting)@), types.option_depth(info, types.len_spec()), 1nat,
{
    let type_id = info;
    if let Some(inner) = option_inner(types, info) {
        proof {
            lemma_option_depth_decreases(*types, info, inner);
            lemma_option_inner_in_range(*types, info);
        }
        let (schema, _) = inline_schema(inner, types, registry, visiting);
        return (nullable(schema), true);
    }
    let ghost v = visiting@;
    assert(inline_schema_spec(*types, *registry, info, v) == (
        type_schema_spec(*types, *registry, info, v),
        false,
    ));
    let ty = &types.types[info];
    assert(info_refs_ok(*ty, types.len_spec()));
    let mut schema = path_object_of(&ty.type_path);

    let is_entity = match types.entity {
        Some(entity) => entity == type_id,
        None => false,
    };
    if is_entity {
        schema.insert("type".to_owned(), JsonValue::String("integer".to_owned()));
        schema.insert("minimum".to_owned(), JsonValue::Number(decimal_string(0)));
        return (JsonValue::Object(schema), false);
    }
    let deserializes_through_serde = match registry.get(type_id) {
        Some(registration) => registration.reflect_deserialize,
        None => false,
    };
    let struct_like = match &ty.kind {
        TypeKind::Struct { .. } | TypeKind::TupleStruct { .. } | TypeKind::Enum { .. } => true,
        _ => false,
    };
    if deserializes_through_serde && struct_like {
        return (JsonValue::Object(schema), false);
    }
    if contains(visiting, type_id) {
        return (JsonValue::Object(schema), false);
    }
    proof {
        lemma_unvisited_push(*types, v, type_id);
    }
    visiting.push(type_id);
    let ghost v2 = visiting@;

    if let Some(field) = newtype_field(types, info, registry) {
        assert(ref_ok(field.type_info, types.len_spec()));
        if let JsonValue::Object(inner) = unnamed_field_schema(field, types, registry, visiting) {
            schema.extend(inner);
            schema.insert("typePath".to_owned(), JsonValue::String(ty.type_path.clone()));
        }
        visiting.pop();
        assert(visiting@ =~= v);
        return (JsonValue::Object(schema), false);
    }
    match &ty.kind {
        TypeKind::Struct { fields } => {
            let (properties, required) = fields_schema(fields, true, types, registry, visiting);
            schema.insert("type".to_owned(), JsonValue::String("object".to_owned()));
            schema.insert("properties".to_owned(), JsonValue::Object(properties));
            schema.insert("required".to_owned(), JsonValue::Array(required));
            schema.insert("additionalProperties".to_owned(), JsonValue::Bool(false));
        },
        TypeKind::TupleStruct { fields } => {
            schema.extend(tuple_schema(fields, types, registry, visiting));
        },
        TypeKind::Tuple { fields } => {
            schema.extend(tuple_schema(fields, types, registry, visiting));
        },
        TypeKind::List { item } => {
            schema.insert("type".to_owned(), JsonValue::String("array".to_owned()));
            let items = optional_info_schema(*item, types, registry, visiting);
            schema.insert("items".to_owned(), items);
        },
        TypeKind::Array { item, capacity } => {
            schema.insert("type".to_owned(), JsonValue::String("array".to_owned()));
            let items = optional_info_schema(*item, types, registry, visiting);
            schema.insert("items".to_owned(), items);
            schema.insert(
                "minItems".to_owned(),
                JsonValue::Number(decimal_string(*capacity as u64)),
            );
            schema.insert(
                "maxItems".to_owned(),
                JsonValue::Number(decimal_string(*capacity as u64)),
            );
        },
        TypeKind::SetType => {
            schema.insert("type".to_owned(), JsonValue::String("array".to_owned()));
            schema.insert("uniqueItems".to_owned(), JsonValue::Bool(true));
        },
        TypeKind::MapType { value } => {
            schema.insert("type".to_owned(), JsonValue::String("object".to_owned()));
            let values = optional_info_schema(*value, types, registry, visiting);
            schema.insert("additionalProperties".to_owned(), values);
        },
        TypeKind::Enum { variants } => {
            let mut unit_only = true;
            let mut i: usize = 0;
            while i < variants.len()
                invariant
                    i <= variants@.len(),
                    unit_only == forall|j: int| 0 <= j < i ==> #[trigger] variants@[j] is Unit,
                decreases variants@.len() - i,
            {
                let is_unit = match &variants[i] {
                    VariantInfo::Unit { .. } => true,
                    _ => false,
                };
                unit_only = unit_only && is_unit;
                i += 1;
            }
            if unit_only {
                let mut names: Vec<JsonValue> = Vec::new();
                let ghost expected = variant_names(variants@);
                let mut i: usize = 0;
                while i < variants.len()
                    invariant
                        i <= variants@.len(),
                        expected == variant_names(variants@),
                        models(names@) == expected.take(i as int),
                    decreases variants@.len() - i,
                {
                    let name = JsonValue::String(variants[i].name().clone());
                    proof {
                        lemma_models_push(names@, name);
                        assert(expected.take(i + 1) =~= expected.take(i as int).push(name.model()));
                    }
                    names.push(name);
                    i += 1;
                }
                assert(expected.take(variants@.len() as int) =~= expected);
                schema.insert("type".to_owned(), JsonValue::String("string".to_owned()));
                schema.insert("enum".to_owned(), JsonValue::Array(names));
            } else {
                let mut one_of: Vec<JsonValue> = Vec::new();
                let ghost expected = variant_schemas_spec(*types, *registry, variants@, v2);
                let mut i: usize = 0;
                while i < variants.len()
                    invariant
                        types.wf(),
                        forall|j: int|
                            0 <= j < variants@.len() ==> variant_ok(
                                #[trigger] variants@[j],
                                types.len_spec(),
                            ),
                        visiting@ == v2,
                        unvisited(*types, v2) < unvisited(*types, old(visiting)@),
                        expected == variant_schemas_spec(*types, *registry, variants@, v2),
                        i <= variants@.len(),
                        models(one_of@) == expected.take(i as int),
                    decreases variants@.len() - i,
                {
                    assert(variant_ok(variants@[i as int], types.len_spec()));
                    let item = variant_schema(&variants[i], types, registry, visiting);
                    proof {
                        lemma_models_push(one_of@, item);
                        assert(expected.take(i + 1) =~= expected.take(i as int).push(item.model()));
                    }
                    one_of.push(item);
                    i += 1;
                }
                assert(expected.take(variants@.len() as int) =~= expected);
                schema.insert("oneOf".to_owned(), JsonValue::Array(one_of));
            }
        },
        TypeKind::Opaque => {
            if let Some(json_type) = opaque_json_type_of(ty.type_path.as_str()) {
                schema.insert("type".to_owned(), JsonValue::String(json_type.to_owned()));
            }
        },
    }
    visiting.pop();
    assert(visiting@ =~= v);
    (JsonValue::Object(schema), false)
}

} // verus!

verus! {

/// The mathematical value of a [`Parameter`].
pub struct ParameterModel {
    pub name: Seq<char>,
    pub description: Option<Seq<char>>,
    pub required: bool,
    pub schema: JsonModel,
    pub extensions: Map<Seq<char>, JsonModel>,
}

/// An `OpenRPC` parameter: one field of a method's params, or its result.
#[derive(Debug)]
pub struct Parameter {
    pub name: String,
    pub description: Option<String>,
    /// Whether a request must give this parameter.
    pub required: bool,
    pub schema: JsonValue,
    pub extensions: JsonObject,
}

/// The characters of an optional string.
pub open spec fn opt_chars(s: Option<String>) -> Option<Seq<char>> {
    match s {
        Some(s) => Some(s@),
        None => None,
    }
}

/// An optional doc comment as it is shown.
pub open spec fn description_spec(docs: Option<String>) -> Option<Seq<char>> {
    match docs {
        Some(d) => Some(clean_docs_spec(d@)),
        None => None,
    }
}

impl Parameter {
    pub open spec fn model(self) -> ParameterModel {
        ParameterModel {
            name: self.name@,
            description: opt_chars(self.description),
            required: self.required,
            schema: self.schema.model(),
            extensions: self.extensions@,
        }
    }
}

/// The parameter that describes one field of a params struct.
pub open spec fn field_parameter(field: NamedField, result: (JsonModel, bool)) -> ParameterModel {
    ParameterModel {
        name: field.name@,
        description: description_spec(field.docs),
        required: field_required(field, result.1),
        schema: result.0,
        extensions: Map::empty(),
    }
}

/// One parameter per field of a params struct, in field order; none for any other type.
pub open spec fn method_params_spec(t: TypeTable, reg: TypeRegistry, id: usize) -> Seq<
    ParameterModel,
> {
    match t.info(id).kind {
        TypeKind::Struct { fields } => {
            let results = field_results(t, reg, fields@, seq![id]);
            Seq::new(fields@.len(), |i: int| field_parameter(fields@[i], results[i]))
        },
        _ => Seq::empty(),
    }
}

/// The `result` parameter that describes a response type.
pub open spec fn method_result_spec(t: TypeTable, reg: TypeRegistry, id: usize) -> ParameterModel {
    ParameterModel {
        name: "result"@,
        description: description_spec(t.info(id).docs),
        required: true,
        schema: inline_schema_spec(t, reg, id, Seq::empty()).0,
        extensions: Map::empty(),
    }
}

/// The models of a sequence of parameters.
pub open spec fn parameter_models(params: Seq<Parameter>) -> Seq<ParameterModel> {
    params.map_values(|p: Parameter| p.model())
}

/// Returns the field of a newtype, which reflection serializes as just that field.
pub fn newtype_field<'a>(types: &'a TypeTable, info: usize, registry: &TypeRegistry) -> (r: Option<
    &'a UnnamedField,
>)
    requires
        info < types.len_spec(),
    ensures
        match r {
            Some(f) => types.newtype_field_spec(*registry, info) == Some(*f),
            None => types.newtype_field_spec(*registry, info) == None::<UnnamedField>,
        },
{
    match &types.types[info].kind {
        TypeKind::TupleStruct { fields } => {
            let has_skipped_fields = match registry.get(info) {
                Some(registration) => registration.serialization_data,
                None => false,
            };
            if fields.len() == 1 && !has_skipped_fields {
                Some(&fields[0])
            } else {
                None
            }
        },
        _ => None,
    }
}

/// Returns `true` for params types with no fields, like unit structs or `()`.
pub fn takes_no_params(types: &TypeTable, info: usize) -> (r: bool)
    requires
        info < types.len_spec(),
    ensures
        r == types.takes_no_params_spec(info),
{
    match &types.types[info].kind {
        TypeKind::Struct { fields } => fields.len() == 0,
        TypeKind::TupleStruct { fields } => fields.len() == 0,
        TypeKind::Tuple { fields } => fields.len() == 0,
        _ => false,
    }
}

/// Returns the `T` in `Option<T>`, or `None` if the type isn't an `Option`.
pub fn option_inner(types: &TypeTable, info: usize) -> (r: Option<usize>)
    requires
        info < types.len_spec(),
    ensures
        r == types.option_inner_spec(info),
{
    types.option_inner(info)
}

fn description_of(docs: &Option<String>) -> (r: Option<String>)
    ensures
        opt_chars(r) == description_spec(*docs),
{
    match docs {
        Some(docs) => Some(clean_docs(docs.as_str())),
        None => None,
    }
}

/// Returns one `OpenRPC` parameter per field of a params struct.
pub fn method_params(types: &TypeTable, info: usize, registry: &TypeRegistry) -> (r: Vec<Parameter>)
    requires
        types.wf(),
        info < types.len_spec(),
    ensures
        parameter_models(r@) == method_params_spec(*types, *registry, info),
{
    let mut visiting: Vec<usize> = Vec::new();
    visiting.push(info);
    let ghost v = visiting@;
    assert(v =~= seq![info]);
    let ty = &types.types[info];
    assert(info_refs_ok(*ty, types.len_spec()));
    let fields = match &ty.kind {
        TypeKind::Struct { fields } => fields,
        _ => {
            assert(parameter_models(Seq::<Parameter>::empty()) =~= Seq::<ParameterModel>::empty());
            return Vec::new();
        },
    };
    let ghost results = field_results(*types, *registry, fields@, v);
    let ghost expected = Seq::new(
        fields@.len(),
        |i: int| field_parameter(fields@[i], results[i]),
    );
    let mut params: Vec<Parameter> = Vec::new();
    let mut i: usize = 0;
    while i < fields.len()
        invariant
            types.wf(),
            named_fields_ok(fields@, types.len_spec()),
            visiting@ == v,
            results == field_results(*types, *registry, fields@, v),
            expected == Seq::new(
                fields@.len(),
                |i: int| field_parameter(fields@[i], results[i]),
            ),
            i <= fields@.len(),
            parameter_models(params@) == expected.take(i as int),
        decreases fields@.len() - i,
    {
        let field = &fields[i];
        assert(ref_ok(field.type_info, types.len_spec()));
        let (schema, is_option) = field_schema(field, types, registry, &mut visiting);
        let param = Parameter {
            name: field.name.clone(),
            description: description_of(&field.docs),
            required: !is_option && !field.has_default,
            schema,
            extensions: JsonObject::new(),
        };
        assert(param.model() == expected[i as int]);
        let ghost before = params@;
        params.push(param);
        assert(parameter_models(params@) =~= parameter_models(before).push(param.model()));
        assert(expected.take(i + 1) =~= expected.take(i as int).push(expected[i as int]));
        i += 1;
    }
    assert(expected.take(fields@.len() as int) =~= expected);
    params
}

/// Returns the method description from the params type's docs.
pub fn method_description(types: &TypeTable, info: usize) -> (r: Option<String>)
    requires
        info < types.len_spec(),
    ensures
        opt_chars(r) == description_spec(types.info(info).docs),
{
    description_of(&types.types[info].docs)
}

/// Returns the `OpenRPC` `result` for a reflected response type.
pub fn method_result(types: &TypeTable, info: usize, registry: &TypeRegistry) -> (r: Parameter)
    requires
        types.wf(),
        info < types.len_spec(),
    ensures
        r.model() == method_result_spec(*types, *registry, info),
{
    let mut visiting: Vec<usize> = Vec::new();
    assert(visiting@ =~= Seq::<usize>::empty());
    Parameter {
        name: "result".to_owned(),
        description: description_of(&types.types[info].docs),
        required: true,
        schema: inline_schema(info, types, registry, &mut visiting).0,
        extensions: JsonObject::new(),
    }
}

} // verus!
