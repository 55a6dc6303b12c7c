//! Properties of schema generation that hold for every type table.

use vstd::prelude::*;

use crate::json::Json;
use crate::json_value::{JsonModel, JsonValue};
use crate::params::{
    description_spec, expanded_schema, field_results, field_schema_spec, inline_schema_spec,
    method_params_spec, nullable_spec, object_schema, optional_info_schema_spec, path_object,
    properties_spec, required_spec, type_schema_spec, unnamed_field_schema_spec,
    variant_object_spec, variant_schema_spec,
};
use crate::text::{clean_docs_spec, decimal, is_white_space, trim, trim_end, trim_start};
use crate::type_info::{
    find_variant, info_refs_ok, option_path_prefix, ref_ok, variant_ok, TypeKind, TypeRegistry,
    TypeTable,
};

verus! {

broadcast use vstd::string::group_string_axioms;

/// `method_params` describes each field of a params struct, in field order,
/// under the field's name and with the field's docs; any other type has no params.
pub proof fn law_params_follow_fields(t: TypeTable, reg: TypeRegistry, id: usize)
    requires
        t.wf(),
        id < t.len_spec(),
    ensures
        method_params_spec(t, reg, id).len() == t.struct_fields(id).len(),
        forall|i: int|
            0 <= i < t.struct_fields(id).len() ==> {
                &&& (#[trigger] method_params_spec(t, reg, id)[i]).name == t.struct_fields(id)[i].name@
                &&& method_params_spec(t, reg, id)[i].description == description_spec(
                    t.struct_fields(id)[i].docs,
                )
            },
{
}

/// Each param's schema is the schema of its field's type, taken with the
/// params type being described, whether or not the field has a default: a
/// field of a known type is described as that type, one of an unknown type
/// is named by its path. Only an `Option` type accepts `null`.
pub proof fn law_param_schema_is_field_schema(t: TypeTable, reg: TypeRegistry, id: usize, i: int)
    requires
        t.wf(),
        id < t.len_spec(),
        0 <= i < t.struct_fields(id).len(),
    ensures
        method_params_spec(t, reg, id)[i].schema == field_schema_spec(
            t,
            reg,
            t.struct_fields(id)[i],
            seq![id],
        ).0,
        t.struct_fields(id)[i].type_info matches Some(f) ==> method_params_spec(t, reg, id)[i].schema
            == inline_schema_spec(t, reg, f, seq![id]).0,
        t.struct_fields(id)[i].type_info is None ==> method_params_spec(t, reg, id)[i].schema
            == JsonModel::Object(path_object(t.struct_fields(id)[i].type_path@)),
{
    let fields = t.struct_fields(id);
    assert(info_refs_ok(t.types@[id as int], t.len_spec()));
    assert(ref_ok(fields[i].type_info, t.len_spec()));
    let results = field_results(t, reg, fields, seq![id]);
    assert(results[i] == field_schema_spec(t, reg, fields[i], seq![id]));
}

/// The description of a method, of its result and of each of its params is
/// the whole doc comment of the type or field, cleaned: no line of it is
/// dropped.
pub proof fn law_descriptions_are_cleaned_docs(t: TypeTable, reg: TypeRegistry, id: usize)
    requires
        t.wf(),
        id < t.len_spec(),
    ensures
        forall|d: String|
            t.info(id).docs == Some(d) ==> #[trigger] description_spec(Some(d)) == Some(
                clean_docs_spec(d@),
            ),
        t.info(id).docs is None ==> description_spec(t.info(id).docs) is None,
        t.info(id).docs matches Some(d) ==> crate::params::method_result_spec(t, reg, id).description
            == Some(clean_docs_spec(d@)),
        t.info(id).docs is None ==> crate::params::method_result_spec(t, reg, id).description is None,
        forall|i: int|
            0 <= i < t.struct_fields(id).len() ==> (#[trigger] t.struct_fields(id)[i].docs matches Some(
                d,
            ) ==> method_params_spec(t, reg, id)[i].description == Some(clean_docs_spec(d@))),
        forall|i: int|
            0 <= i < t.struct_fields(id).len() ==> ((#[trigger] t.struct_fields(id)[i].docs) is None
                ==> method_params_spec(t, reg, id)[i].description is None),
{
}

/// The result of a method is a required parameter named `result`, whose
/// schema is the schema of the response type with no type being described
/// further out.
pub proof fn law_result_describes_the_response_type(t: TypeTable, reg: TypeRegistry, id: usize)
    requires
        t.wf(),
        id < t.len_spec(),
    ensures
        crate::params::method_result_spec(t, reg, id).name == "result"@,
        crate::params::method_result_spec(t, reg, id).required,
        crate::params::method_result_spec(t, reg, id).schema == inline_schema_spec(
            t,
            reg,
            id,
            Seq::empty(),
        ).0,
        crate::params::method_result_spec(t, reg, id).extensions == Map::<Seq<char>, JsonModel>::empty(),
{
}

/// A params type takes no params exactly when it is a struct, a tuple
/// struct or a tuple without fields.
pub proof fn law_takes_no_params_iff_no_fields(t: TypeTable, id: usize)
    requires
        id < t.len_spec(),
    ensures
        t.takes_no_params_spec(id) <==> (t.info(id).kind is Struct && t.struct_fields(id).len() == 0)
            || (t.info(id).kind is TupleStruct && t.tuple_struct_fields(id).len() == 0) || (t.info(
            id,
        ).kind is Tuple && t.tuple_type_fields(id).len() == 0),
{
}

/// A param is required exactly when its field has no default and its type is no `Option`.
pub proof fn law_required_unless_optional(t: TypeTable, reg: TypeRegistry, id: usize, i: int)
    requires
        t.wf(),
        id < t.len_spec(),
        0 <= i < t.struct_fields(id).len(),
    ensures
        method_params_spec(t, reg, id)[i].required == (!t.struct_fields(id)[i].has_default && !(
        t.struct_fields(id)[i].type_info matches Some(f) && t.option_inner_spec(f) is Some)),
{
    let fields = t.struct_fields(id);
    assert(info_refs_ok(t.types@[id as int], t.len_spec()));
    assert(ref_ok(fields[i].type_info, t.len_spec()));
    let results = field_results(t, reg, fields, seq![id]);
    assert(results[i] == field_schema_spec(t, reg, fields[i], seq![id]));
}

/// The schema of a type that is no `Option` is an object that names the type by its path.
pub proof fn law_schema_names_its_type(
    t: TypeTable,
    reg: TypeRegistry,
    id: usize,
    visiting: Seq<usize>,
)
    requires
        t.wf(),
        id < t.len_spec(),
        t.option_inner_spec(id) is None,
    ensures
        inline_schema_spec(t, reg, id, visiting).0 matches JsonModel::Object(m) && m.contains_key(
            "typePath"@,
        ) && m["typePath"@] == JsonModel::Str(t.info(id).type_path@),
{
    reveal_strlit("typePath");
    reveal_strlit("type");
    reveal_strlit("minimum");
    reveal_strlit("properties");
    reveal_strlit("required");
    reveal_strlit("additionalProperties");
    reveal_strlit("items");
    reveal_strlit("prefixItems");
    reveal_strlit("minItems");
    reveal_strlit("maxItems");
    reveal_strlit("uniqueItems");
    reveal_strlit("enum");
    reveal_strlit("oneOf");
    assert(inline_schema_spec(t, reg, id, visiting).0 == type_schema_spec(t, reg, id, visiting));
    let info = t.info(id);
    let path = info.type_path@;
    let key = "typePath"@;
    assert(key.len() == 8);
    assert("type"@.len() == 4);
    assert(key != "type"@);
    assert(key != "items"@);
    assert(key != "prefixItems"@);
    assert(key != "minimum"@);
    assert(key != "properties"@);
    assert(key[0] != "required"@[0]);
    assert(key != "required"@);
    assert(key != "additionalProperties"@);
    assert(key[0] != "minItems"@[0]);
    assert(key != "minItems"@);
    assert(key[0] != "maxItems"@[0]);
    assert(key != "maxItems"@);
    assert(key != "uniqueItems"@);
    assert(key != "enum"@);
    assert(key != "oneOf"@);
    assert(info_refs_ok(t.types@[id as int], t.len_spec()));
    let s = type_schema_spec(t, reg, id, visiting);
    if t.entity == Some(id) || (reg.deserializes_through_serde(id) && (info.kind is Struct
        || info.kind is TupleStruct || info.kind is Enum)) || visiting.contains(id) {
    } else if t.newtype_field_spec(reg, id) is Some {
    } else {
        let v2 = visiting.push(id);
        match info.kind {
            TypeKind::TupleStruct { fields } => {
                assert(crate::type_info::unnamed_fields_ok(fields@, t.len_spec()));
                let tuple = crate::params::tuple_schema_spec(t, reg, fields@, v2);
                assert(tuple == Map::<Seq<char>, JsonModel>::empty().insert("type"@, JsonModel::Str("array"@)).insert(
                    "prefixItems"@,
                    JsonModel::Array(crate::params::tuple_items_spec(t, reg, fields@, v2)),
                ).insert("items"@, JsonModel::Bool(false)));
                assert(!tuple.contains_key(key));
            },
            TypeKind::Tuple { fields } => {
                assert(crate::type_info::unnamed_fields_ok(fields@, t.len_spec()));
                let tuple = crate::params::tuple_schema_spec(t, reg, fields@, v2);
                assert(tuple == Map::<Seq<char>, JsonModel>::empty().insert("type"@, JsonModel::Str("array"@)).insert(
                    "prefixItems"@,
                    JsonModel::Array(crate::params::tuple_items_spec(t, reg, fields@, v2)),
                ).insert("items"@, JsonModel::Bool(false)));
                assert(!tuple.contains_key(key));
            },
            _ => {},
        }
    }
}

/// A type that is already being described, as it is where a type contains
/// itself, is named by its path and not described again.
pub proof fn law_visited_types_not_expanded(
    t: TypeTable,
    reg: TypeRegistry,
    id: usize,
    visiting: Seq<usize>,
)
    requires
        t.wf(),
        id < t.len_spec(),
        t.option_inner_spec(id) is None,
        t.entity != Some(id),
        visiting.contains(id),
    ensures
        inline_schema_spec(t, reg, id, visiting) == (
            JsonModel::Object(path_object(t.info(id).type_path@)),
            false,
        ),
{
    assert(inline_schema_spec(t, reg, id, visiting) == (type_schema_spec(t, reg, id, visiting), false));
    assert(type_schema_spec(t, reg, id, visiting) == JsonModel::Object(path_object(t.info(id).type_path@)));
}

/// A type that deserializes through its own `Deserialize` impl is named by
/// its path and not described field by field.
pub proof fn law_serde_types_not_expanded(
    t: TypeTable,
    reg: TypeRegistry,
    id: usize,
    visiting: Seq<usize>,
)
    requires
        t.wf(),
        id < t.len_spec(),
        t.option_inner_spec(id) is None,
        reg.deserializes_through_serde(id),
        t.info(id).kind is Struct || t.info(id).kind is TupleStruct || t.info(id).kind is Enum,
    ensures
        inline_schema_spec(t, reg, id, visiting) == (
            JsonModel::Object(path_object(t.info(id).type_path@)),
            false,
        ),
{
    assert(inline_schema_spec(t, reg, id, visiting) == (type_schema_spec(t, reg, id, visiting), false));
    assert(type_schema_spec(t, reg, id, visiting) == JsonModel::Object(path_object(t.info(id).type_path@)));
}

/// An entity is described as a non-negative integer.
pub proof fn law_entity_is_non_negative_integer(
    t: TypeTable,
    reg: TypeRegistry,
    id: usize,
    visiting: Seq<usize>,
)
    requires
        t.wf(),
        id < t.len_spec(),
        t.option_inner_spec(id) is None,
        t.entity == Some(id),
    ensures
        inline_schema_spec(t, reg, id, visiting) == (
            JsonModel::Object(
                path_object(t.info(id).type_path@).insert("type"@, JsonModel::Str("integer"@)).insert(
                    "minimum"@,
                    JsonModel::Number("0"@),
                ),
            ),
            false,
        ),
{
    reveal_strlit("0");
    assert(decimal(0) =~= "0"@);
    assert(inline_schema_spec(t, reg, id, visiting) == (type_schema_spec(t, reg, id, visiting), false));
}

/// An `Option<T>` is described as `T` that may also be `null`: a `type`
/// string `ty` of `T` becomes `[ty, "null"]`; and it is never required.
pub proof fn law_options_are_nullable(
    t: TypeTable,
    reg: TypeRegistry,
    id: usize,
    inner: usize,
    visiting: Seq<usize>,
    m: Map<Seq<char>, JsonModel>,
    ty: Seq<char>,
)
    requires
        t.wf(),
        id < t.len_spec(),
        t.option_inner_spec(id) == Some(inner),
        inline_schema_spec(t, reg, inner, visiting).0 == JsonModel::Object(m),
        m.contains_key("type"@),
        m["type"@] == JsonModel::Str(ty),
    ensures
        inline_schema_spec(t, reg, id, visiting) == (
            JsonModel::Object(
                m.insert("type"@, JsonModel::Array(seq![JsonModel::Str(ty), JsonModel::Str("null"@)])),
            ),
            true,
        ),
{
    crate::type_info::lemma_option_inner_in_range(t, id);
}

/// A `oneOf` schema of an `Option<T>` gains the alternative `{"type": "null"}`.
pub proof fn law_nullable_one_of(m: Map<Seq<char>, JsonModel>, variants: Seq<JsonModel>)
    requires
        !(m.contains_key("type"@) && m["type"@] is Str),
        m.contains_key("oneOf"@),
        m["oneOf"@] == JsonModel::Array(variants),
    ensures
        nullable_spec(JsonModel::Object(m)) == JsonModel::Object(
            m.insert(
                "oneOf"@,
                JsonModel::Array(
                    variants.push(
                        JsonModel::Object(Map::empty().insert("type"@, JsonModel::Str("null"@))),
                    ),
                ),
            ),
        ),
{
}

/// A params type that takes no params is described by no params.
pub proof fn law_no_params_for_empty_structs(t: TypeTable, reg: TypeRegistry, id: usize)
    requires
        t.wf(),
        id < t.len_spec(),
        t.takes_no_params_spec(id),
    ensures
        method_params_spec(t, reg, id).len() == 0,
{
}

proof fn lemma_trim_start_head(s: Seq<char>)
    ensures
        trim_start(s).len() > 0 ==> !is_white_space(trim_start(s)[0]),
        trim_start(s).len() > 0 && s.len() > 0 ==> trim_start(s).last() == s.last(),
        trim_start(s).len() <= s.len(),
    decreases s.len(),
{
    if s.len() > 0 && is_white_space(s[0]) {
        lemma_trim_start_head(s.drop_first());
    }
}

proof fn lemma_trim_end_tail(s: Seq<char>)
    ensures
        trim_end(s).len() > 0 ==> !is_white_space(trim_end(s).last()),
    decreases s.len(),
{
    if s.len() > 0 && is_white_space(s.last()) {
        lemma_trim_end_tail(s.drop_last());
    }
}

/// A trimmed text neither begins nor ends with white space.
pub proof fn law_trim_has_no_surrounding_space(s: Seq<char>)
    ensures
        trim(s).len() > 0 ==> !is_white_space(trim(s)[0]) && !is_white_space(trim(s).last()),
{
    lemma_trim_end_tail(s);
    lemma_trim_start_head(trim_end(s));
}

/// A cleaned doc comment neither begins nor ends with white space.
pub proof fn law_clean_docs_has_no_surrounding_space(docs: Seq<char>)
    ensures
        clean_docs_spec(docs).len() > 0 ==> !is_white_space(clean_docs_spec(docs)[0])
            && !is_white_space(clean_docs_spec(docs).last()),
{
    law_trim_has_no_surrounding_space(
        crate::text::join(
            crate::text::lines(docs).map_values(|line: Seq<char>| trim(line)),
            seq!['\n'],
        ),
    );
}

/// Wrapping a JSON value as [`Json`] and unwrapping it gives the value back.
pub proof fn law_json_round_trip(value: JsonValue)
    ensures
        <JsonValue as vstd::std_specs::convert::FromSpec<Json>>::from_spec(
            <Json as vstd::std_specs::convert::FromSpec<JsonValue>>::from_spec(value),
        ) == value,
{
}

} // verus!

verus! {

/// The names of the params that a request must give, in order.
pub open spec fn required_names(params: Seq<crate::params::ParameterModel>) -> Seq<JsonModel>
    decreases params.len(),
{
    if params.len() == 0 {
        Seq::empty()
    } else {
        let rest = required_names(params.drop_last());
        if params.last().required {
            rest.push(JsonModel::Str(params.last().name))
        } else {
            rest
        }
    }
}

proof fn lemma_required_prefix(t: TypeTable, reg: TypeRegistry, id: usize, k: int)
    requires
        t.wf(),
        id < t.len_spec(),
        t.info(id).kind is Struct,
        0 <= k <= t.struct_fields(id).len(),
    ensures
        crate::params::required_spec(
            t.struct_fields(id).take(k),
            field_results(t, reg, t.struct_fields(id), seq![id]),
        ) == required_names(method_params_spec(t, reg, id).take(k)),
    decreases k,
{
    let fields = t.struct_fields(id);
    let params = method_params_spec(t, reg, id);
    if k > 0 {
        lemma_required_prefix(t, reg, id, k - 1);
        assert(fields.take(k).drop_last() =~= fields.take(k - 1));
        assert(params.take(k).drop_last() =~= params.take(k - 1));
    }
}

/// The result schema of a params struct requires exactly the fields that
/// `method_params` marks as required, in the same order.
pub proof fn law_result_requires_the_required_params(t: TypeTable, reg: TypeRegistry, id: usize)
    requires
        t.wf(),
        id < t.len_spec(),
        t.info(id).kind is Struct,
        t.option_inner_spec(id) is None,
        !reg.deserializes_through_serde(id),
    ensures
        crate::params::method_result_spec(t, reg, id).schema matches JsonModel::Object(m)
            && m.contains_key("required"@) && m["required"@] == JsonModel::Array(
            required_names(method_params_spec(t, reg, id)),
        ),
{
    let fields = t.struct_fields(id);
    assert(info_refs_ok(t.types@[id as int], t.len_spec()));
    lemma_required_prefix(t, reg, id, fields.len() as int);
    assert(fields.take(fields.len() as int) =~= fields);
    let params = method_params_spec(t, reg, id);
    assert(params.take(params.len() as int) =~= params);
    let empty = Seq::<usize>::empty();
    assert(empty.push(id) =~= seq![id]);
    assert(!empty.contains(id));
    assert(inline_schema_spec(t, reg, id, empty).0 == type_schema_spec(t, reg, id, empty));
    reveal_strlit("required");
    reveal_strlit("additionalProperties");
    assert("required"@.len() == 8);
    assert("additionalProperties"@.len() == 20);
    assert("required"@ != "additionalProperties"@);
}

} // verus!

verus! {

/// Every schema is a JSON object.
pub proof fn law_schemas_are_objects(
    t: TypeTable,
    reg: TypeRegistry,
    id: usize,
    visiting: Seq<usize>,
)
    requires
        t.wf(),
        id < t.len_spec(),
    ensures
        inline_schema_spec(t, reg, id, visiting).0 is Object,
    decreases t.option_depth(id, t.len_spec()),
{
    match t.option_inner_spec(id) {
        Some(inner) => {
            crate::type_info::lemma_option_inner_in_range(t, id);
            crate::type_info::lemma_option_depth_decreases(t, id, inner);
            law_schemas_are_objects(t, reg, inner, visiting);
        },
        None => {
            law_schema_names_its_type(t, reg, id, visiting);
        },
    }
}

} // verus!

verus! {

/// A type's schema says it is an `Option` exactly when it is one, and an
/// `Option<T>` is described as `T` made nullable.
pub proof fn law_option_schema(t: TypeTable, reg: TypeRegistry, id: usize, visiting: Seq<usize>)
    requires
        t.wf(),
        id < t.len_spec(),
    ensures
        inline_schema_spec(t, reg, id, visiting).1 == t.option_inner_spec(id) is Some,
        t.option_inner_spec(id) matches Some(inner) ==> inline_schema_spec(t, reg, id, visiting).0
            == nullable_spec(inline_schema_spec(t, reg, inner, visiting).0),
{
    crate::type_info::lemma_option_inner_in_range(t, id);
}

/// A type that is neither an `Option`, the entity, a type deserialized
/// through serde nor already being described is expanded with itself added
/// to the types being described. Every schema nested in that expansion is
/// taken with the type among them, so where the type is met again it is only
/// named (`law_visited_types_not_expanded`): along any path of nested schemas
/// each type is expanded at most once.
pub proof fn law_expanded_at_most_once(
    t: TypeTable,
    reg: TypeRegistry,
    id: usize,
    visiting: Seq<usize>,
)
    requires
        t.wf(),
        id < t.len_spec(),
        t.option_inner_spec(id) is None,
        t.entity != Some(id),
        !(reg.deserializes_through_serde(id) && (t.info(id).kind is Struct || t.info(id).kind
            is TupleStruct || t.info(id).kind is Enum)),
        !visiting.contains(id),
    ensures
        inline_schema_spec(t, reg, id, visiting) == (
            expanded_schema(t, reg, id, visiting.push(id)),
            false,
        ),
        visiting.push(id).contains(id),
{
    assert(inline_schema_spec(t, reg, id, visiting) == (type_schema_spec(t, reg, id, visiting), false));
    assert(visiting.push(id)[visiting.len() as int] == id);
}

/// A struct that is not being described already, and that does not
/// deserialize through serde, is described as an object with one property
/// per field, its docs as the property's description, the fields that may
/// not be left out as `required`, and no other properties allowed; each
/// field is described with the struct among the types being described.
pub proof fn law_struct_schema(t: TypeTable, reg: TypeRegistry, id: usize, visiting: Seq<usize>)
    requires
        t.wf(),
        id < t.len_spec(),
        t.info(id).kind is Struct,
        !reg.deserializes_through_serde(id),
        !visiting.contains(id),
    ensures
        inline_schema_spec(t, reg, id, visiting) == (
            JsonModel::Object(
                object_schema(
                    path_object(t.info(id).type_path@),
                    properties_spec(
                        t.struct_fields(id),
                        field_results(t, reg, t.struct_fields(id), visiting.push(id)),
                        true,
                    ),
                    required_spec(
                        t.struct_fields(id),
                        field_results(t, reg, t.struct_fields(id), visiting.push(id)),
                    ),
                ),
            ),
            false,
        ),
{
    assert(inline_schema_spec(t, reg, id, visiting) == (type_schema_spec(t, reg, id, visiting), false));
}

/// A list, a set or a map that is not being described already is described
/// as an array or an object of its items, the items being described with
/// the collection among the types being described; a set's items are not
/// described.
pub proof fn law_collection_schemas(
    t: TypeTable,
    reg: TypeRegistry,
    id: usize,
    visiting: Seq<usize>,
)
    requires
        t.wf(),
        id < t.len_spec(),
        !visiting.contains(id),
    ensures
        t.info(id).kind matches TypeKind::List { item } ==> inline_schema_spec(t, reg, id, visiting)
            == (
            JsonModel::Object(
                path_object(t.info(id).type_path@).insert("type"@, JsonModel::Str("array"@)).insert(
                    "items"@,
                    optional_info_schema_spec(t, reg, item, visiting.push(id)),
                ),
            ),
            false,
        ),
        t.info(id).kind is SetType ==> inline_schema_spec(t, reg, id, visiting) == (
            JsonModel::Object(
                path_object(t.info(id).type_path@).insert("type"@, JsonModel::Str("array"@)).insert(
                    "uniqueItems"@,
                    JsonModel::Bool(true),
                ),
            ),
            false,
        ),
        t.info(id).kind matches TypeKind::MapType { value } ==> inline_schema_spec(
            t,
            reg,
            id,
            visiting,
        ) == (
            JsonModel::Object(
                path_object(t.info(id).type_path@).insert("type"@, JsonModel::Str("object"@)).insert(
                    "additionalProperties"@,
                    optional_info_schema_spec(t, reg, value, visiting.push(id)),
                ),
            ),
            false,
        ),
{
    let kind = t.info(id).kind;
    if kind is List || kind is SetType || kind is MapType {
        assert(inline_schema_spec(t, reg, id, visiting) == (
            type_schema_spec(t, reg, id, visiting),
            false,
        ));
    }
}

/// An enum that is no `Option`, is not being described already and does
/// not deserialize through serde is named by its path. If all its variants
/// are unit variants it is a string enumeration of their names, in order;
/// else it has no `type` and a `oneOf` with one schema per variant, in
/// order: `{"const": name}` for a unit variant, an object with the single
/// member `name` for any other; each variant's fields are described with
/// the enum among the types being described.
pub proof fn law_enum_schema(t: TypeTable, reg: TypeRegistry, id: usize, visiting: Seq<usize>)
    requires
        t.wf(),
        id < t.len_spec(),
        t.info(id).kind is Enum,
        t.option_inner_spec(id) is None,
        !reg.deserializes_through_serde(id),
        !visiting.contains(id),
    ensures
        inline_schema_spec(t, reg, id, visiting).1 == false,
        inline_schema_spec(t, reg, id, visiting).0 matches JsonModel::Object(m) && m.contains_key(
            "typePath"@,
        ) && m["typePath"@] == JsonModel::Str(t.info(id).type_path@),
        (forall|i: int| 0 <= i < t.enum_variants(id).len() ==> #[trigger] t.enum_variants(id)[i] is Unit)
            ==> inline_schema_spec(t, reg, id, visiting).0 == JsonModel::Object(
            path_object(t.info(id).type_path@).insert("type"@, JsonModel::Str("string"@)).insert(
                "enum"@,
                JsonModel::Array(
                    Seq::new(
                        t.enum_variants(id).len(),
                        |i: int| JsonModel::Str(t.enum_variants(id)[i].name_spec()),
                    ),
                ),
            ),
        ),
        !(forall|i: int|
            0 <= i < t.enum_variants(id).len() ==> #[trigger] t.enum_variants(id)[i] is Unit) ==> {
            &&& inline_schema_spec(t, reg, id, visiting).0 matches JsonModel::Object(m)
            &&& !m.contains_key("type"@)
            &&& m["oneOf"@] matches JsonModel::Array(one_of)
            &&& one_of.len() == t.enum_variants(id).len()
            &&& forall|i: int|
                0 <= i < one_of.len() ==> #[trigger] one_of[i] == variant_schema_spec(
                    t,
                    reg,
                    t.enum_variants(id)[i],
                    visiting.push(id),
                )
            &&& forall|i: int|
                0 <= i < one_of.len() && (#[trigger] t.enum_variants(id)[i]) is Unit ==> one_of[i]
                    == JsonModel::Object(
                    Map::empty().insert("const"@, JsonModel::Str(t.enum_variants(id)[i].name_spec())),
                )
            &&& forall|i: int|
                0 <= i < one_of.len() && !((#[trigger] t.enum_variants(id)[i]) is Unit) ==> exists|
                    payload: JsonModel,
                | one_of[i] == variant_object_spec(t.enum_variants(id)[i].name_spec(), payload)
        },
{
    reveal_strlit("typePath");
    reveal_strlit("type");
    reveal_strlit("oneOf");
    assert("typePath"@.len() == 8);
    assert("type"@.len() == 4);
    assert("oneOf"@.len() == 5);
    assert("type"@ != "typePath"@);
    assert("type"@ != "oneOf"@);
    law_schema_names_its_type(t, reg, id, visiting);
    assert(inline_schema_spec(t, reg, id, visiting) == (type_schema_spec(t, reg, id, visiting), false));
    assert(info_refs_ok(t.types@[id as int], t.len_spec()));
    let variants = t.enum_variants(id);
    let expanding = visiting.push(id);
    assert forall|i: int| 0 <= i < variants.len() implies variant_ok(#[trigger] variants[i], t.len_spec()) by {
    }
    if !(forall|i: int| 0 <= i < variants.len() ==> #[trigger] variants[i] is Unit) {
        let one_of = crate::params::variant_schemas_spec(t, reg, variants, expanding);
        assert forall|i: int| 0 <= i < one_of.len() && !(#[trigger] variants[i] is Unit) implies exists|
            payload: JsonModel,
        | one_of[i] == variant_object_spec(variants[i].name_spec(), payload) by {
            assert(variant_ok(variants[i], t.len_spec()));
            assert(one_of[i] == variant_schema_spec(t, reg, variants[i], expanding));
            match variants[i] {
                crate::type_info::VariantInfo::Tuple { name, fields } => {
                    let payload = if fields@.len() == 1 {
                        unnamed_field_schema_spec(t, reg, fields@[0], expanding)
                    } else {
                        JsonModel::Object(crate::params::tuple_schema_spec(t, reg, fields@, expanding))
                    };
                    assert(one_of[i] == variant_object_spec(variants[i].name_spec(), payload));
                },
                crate::type_info::VariantInfo::Struct { name, fields } => {
                    let results = field_results(t, reg, fields@, expanding);
                    let payload = JsonModel::Object(
                        object_schema(
                            Map::empty(),
                            properties_spec(fields@, results, false),
                            required_spec(fields@, results),
                        ),
                    );
                    assert(one_of[i] == variant_object_spec(variants[i].name_spec(), payload));
                },
                _ => {},
            }
        }
    }
}

/// A tuple struct of one field, that skips no field, is not being described
/// already and does not deserialize through serde, is described as its
/// field, with its own type path in place of the field's; the field is
/// described with the tuple struct among the types being described.
pub proof fn law_newtype_schema(t: TypeTable, reg: TypeRegistry, id: usize, visiting: Seq<usize>)
    requires
        t.wf(),
        id < t.len_spec(),
        t.info(id).kind is TupleStruct,
        t.tuple_struct_fields(id).len() == 1,
        !reg.has_skipped_fields(id),
        !reg.deserializes_through_serde(id),
        !visiting.contains(id),
    ensures
        unnamed_field_schema_spec(t, reg, t.tuple_struct_fields(id)[0], visiting.push(id)) matches JsonModel::Object(
            inner,
        ) && inline_schema_spec(t, reg, id, visiting) == (
            JsonModel::Object(inner.insert("typePath"@, JsonModel::Str(t.info(id).type_path@))),
            false,
        ),
{
    let expanding = visiting.push(id);
    let field = t.tuple_struct_fields(id)[0];
    let path = t.info(id).type_path@;
    assert(info_refs_ok(t.types@[id as int], t.len_spec()));
    assert(ref_ok(field.type_info, t.len_spec()));
    if let Some(f) = field.type_info {
        law_schemas_are_objects(t, reg, f, expanding);
    }
    assert(inline_schema_spec(t, reg, id, visiting) == (type_schema_spec(t, reg, id, visiting), false));
    assert(t.newtype_field_spec(reg, id) == Some(field));
    if let JsonModel::Object(inner) = unnamed_field_schema_spec(t, reg, field, expanding) {
        assert(path_object(path).union_prefer_right(inner).insert("typePath"@, JsonModel::Str(path))
            =~= inner.insert("typePath"@, JsonModel::Str(path)));
    }
}

/// `option_inner` gives the type of the first field of the `Some` variant of
/// an enum whose path is that of an `Option`, and nothing for any other type.
pub proof fn law_option_inner_unwraps(t: TypeTable, id: usize)
    requires
        id < t.len_spec(),
    ensures
        !option_path_prefix().is_prefix_of(t.info(id).type_path@) || !(t.info(id).kind is Enum)
            ==> t.option_inner_spec(id) is None,
        option_path_prefix().is_prefix_of(t.info(id).type_path@) && t.info(id).kind is Enum
            ==> t.option_inner_spec(id) == match find_variant(t.enum_variants(id), "Some"@) {
            Some(j) => if t.enum_variants(id)[j].tuple_fields().len() > 0 {
                t.enum_variants(id)[j].tuple_fields()[0].type_info
            } else {
                None
            },
            None => None,
        },
{
}

} // verus!

verus! {

/// The schema of an opaque type with the path `path`, when it has the JSON type `ty`.
pub open spec fn primitive_schema(path: Seq<char>, ty: Seq<char>) -> JsonModel {
    JsonModel::Object(path_object(path).insert("type"@, JsonModel::Str(ty)))
}

/// Whether `path` is the path of a primitive: `bool`, an integer, a float,
/// `char`, `str` or `String`.
pub open spec fn is_primitive_path(path: Seq<char>) -> bool {
    path == "bool"@ || path == "u8"@ || path == "u16"@ || path == "u32"@ || path == "u64"@ || path
        == "u128"@ || path == "usize"@ || path == "i8"@ || path == "i16"@ || path == "i32"@ || path
        == "i64"@ || path == "i128"@ || path == "isize"@ || path == "f32"@ || path == "f64"@ || path
        == "char"@ || path == "str"@ || path == "alloc::string::String"@
}

/// An opaque primitive is described by its path and the JSON type of its
/// values: `bool` a boolean, every integer primitive an integer, `f32` and
/// `f64` a number, and `char`, `str` and `String` a string; any other opaque
/// type that is not the entity is only named.
pub proof fn law_primitive_schemas(t: TypeTable, reg: TypeRegistry, id: usize, visiting: Seq<usize>)
    requires
        t.wf(),
        id < t.len_spec(),
        t.info(id).kind is Opaque,
        !visiting.contains(id),
    ensures
        t.info(id).type_path@ == "bool"@ ==> inline_schema_spec(t, reg, id, visiting) == (
            primitive_schema(t.info(id).type_path@, "boolean"@),
            false,
        ),
        t.info(id).type_path@ == "u8"@ || t.info(id).type_path@ == "u16"@ || t.info(id).type_path@
            == "u32"@ || t.info(id).type_path@ == "u64"@ || t.info(id).type_path@ == "u128"@ || t.info(
            id,
        ).type_path@ == "usize"@ || t.info(id).type_path@ == "i8"@ || t.info(id).type_path@ == "i16"@
            || t.info(id).type_path@ == "i32"@ || t.info(id).type_path@ == "i64"@ || t.info(
            id,
        ).type_path@ == "i128"@ || t.info(id).type_path@ == "isize"@ ==> inline_schema_spec(
            t,
            reg,
            id,
            visiting,
        ) == (primitive_schema(t.info(id).type_path@, "integer"@), false),
        t.info(id).type_path@ == "f32"@ || t.info(id).type_path@ == "f64"@ ==> inline_schema_spec(
            t,
            reg,
            id,
            visiting,
        ) == (primitive_schema(t.info(id).type_path@, "number"@), false),
        t.info(id).type_path@ == "char"@ || t.info(id).type_path@ == "str"@ || t.info(id).type_path@
            == "alloc::string::String"@ ==> inline_schema_spec(t, reg, id, visiting) == (
            primitive_schema(t.info(id).type_path@, "string"@),
            false,
        ),
        !is_primitive_path(t.info(id).type_path@) && t.entity != Some(id) ==> inline_schema_spec(t, reg, id, visiting) == (
            JsonModel::Object(path_object(t.info(id).type_path@)),
            false,
        ),
{
    let path = t.info(id).type_path@;
    assert(inline_schema_spec(t, reg, id, visiting) == (type_schema_spec(t, reg, id, visiting), false));
    reveal_strlit("bool");
    reveal_strlit("u8");
    reveal_strlit("u16");
    reveal_strlit("u32");
    reveal_strlit("u64");
    reveal_strlit("u128");
    reveal_strlit("usize");
    reveal_strlit("i8");
    reveal_strlit("i16");
    reveal_strlit("i32");
    reveal_strlit("i64");
    reveal_strlit("i128");
    reveal_strlit("isize");
    reveal_strlit("f32");
    reveal_strlit("f64");
    reveal_strlit("char");
    reveal_strlit("str");
    reveal_strlit("alloc::string::String");
    reveal_strlit("bevy_ecs::entity::Entity");
    assert("u128"@[0] != "bool"@[0]);
    assert("i128"@[0] != "bool"@[0]);
    assert("f32"@[0] != "u32"@[0]);
    assert("f32"@[0] != "i32"@[0]);
    assert("f64"@[0] != "u64"@[0]);
    assert("f64"@[0] != "i64"@[0]);
    assert("char"@[0] != "bool"@[0]);
    assert("char"@[0] != "u128"@[0]);
    assert("char"@[0] != "i128"@[0]);
    assert("str"@[0] != "u16"@[0]);
    assert("str"@[0] != "u32"@[0]);
    assert("str"@[0] != "u64"@[0]);
    assert("str"@[0] != "i16"@[0]);
    assert("str"@[0] != "i32"@[0]);
    assert("str"@[0] != "i64"@[0]);
    assert("str"@[0] != "f32"@[0]);
    assert("str"@[0] != "f64"@[0]);
    if path == "char"@ {
        assert(crate::params::opaque_json_type(path) == Some("string"@));
    }
    if path == "str"@ {
        assert(crate::params::opaque_json_type(path) == Some("string"@));
    }
    if path == "alloc::string::String"@ {
        assert(path.len() == 21);
        assert(path != "bool"@);
        assert(path != "u8"@);
        assert(crate::params::opaque_json_type(path) == Some("string"@));
    }
    if t.entity == Some(id) {
        assert(path == crate::type_info::entity_path());
        assert(path.len() == 24);
    }
}

} // verus!
