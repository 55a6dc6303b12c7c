//! Untyped JSON fields for method params, and the errors that reading them gives.

use vstd::prelude::*;

use crate::error_codes::INVALID_PARAMS;
use crate::json_value::{json_equiv, JsonModel, JsonValue};

verus! {

/// An error answered to a remote request.
#[derive(Debug)]
pub struct BrpError {
    pub code: i16,
    pub message: String,
    pub data: Option<JsonValue>,
}

/// Untyped JSON in method params, for values whose type is only known at runtime.
#[derive(Debug)]
pub struct Json(pub JsonValue);

impl Json {
    /// The JSON value held.
    pub open spec fn model(self) -> JsonModel {
        self.0.model()
    }
}

impl Default for Json {
    fn default() -> (r: Self)
        ensures
            r.0 == JsonValue::Null,
    {
        Json(JsonValue::Null)
    }
}

impl Clone for Json {
    fn clone(&self) -> (r: Self)
        ensures
            r.model() == self.model(),
    {
        Json(self.0.deep_clone())
    }
}

impl PartialEq for Json {
    fn eq(&self, other: &Json) -> (r: bool) {
        self.0.json_eq(&other.0)
    }
}

impl vstd::std_specs::cmp::PartialEqSpecImpl for Json {
    open spec fn obeys_eq_spec() -> bool {
        true
    }

    open spec fn eq_spec(&self, other: &Json) -> bool {
        json_equiv(self.0, other.0)
    }
}

impl From<JsonValue> for Json {
    fn from(value: JsonValue) -> (r: Self) {
        Json(value)
    }
}

impl vstd::std_specs::convert::FromSpecImpl<JsonValue> for Json {
    open spec fn obeys_from_spec() -> bool {
        true
    }

    open spec fn from_spec(value: JsonValue) -> Self {
        Json(value)
    }
}

impl From<Json> for JsonValue {
    fn from(json: Json) -> (r: Self) {
        json.0
    }
}

impl vstd::std_specs::convert::FromSpecImpl<Json> for JsonValue {
    open spec fn obeys_from_spec() -> bool {
        true
    }

    open spec fn from_spec(json: Json) -> Self {
        json.0
    }
}

/// The message for JSON that does not deserialize into the type at `type_path`.
pub open spec fn invalid_message(type_path: Seq<char>, err: Seq<char>) -> Seq<char> {
    type_path + " is invalid: "@ + err
}

/// The message for a reflected value that does not form the type at `type_path`.
pub open spec fn not_formed_message(type_path: Seq<char>) -> Seq<char> {
    "JSON does not form a `"@ + type_path + "`"@
}

/// The error for JSON that does not deserialize into the type at `type_path`.
pub fn invalid_json_error(type_path: &str, err: &str) -> (r: BrpError)
    ensures
        r.code == INVALID_PARAMS,
        r.message@ == invalid_message(type_path@, err@),
        r.data is None,
{
    let mut message = type_path.to_owned();
    message.append(" is invalid: ");
    message.append(err);
    BrpError { code: INVALID_PARAMS, message, data: None }
}

/// The error for a reflected value that does not form the type at `type_path`.
pub fn not_formed_error(type_path: &str) -> (r: BrpError)
    ensures
        r.code == INVALID_PARAMS,
        r.message@ == not_formed_message(type_path@),
        r.data is None,
{
    let mut message = "JSON does not form a `".to_owned();
    message.append(type_path);
    message.append("`");
    BrpError { code: INVALID_PARAMS, message, data: None }
}

/// What deserializing JSON into the type at `type_path` answers, given what the
/// deserializer gave: the value, or an invalid-params error that quotes the
/// deserializer's message.
pub fn deserialize_reflect_result<T>(deserialized: Result<T, String>, type_path: &str) -> (r: Result<
    T,
    BrpError,
>)
    ensures
        match deserialized {
            Ok(v) => r == Ok::<T, BrpError>(v),
            Err(e) => r matches Err(err) && err.code == INVALID_PARAMS && err.message@
                == invalid_message(type_path@, e@) && err.data is None,
        },
{
    match deserialized {
        Ok(v) => Ok(v),
        Err(e) => Err(invalid_json_error(type_path, e.as_str())),
    }
}

/// What deserializing JSON into the type at `type_path` answers, given what
/// came of it: the error of the deserialization, passed on; or, where the
/// deserialized value was converted into the type, the converted value; or,
/// where it could not be converted, an invalid-params error.
pub fn deserialize_result<T>(converted: Result<Option<T>, BrpError>, type_path: &str) -> (r: Result<
    T,
    BrpError,
>)
    ensures
        match converted {
            Err(e) => r == Err::<T, BrpError>(e),
            Ok(Some(v)) => r == Ok::<T, BrpError>(v),
            Ok(None) => r matches Err(err) && err.code == INVALID_PARAMS && err.message@
                == not_formed_message(type_path@) && err.data is None,
        },
{
    match converted {
        Err(e) => Err(e),
        Ok(Some(v)) => Ok(v),
        Ok(None) => Err(not_formed_error(type_path)),
    }
}

} // verus!
