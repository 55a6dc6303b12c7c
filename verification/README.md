# bevy_remote params descriptions

Describes the params and results of remote methods for `rpc.discover`, from
what reflection knows about their types, and holds untyped JSON params.

- `src/` is the verified library. A reflected type graph is held as a
  numbered `TypeTable` of plain values, with a `TypeRegistry` of what is
  registered for each type; JSON is held as `JsonValue`, whose objects are
  specified as maps. `params` builds the JSON schema of a type and the
  `OpenRPC` params and result of a method, each proved equal to its
  specification; `laws` states what holds of every schema.
- `app/` reads a `bevy_reflect` type graph into a `TypeTable`, converts JSON
  to and from `serde_json`, and calls the reflection deserializer for `Json`
  params, handing its outcome to the library.
- `tests/` runs the library on hand-written type tables.

JSON objects are held in `JsonObject` rather than in `serde_json::Map`: the
members' values are themselves JSON values, whose contents the schema logic
reads (a `type` string, a `oneOf` list), so values and objects are both held
as plain data that the specifications can speak of. Number equality is the
one thing left to `serde_json`: two number texts are equal when `serde_json`
parses them to equal numbers, so `0.0` equals `-0.0` and `1` does not equal
`1.0`.
