# vc_reflect

Dynamic reflection for Rust values, verified with Verus.

A reflected value (`value::Value`) is either a primitive (unit, `bool`, integers of every width,
`char`, `String`) or a dynamic container (array, list, tuple, tuple struct, struct, map, set, enum) that
may represent a type described by `info::TypeInfo`. Types are registered in a
`registry::TypeRegistry` together with their capabilities (default value, conversion,
serializer, deserializer). Serialization turns a reflected value into `serde::Serial`, the data
model of serialization formats, guided by the type information; deserialization reads it back
as a registered type.

## Layout

- `src/info.rs`: type information and type paths.
- `src/value.rs`: reflected values and their mathematical content (`Value::deep`).
- `src/ops/`: the dynamic containers and their operations.
- `src/reflection.rs`: conversions between Rust values and reflected values.
- `src/registry/`: type registrations and the registry with its path and name indices.
- `src/serde/`: serialization, deserialization, and the law that ties them together
  (`serde::lemma_roundtrip`).
- `tests/`: tests of the library on concrete values.
- `app/`: the glue to `serde_core` (`Serialize` and `DeserializeSeed` over `Serial`) and a shared,
  lock-protected registry.

## What is proved

Every executable function in `src/` carries a contract over the mathematical content of its
inputs and outputs. Beyond the contracts, proof functions state laws that span several calls:
what a lookup finds after an insertion or a removal in a map or a set, what the registry's
indices give back after a registration, what iterating a list or an enum's fields yields, and
that deserializing what serialization wrote, as the type the value conforms to, gives back the
value's content. Copies keep, besides the content (`Value::deep`), the represented types and
variant indices at every level (`Value::marks`).

Reflection's equality (`Value::reflect_eq`, over `value::data_eq`) compares maps by their entries
and sets by their values whatever their order. Sets and maps tell values and keys apart by that
equality taken each way round (`value::same_content`), which is proved to be an equivalence
(`value::lemma_same_content_equivalence`).

Deserialization states, besides the content it reads (`serde::de_spec`), the represented types of
what it builds at every level (`serde::typed_by`): each container represents the type that the
registry gives for its place, and a skipped field holds its type's default value.
