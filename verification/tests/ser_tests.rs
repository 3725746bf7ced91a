use serde_builder::ser::StructSerializer;
use serde_builder::value::Value;

#[derive(Debug)]
struct TestStruct {
    a_number: u64,
    string: String,
    array_of_strings: Vec<String>,
}

fn sample() -> TestStruct {
    TestStruct {
        a_number: 42,
        string: "foobar".to_string(),
        array_of_strings: vec!["foo".to_string(), "bar".to_string(), "baz".to_string()],
    }
}

#[test]
fn emits_declared_names_in_declaration_order() {
    let ser = StructSerializer::<TestStruct>::new()
        .field("a_number", |v: &TestStruct| Value::UInt(v.a_number))
        .field("string", |v: &TestStruct| Value::Str(v.string.clone()))
        .field("array_of_strings", |v: &TestStruct| {
            Value::List(
                v.array_of_strings
                    .iter()
                    .map(|s| Value::Str(s.clone()))
                    .collect(),
            )
        });
    let value = sample();
    let out = ser.serialize(&value);
    assert_eq!(out.len(), 3);
    assert_eq!(out[0].key, "a_number");
    assert_eq!(out[1].key, "string");
    assert_eq!(out[2].key, "array_of_strings");
    assert_eq!(out[0].value, Value::UInt(42));
    assert_eq!(out[1].value, Value::Str("foobar".to_string()));
    assert_eq!(
        out[2].value,
        Value::List(vec![
            Value::Str("foo".to_string()),
            Value::Str("bar".to_string()),
            Value::Str("baz".to_string()),
        ])
    );
}

#[test]
fn declaration_order_alone_determines_emission_order() {
    // Same accessors, opposite declaration order: the stream follows the
    // declarations, not the source struct's own field layout.
    let ser = StructSerializer::<TestStruct>::new()
        .field("string", |v: &TestStruct| Value::Str(v.string.clone()))
        .field("a_number", |v: &TestStruct| Value::UInt(v.a_number));
    let value = sample();
    let out = ser.serialize(&value);
    assert_eq!(out.len(), 2);
    assert_eq!(out[0].key, "string");
    assert_eq!(out[1].key, "a_number");
}

#[test]
fn single_field_stream() {
    let ser = StructSerializer::<u64>::new().field("n", |v: &u64| Value::UInt(*v));
    let out = ser.serialize(&7);
    assert_eq!(out.len(), 1);
    assert_eq!(out[0].key, "n");
    assert_eq!(out[0].value, Value::UInt(7));
}

#[test]
fn default_serializer_matches_new() {
    let ser: StructSerializer<u64> = StructSerializer::default();
    let out = ser.field("n", |v: &u64| Value::UInt(*v)).serialize(&3);
    assert_eq!(out.len(), 1);
    assert_eq!(out[0].key, "n");
}
