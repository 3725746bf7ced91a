use serde_builder::de::StructDeserializer;
use serde_builder::error::Error;
use serde_builder::value::{Entry, Value, ValueKind};

#[derive(Debug, PartialEq)]
struct Pair {
    a: u64,
    b: u64,
}

fn pair_builder(mut args: Vec<Value>) -> Option<Pair> {
    let a = match args.remove(0) {
        Value::UInt(n) => n,
        _ => return None,
    };
    let b = match args.remove(0) {
        Value::UInt(n) => n,
        _ => return None,
    };
    Some(Pair { a, b })
}

fn entry(key: &str, value: Value) -> Entry {
    Entry::new(key.to_string(), value)
}

#[test]
fn two_fields_assemble() {
    let de = StructDeserializer::<Pair>::new()
        .field("a", ValueKind::UInt)
        .field("b", ValueKind::UInt)
        .final_builder(pair_builder);
    let entries = vec![entry("a", Value::UInt(1)), entry("b", Value::UInt(2))];
    assert_eq!(de.deserialize(entries), Ok(Pair { a: 1, b: 2 }));
}

#[test]
fn read_order_is_irrelevant() {
    let mk = || {
        StructDeserializer::<Pair>::new()
            .field("a", ValueKind::UInt)
            .field("b", ValueKind::UInt)
            .final_builder(pair_builder)
    };
    let forward = vec![entry("a", Value::UInt(1)), entry("b", Value::UInt(2))];
    let backward = vec![entry("b", Value::UInt(2)), entry("a", Value::UInt(1))];
    let interleaved = vec![
        entry("z", Value::Str("ignored".to_string())),
        entry("b", Value::UInt(2)),
        entry("y", Value::Bool(true)),
        entry("a", Value::UInt(1)),
    ];
    let expected = Pair { a: 1, b: 2 };
    assert_eq!(mk().deserialize(forward), Ok(Pair { a: 1, b: 2 }));
    assert_eq!(mk().deserialize(backward), Ok(expected));
    assert_eq!(
        mk().deserialize(interleaved),
        Ok(Pair { a: 1, b: 2 })
    );
}

#[test]
fn missing_field_names_first_missing() {
    let de = StructDeserializer::<Pair>::new()
        .field("a", ValueKind::UInt)
        .field("b", ValueKind::UInt)
        .final_builder(pair_builder);
    let entries = vec![entry("a", Value::UInt(1))];
    assert_eq!(
        de.deserialize(entries),
        Err(Error::MissingField("b".to_string()))
    );
}

#[test]
fn missing_field_reports_declaration_order() {
    let de = StructDeserializer::<Pair>::new()
        .field("a", ValueKind::UInt)
        .field("b", ValueKind::UInt)
        .final_builder(pair_builder);
    assert_eq!(
        de.deserialize(Vec::new()),
        Err(Error::MissingField("a".to_string()))
    );
}

#[test]
fn duplicate_field_is_terminal() {
    let de = StructDeserializer::<Pair>::new()
        .field("a", ValueKind::UInt)
        .field("b", ValueKind::UInt)
        .final_builder(pair_builder);
    let entries = vec![
        entry("a", Value::UInt(1)),
        entry("a", Value::UInt(1)),
        entry("b", Value::UInt(2)),
    ];
    assert_eq!(
        de.deserialize(entries),
        Err(Error::DuplicateField("a".to_string()))
    );
}

#[test]
fn unknown_fields_are_tolerated() {
    let de = StructDeserializer::<u64>::new()
        .field("a", ValueKind::UInt)
        .final_builder(|mut args: Vec<Value>| match args.remove(0) {
            Value::UInt(n) => Some(n),
            _ => None,
        });
    let entries = vec![
        entry("a", Value::UInt(1)),
        entry("z", Value::Str("ignored".to_string())),
    ];
    assert_eq!(de.deserialize(entries), Ok(1));
}

#[test]
fn unknown_fields_may_repeat() {
    let de = StructDeserializer::<u64>::new()
        .field("a", ValueKind::UInt)
        .final_builder(|mut args: Vec<Value>| match args.remove(0) {
            Value::UInt(n) => Some(n),
            _ => None,
        });
    let entries = vec![
        entry("z", Value::UInt(7)),
        entry("a", Value::UInt(1)),
        entry("z", Value::UInt(8)),
    ];
    assert_eq!(de.deserialize(entries), Ok(1));
}

#[test]
fn mistyped_field_is_terminal() {
    let de = StructDeserializer::<Pair>::new()
        .field("a", ValueKind::UInt)
        .field("b", ValueKind::UInt)
        .final_builder(pair_builder);
    let entries = vec![
        entry("a", Value::Str("one".to_string())),
        entry("b", Value::UInt(2)),
    ];
    assert_eq!(
        de.deserialize(entries),
        Err(Error::Mistyped {
            field: "a".to_string(),
            expected: ValueKind::UInt,
            found: ValueKind::Str,
        })
    );
}

#[test]
fn duplicate_wins_over_mistype_order() {
    // The engine reads the stream front to back: the duplicate under "a"
    // comes before the mistyped "b", so the duplicate is reported.
    let de = StructDeserializer::<Pair>::new()
        .field("a", ValueKind::UInt)
        .field("b", ValueKind::UInt)
        .final_builder(pair_builder);
    let entries = vec![
        entry("a", Value::UInt(1)),
        entry("a", Value::UInt(2)),
        entry("b", Value::Str("two".to_string())),
    ];
    assert_eq!(
        de.deserialize(entries),
        Err(Error::DuplicateField("a".to_string()))
    );
}

#[test]
fn validator_rejection_is_reported() {
    let de = StructDeserializer::<i64>::new()
        .field("a", ValueKind::Int)
        .final_builder(|mut args: Vec<Value>| match args.remove(0) {
            Value::Int(n) => Some(n),
            _ => None,
        })
        .validator(|t: &i64| {
            if *t < 0 {
                Err("negative".to_string())
            } else {
                Ok(())
            }
        });
    let entries = vec![entry("a", Value::Int(-5))];
    assert_eq!(
        de.deserialize(entries),
        Err(Error::Validation("negative".to_string()))
    );
}

#[test]
fn validator_acceptance_passes_value_through() {
    let de = StructDeserializer::<i64>::new()
        .field("a", ValueKind::Int)
        .final_builder(|mut args: Vec<Value>| match args.remove(0) {
            Value::Int(n) => Some(n),
            _ => None,
        })
        .validator(|t: &i64| {
            if *t < 0 {
                Err("negative".to_string())
            } else {
                Ok(())
            }
        });
    let entries = vec![entry("a", Value::Int(5))];
    assert_eq!(de.deserialize(entries), Ok(5));
}

#[test]
fn assembly_refusal_is_reported() {
    let de = StructDeserializer::<u64>::new()
        .field("a", ValueKind::UInt)
        .final_builder(|_args: Vec<Value>| -> Option<u64> { None });
    let entries = vec![entry("a", Value::UInt(1))];
    assert_eq!(de.deserialize(entries), Err(Error::Assembly));
}

#[test]
fn first_fields_declares_two_at_once() {
    let de = StructDeserializer::<Pair>::new()
        .first_fields("a", ValueKind::UInt, "b", ValueKind::UInt)
        .final_builder(pair_builder);
    let entries = vec![entry("b", Value::UInt(9)), entry("a", Value::UInt(3))];
    assert_eq!(de.deserialize(entries), Ok(Pair { a: 3, b: 9 }));
}

#[test]
fn default_builder_matches_new() {
    let de: StructDeserializer<u64> = StructDeserializer::default();
    let de = de
        .field("a", ValueKind::UInt)
        .final_builder(|mut args: Vec<Value>| match args.remove(0) {
            Value::UInt(n) => Some(n),
            _ => None,
        });
    assert_eq!(de.deserialize(vec![entry("a", Value::UInt(4))]), Ok(4));
}

#[test]
fn value_kinds_are_reported() {
    assert_eq!(Value::Bool(true).kind(), ValueKind::Bool);
    assert_eq!(Value::UInt(1).kind(), ValueKind::UInt);
    assert_eq!(Value::Int(-1).kind(), ValueKind::Int);
    assert_eq!(Value::Str("s".to_string()).kind(), ValueKind::Str);
    assert_eq!(Value::List(Vec::new()).kind(), ValueKind::List);
}

#[test]
fn end_to_end_example() {
    #[derive(Debug, PartialEq)]
    struct TestStruct {
        number: u32,
        label: String,
        tags: Vec<String>,
    }

    let mk = || {
        StructDeserializer::<TestStruct>::new()
            .field("number", ValueKind::UInt)
            .field("label", ValueKind::Str)
            .field("tags", ValueKind::List)
            .final_builder(|mut args: Vec<Value>| {
                let number = match args.remove(0) {
                    Value::UInt(n) => u32::try_from(n).ok()?,
                    _ => return None,
                };
                let label = match args.remove(0) {
                    Value::Str(s) => s,
                    _ => return None,
                };
                let tags = match args.remove(0) {
                    Value::List(items) => {
                        let mut tags = Vec::new();
                        for item in items {
                            match item {
                                Value::Str(s) => tags.push(s),
                                _ => return None,
                            }
                        }
                        tags
                    },
                    _ => return None,
                };
                Some(TestStruct { number, label, tags })
            })
    };

    let entries = vec![
        entry("number", Value::UInt(20)),
        entry("label", Value::Str("x".to_string())),
        entry(
            "tags",
            Value::List(vec![
                Value::Str("p".to_string()),
                Value::Str("q".to_string()),
            ]),
        ),
    ];
    assert_eq!(
        mk().deserialize(entries),
        Ok(TestStruct {
            number: 20,
            label: "x".to_string(),
            tags: vec!["p".to_string(), "q".to_string()],
        })
    );

    let missing_tags = vec![
        entry("number", Value::UInt(20)),
        entry("label", Value::Str("x".to_string())),
    ];
    assert_eq!(
        mk().deserialize(missing_tags),
        Err(Error::MissingField("tags".to_string()))
    );
}
