use serde_builder::de::StructDeserializer;
use serde_builder::ser::StructSerializer;
use serde_builder::value::{Value, ValueKind};

#[derive(Debug, PartialEq)]
struct Record {
    number: u64,
    label: String,
    tags: Vec<String>,
}

fn sample() -> Record {
    Record {
        number: 20,
        label: "x".to_string(),
        tags: vec!["p".to_string(), "q".to_string()],
    }
}

fn deserializer() -> impl FnOnce(Vec<serde_builder::value::Entry>) -> Result<
    Record,
    serde_builder::error::Error,
> {
    let de = StructDeserializer::<Record>::new()
        .field("number", ValueKind::UInt)
        .field("label", ValueKind::Str)
        .field("tags", ValueKind::List)
        .final_builder(|mut args: Vec<Value>| {
            let number = match args.remove(0) {
                Value::UInt(n) => n,
                _ => return None,
            };
            let label = match args.remove(0) {
                Value::Str(s) => s,
                _ => return None,
            };
            let tags = match args.remove(0) {
                Value::List(items) => {
                    let mut tags = Vec::new();
                    for item in items {
                        match item {
                            Value::Str(s) => tags.push(s),
                            _ => return None,
                        }
                    }
                    tags
                },
                _ => return None,
            };
            Some(Record { number, label, tags })
        });
    move |entries| de.deserialize(entries)
}

fn serializer() -> StructSerializer<Record, impl FnOnce(&Record) -> Vec<Value>> {
    StructSerializer::<Record>::new()
        .field("number", |v: &Record| Value::UInt(v.number))
        .field("label", |v: &Record| Value::Str(v.label.clone()))
        .field("tags", |v: &Record| {
            Value::List(v.tags.iter().map(|s| Value::Str(s.clone())).collect())
        })
}

#[test]
fn serialize_then_deserialize_reproduces_the_value() {
    let original = sample();
    let stream = serializer().serialize(&original);
    let reproduced = deserializer()(stream);
    assert_eq!(reproduced, Ok(sample()));
}

#[test]
fn round_trip_survives_reordering() {
    let original = sample();
    let mut stream = serializer().serialize(&original);
    stream.reverse();
    let reproduced = deserializer()(stream);
    assert_eq!(reproduced, Ok(sample()));
}
