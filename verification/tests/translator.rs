//! End-to-end translations of whole schema trees, mirroring the shapes a
//! reflection-based schema generator produces for ordinary Rust types.

use schemars_to_zod::schema::{
    ArrayValidation, InstanceType, InstanceTypes, Items, JsonValue, ObjectValidation, Schema,
    SchemaObject, SubschemaValidation,
};
use schemars_to_zod::Parser;

fn blank() -> SchemaObject {
    SchemaObject {
        metadata: None,
        instance_type: None,
        format: None,
        enum_values: None,
        const_value: None,
        subschemas: None,
        number: None,
        string: None,
        array: None,
        object: None,
    }
}

fn typed(t: InstanceType) -> SchemaObject {
    SchemaObject { instance_type: Some(InstanceTypes::Single(t)), ..blank() }
}

fn string_schema() -> Schema {
    Schema::Object(typed(InstanceType::String))
}

fn int_schema() -> Schema {
    Schema::Object(typed(InstanceType::Integer))
}

fn format_schema(format: &str) -> Schema {
    Schema::Object(SchemaObject { format: Some(format.to_string()), ..typed(InstanceType::String) })
}

fn nullable_schema(t: InstanceType, format: Option<&str>) -> Schema {
    Schema::Object(SchemaObject {
        instance_type: Some(InstanceTypes::Multiple(vec![t, InstanceType::Null])),
        format: format.map(|f| f.to_string()),
        ..blank()
    })
}

fn literal_string(value: &str) -> Schema {
    Schema::Object(SchemaObject {
        enum_values: Some(vec![JsonValue::String(value.to_string())]),
        ..typed(InstanceType::String)
    })
}

fn object_facet(props: Vec<(&str, Schema)>, required: &[&str]) -> ObjectValidation {
    ObjectValidation {
        max_properties: None,
        min_properties: None,
        required: required.iter().map(|r| r.to_string()).collect(),
        properties: props.into_iter().map(|(k, v)| (k.to_string(), v)).collect(),
        pattern_properties: Vec::new(),
        additional_properties: None,
        property_names: None,
    }
}

fn object_schema(props: Vec<(&str, Schema)>, required: &[&str]) -> Schema {
    Schema::Object(SchemaObject {
        object: Some(Box::new(object_facet(props, required))),
        ..typed(InstanceType::Object)
    })
}

#[test]
fn test_string() {
    let schema = object_schema(
        vec![
            ("birthday", format_schema("date")),
            ("createdAt", format_schema("partial-date-time")),
            ("name", string_schema()),
            ("userId", format_schema("uuid")),
        ],
        &["birthday", "createdAt", "name", "userId"],
    );
    let result = Parser::default().parse(&schema).unwrap();
    assert_eq!(
        result,
        "z.object({ \"birthday\": z.iso.date(), \
         \"createdAt\": z.iso.datetime({ offset: true, local: true }), \
         \"name\": z.string(), \"userId\": z.guid() })"
    );
}

#[test]
fn test_number() {
    let schema = object_schema(
        vec![("age", int_schema()), ("distance", Schema::Object(typed(InstanceType::Number)))],
        &["age", "distance"],
    );
    let result = Parser::default().parse(&schema).unwrap();
    assert_eq!(result, "z.object({ \"age\": z.int32(), \"distance\": z.float64() })");
}

#[test]
fn test_array() {
    let element = object_schema(
        vec![
            ("admin", Schema::Object(typed(InstanceType::Boolean))),
            ("age", nullable_schema(InstanceType::Integer, None)),
        ],
        &["admin"],
    );
    let schema = Schema::Object(SchemaObject {
        array: Some(Box::new(ArrayValidation {
            items: Some(Items::Single(Box::new(element))),
            additional_items: None,
            max_items: None,
            min_items: None,
            unique_items: None,
            contains: None,
        })),
        ..typed(InstanceType::Array)
    });
    let result = Parser::default().parse(&schema).unwrap();
    assert_eq!(
        result,
        "z.array(z.object({ \"admin\": z.boolean(), \"age\": z.nullish(z.int32()) }))"
    );
}

#[test]
fn test_enum() {
    let schema = Schema::Object(SchemaObject {
        enum_values: Some(vec![
            JsonValue::String("message".to_string()),
            JsonValue::String("leave".to_string()),
            JsonValue::String("walk".to_string()),
            JsonValue::String("buyATV".to_string()),
        ]),
        ..typed(InstanceType::String)
    });
    let result = Parser::default().parse(&schema).unwrap();
    assert_eq!(result, "z.enum([\"message\", \"leave\", \"walk\", \"buyATV\"])");
}

#[test]
fn test_object() {
    let schema = Schema::Object(SchemaObject {
        object: Some(Box::new(ObjectValidation {
            additional_properties: Some(Box::new(string_schema())),
            ..object_facet(vec![("userId", format_schema("uuid"))], &["userId"])
        })),
        ..typed(InstanceType::Object)
    });
    let result = Parser::default().parse(&schema).unwrap();
    assert_eq!(result, "z.catchall(z.object({ \"userId\": z.guid() }), z.string())");
}

#[test]
fn test_object_2() {
    let value = Schema::Object(SchemaObject {
        object: Some(Box::new(ObjectValidation {
            additional_properties: Some(Box::new(string_schema())),
            ..object_facet(vec![("userId", format_schema("uuid"))], &["userId"])
        })),
        ..typed(InstanceType::Object)
    });
    let schema = Schema::Object(SchemaObject {
        object: Some(Box::new(ObjectValidation {
            additional_properties: Some(Box::new(value)),
            ..object_facet(vec![], &[])
        })),
        ..typed(InstanceType::Object)
    });
    let result = Parser::default().parse(&schema).unwrap();
    assert_eq!(
        result,
        "z.record(z.catchall(z.object({ \"userId\": z.guid() }), z.string()))"
    );
}

#[test]
fn test_object_3() {
    let variant1 = object_schema(
        vec![("key", string_schema()), ("kind", literal_string("Option1"))],
        &["key", "kind"],
    );
    let variant2 = object_schema(
        vec![("key2", int_schema()), ("kind", literal_string("Option2"))],
        &["key2", "kind"],
    );
    let max = Schema::Object(SchemaObject {
        instance_type: Some(InstanceTypes::Multiple(vec![
            InstanceType::Integer,
            InstanceType::Null,
        ])),
        number: Some(Box::new(schemars_to_zod::schema::NumberValidation {
            multiple_of: None,
            minimum: Some("0".to_string()),
            exclusive_minimum: None,
            maximum: Some("255".to_string()),
            exclusive_maximum: None,
        })),
        ..blank()
    });
    let flattened_with_default = Schema::Object(SchemaObject {
        metadata: Some(Box::new(schemars_to_zod::schema::Metadata {
            description: None,
            default: Some(JsonValue::Number("0".to_string())),
        })),
        ..typed(InstanceType::Integer)
    });
    let schema = Schema::Object(SchemaObject {
        subschemas: Some(Box::new(SubschemaValidation {
            one_of: Some(vec![variant1, variant2]),
            any_of: None,
        })),
        object: Some(Box::new(object_facet(
            vec![
                ("a", flattened_with_default),
                ("date", nullable_schema(InstanceType::String, Some("date"))),
                ("max", max),
            ],
            &[],
        ))),
        ..blank()
    });
    let union = "z.discriminatedUnion(\"kind\", [z.object({ \"key\": z.string(), \
                 \"kind\": z.literal(\"Option1\") }), z.object({ \"key2\": z.int32(), \
                 \"kind\": z.literal(\"Option2\") })])";
    let result = Parser::default().parse(&schema).unwrap();
    assert_eq!(
        result,
        format!(
            "z.intersection({union}, z.object({{ \"a\": z.optional(z.int32()), \
             \"date\": z.nullish(z.iso.date()), \
             \"max\": z.nullish(z.uint32().check(z.max(255))) }}))"
        )
    );
    let defaulting = Parser::new(schemars_to_zod::Config {
        add_default: true,
        ..schemars_to_zod::Config::default()
    });
    let with_defaults = defaulting.parse(&schema).unwrap();
    assert_eq!(
        with_defaults,
        format!(
            "z.intersection({union}, z.object({{ \"a\": z.default(z.int32(), 0), \
             \"date\": z.nullish(z.iso.date()), \
             \"max\": z.nullish(z.uint32().check(z.max(255))) }}))"
        )
    );
}

#[test]
fn test_tagged_union() {
    let m1 = object_schema(vec![("kind", literal_string("justTheName"))], &["kind"]);
    let m2 = object_schema(vec![("kind", literal_string("nameAndSingleValue"))], &["kind"]);
    let m3 = object_schema(
        vec![
            ("int", int_schema()),
            ("kind", literal_string("nameAndObject")),
            ("prop", string_schema()),
        ],
        &["int", "kind", "prop"],
    );
    let schema = Schema::Object(SchemaObject {
        subschemas: Some(Box::new(SubschemaValidation {
            one_of: Some(vec![m1, m2, m3]),
            any_of: None,
        })),
        ..blank()
    });
    let result = Parser::default().parse(&schema).unwrap();
    assert_eq!(
        result,
        "z.discriminatedUnion(\"kind\", [z.object({ \"kind\": z.literal(\"justTheName\") }), \
         z.object({ \"kind\": z.literal(\"nameAndSingleValue\") }), \
         z.object({ \"int\": z.int32(), \"kind\": z.literal(\"nameAndObject\"), \
         \"prop\": z.string() })])"
    );
}

#[test]
fn test_double_tagged_union() {
    let m1 = object_schema(vec![("kind", literal_string("justTheName"))], &["kind"]);
    let m2 = object_schema(
        vec![("kind", literal_string("nameAndSingleValue")), ("value", int_schema())],
        &["kind", "value"],
    );
    let tuple_value = Schema::Object(SchemaObject {
        array: Some(Box::new(ArrayValidation {
            items: Some(Items::Tuple(vec![string_schema(), string_schema(), string_schema()])),
            additional_items: None,
            max_items: Some(3),
            min_items: Some(3),
            unique_items: None,
            contains: None,
        })),
        ..typed(InstanceType::Array)
    });
    let m3 = object_schema(
        vec![("kind", literal_string("nameAndTuple")), ("value", tuple_value)],
        &["kind", "value"],
    );
    let object_value = object_schema(
        vec![("int", int_schema()), ("prop", string_schema())],
        &["int", "prop"],
    );
    let m4 = object_schema(
        vec![("kind", literal_string("nameAndObject")), ("value", object_value)],
        &["kind", "value"],
    );
    let schema = Schema::Object(SchemaObject {
        subschemas: Some(Box::new(SubschemaValidation {
            one_of: Some(vec![m1, m2, m3, m4]),
            any_of: None,
        })),
        ..blank()
    });
    let result = Parser::default().parse(&schema).unwrap();
    assert_eq!(
        result,
        "z.discriminatedUnion(\"kind\", [z.object({ \"kind\": z.literal(\"justTheName\") }), \
         z.object({ \"kind\": z.literal(\"nameAndSingleValue\"), \"value\": z.int32() }), \
         z.object({ \"kind\": z.literal(\"nameAndTuple\"), \
         \"value\": z.tuple([z.string(), z.string(), z.string()]) }), \
         z.object({ \"kind\": z.literal(\"nameAndObject\"), \
         \"value\": z.object({ \"int\": z.int32(), \"prop\": z.string() }) })])"
    );
}

#[test]
fn test_untagged_union() {
    let m1 = object_schema(
        vec![("int", int_schema()), ("prop", string_schema())],
        &["int", "prop"],
    );
    let m2 = object_schema(
        vec![("name", string_schema()), ("prop", int_schema())],
        &["name", "prop"],
    );
    let schema = Schema::Object(SchemaObject {
        subschemas: Some(Box::new(SubschemaValidation {
            any_of: Some(vec![m1, m2]),
            one_of: None,
        })),
        ..blank()
    });
    let result = Parser::default().parse(&schema).unwrap();
    assert_eq!(
        result,
        "z.union([z.object({ \"int\": z.int32(), \"prop\": z.string() }), \
         z.object({ \"name\": z.string(), \"prop\": z.int32() })])"
    );
}
