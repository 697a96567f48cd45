//! Concrete instances of the library's general properties, plus JSON
//! encoding of literal values through the literal and enum rules.

use schemars_to_zod::schema::{
    ArrayValidation, InstanceType, InstanceTypes, Items, JsonValue, NumberValidation,
    ObjectValidation, Schema, SchemaObject, StringValidation, SubschemaValidation,
};
use schemars_to_zod::{Config, Parser};

fn blank() -> SchemaObject {
    SchemaObject {
        metadata: None,
        instance_type: None,
        format: None,
        enum_values: None,
        const_value: None,
        subschemas: None,
        number: None,
        string: None,
        array: None,
        object: None,
    }
}

fn typed(t: InstanceType) -> SchemaObject {
    SchemaObject { instance_type: Some(InstanceTypes::Single(t)), ..blank() }
}

fn member(kind: &str, extra: (&str, Schema)) -> Schema {
    Schema::Object(SchemaObject {
        object: Some(Box::new(ObjectValidation {
            max_properties: None,
            min_properties: None,
            required: vec![extra.0.to_string(), "kind".to_string()],
            properties: vec![
                (
                    "kind".to_string(),
                    Schema::Object(SchemaObject {
                        enum_values: Some(vec![JsonValue::String(kind.to_string())]),
                        ..typed(InstanceType::String)
                    }),
                ),
                (extra.0.to_string(), extra.1),
            ],
            pattern_properties: Vec::new(),
            additional_properties: None,
            property_names: None,
        })),
        ..typed(InstanceType::Object)
    })
}

#[test]
fn reject_all_under_any_configuration() {
    let everything_on = Config {
        use_coerce_date: true,
        array_wrapper: true,
        explicit_min_max: true,
        add_descriptions: true,
        union_first: true,
        add_default: true,
        prefer_unknown: true,
        ignore_undefined: true,
    };
    assert_eq!(Parser::new(everything_on).parse(&Schema::Bool(false)).unwrap(), "z.never()");
    assert_eq!(Parser::default().parse(&Schema::Bool(false)).unwrap(), "z.never()");
}

#[test]
fn reject_all_nested_inside_an_array() {
    let schema = Schema::Object(SchemaObject {
        array: Some(Box::new(ArrayValidation {
            items: Some(Items::Single(Box::new(Schema::Bool(false)))),
            additional_items: None,
            max_items: None,
            min_items: None,
            unique_items: None,
            contains: None,
        })),
        ..typed(InstanceType::Array)
    });
    assert_eq!(Parser::default().parse(&schema).unwrap(), "z.array(z.never())");
}

#[test]
fn translation_is_deterministic() {
    let schema = || {
        member(
            "A",
            ("x", Schema::Object(typed(InstanceType::Number))),
        )
    };
    let p = Parser::default();
    let first = p.parse(&schema()).unwrap();
    let second = p.parse(&schema()).unwrap();
    assert_eq!(first, second);
}

#[test]
fn shared_literal_key_discriminates() {
    let schema = Schema::Object(SchemaObject {
        subschemas: Some(Box::new(SubschemaValidation {
            one_of: Some(vec![
                member("A", ("x", Schema::Object(typed(InstanceType::Number)))),
                member("B", ("y", Schema::Object(typed(InstanceType::String)))),
            ]),
            any_of: None,
        })),
        ..blank()
    });
    let result = Parser::default().parse(&schema).unwrap();
    assert!(result.starts_with("z.discriminatedUnion(\"kind\", ["));
    assert_eq!(
        result,
        "z.discriminatedUnion(\"kind\", [z.object({ \"kind\": z.literal(\"A\"), \
         \"x\": z.float64() }), z.object({ \"kind\": z.literal(\"B\"), \
         \"y\": z.string() })])"
    );
}

#[test]
fn distinct_literal_keys_stay_a_plain_union() {
    let one = Schema::Object(SchemaObject {
        object: Some(Box::new(ObjectValidation {
            max_properties: None,
            min_properties: None,
            required: vec!["tag".to_string()],
            properties: vec![(
                "tag".to_string(),
                Schema::Object(SchemaObject {
                    enum_values: Some(vec![JsonValue::String("A".to_string())]),
                    ..typed(InstanceType::String)
                }),
            )],
            pattern_properties: Vec::new(),
            additional_properties: None,
            property_names: None,
        })),
        ..typed(InstanceType::Object)
    });
    let other = member("B", ("y", Schema::Object(typed(InstanceType::String))));
    let schema = Schema::Object(SchemaObject {
        subschemas: Some(Box::new(SubschemaValidation {
            one_of: Some(vec![one, other]),
            any_of: None,
        })),
        ..blank()
    });
    let result = Parser::default().parse(&schema).unwrap();
    assert!(result.starts_with("z.union(["));
}

#[test]
fn two_shared_literal_keys_stay_a_plain_union() {
    let twice = |a: &str, b: &str| {
        Schema::Object(SchemaObject {
            object: Some(Box::new(ObjectValidation {
                max_properties: None,
                min_properties: None,
                required: vec!["kind".to_string(), "sub".to_string()],
                properties: vec![
                    (
                        "kind".to_string(),
                        Schema::Object(SchemaObject {
                            enum_values: Some(vec![JsonValue::String(a.to_string())]),
                            ..typed(InstanceType::String)
                        }),
                    ),
                    (
                        "sub".to_string(),
                        Schema::Object(SchemaObject {
                            enum_values: Some(vec![JsonValue::String(b.to_string())]),
                            ..typed(InstanceType::String)
                        }),
                    ),
                ],
                pattern_properties: Vec::new(),
                additional_properties: None,
                property_names: None,
            })),
            ..typed(InstanceType::Object)
        })
    };
    let schema = Schema::Object(SchemaObject {
        subschemas: Some(Box::new(SubschemaValidation {
            one_of: Some(vec![twice("A", "a"), twice("B", "b")]),
            any_of: None,
        })),
        ..blank()
    });
    let result = Parser::default().parse(&schema).unwrap();
    assert!(result.starts_with("z.union(["));
}

#[test]
fn exact_length_yields_one_modifier() {
    let schema = Schema::Object(SchemaObject {
        string: Some(Box::new(StringValidation {
            min_length: Some(5),
            max_length: Some(5),
            pattern: None,
        })),
        ..typed(InstanceType::String)
    });
    let result = Parser::default().parse(&schema).unwrap();
    assert_eq!(result, "z.string().length(5)");
    assert!(!result.contains("minLength"));
    assert!(!result.contains("maxLength"));
}

#[test]
fn bounded_string_array_keeps_both_bounds() {
    let schema = Schema::Object(SchemaObject {
        array: Some(Box::new(ArrayValidation {
            items: Some(Items::Single(Box::new(Schema::Object(typed(InstanceType::String))))),
            additional_items: None,
            max_items: Some(3),
            min_items: Some(1),
            unique_items: None,
            contains: None,
        })),
        ..typed(InstanceType::Array)
    });
    assert_eq!(
        Parser::default().parse(&schema).unwrap(),
        "z.array(z.string()).check(z.minLength(1), z.maxLength(3))"
    );
}

#[test]
fn two_element_tuple_has_no_length_modifiers() {
    let schema = Schema::Object(SchemaObject {
        array: Some(Box::new(ArrayValidation {
            items: Some(Items::Tuple(vec![
                Schema::Object(typed(InstanceType::String)),
                Schema::Object(typed(InstanceType::Number)),
            ])),
            additional_items: None,
            max_items: Some(2),
            min_items: Some(2),
            unique_items: None,
            contains: None,
        })),
        ..typed(InstanceType::Array)
    });
    let result = Parser::default().parse(&schema).unwrap();
    assert_eq!(result, "z.tuple([z.string(), z.float64()])");
    assert!(!result.contains("Length"));
}

#[test]
fn closed_object_with_a_property_is_strict() {
    let schema = Schema::Object(SchemaObject {
        object: Some(Box::new(ObjectValidation {
            max_properties: None,
            min_properties: None,
            required: vec!["name".to_string()],
            properties: vec![("name".to_string(), Schema::Object(typed(InstanceType::String)))],
            pattern_properties: Vec::new(),
            additional_properties: Some(Box::new(Schema::Bool(false))),
            property_names: None,
        })),
        ..typed(InstanceType::Object)
    });
    assert_eq!(
        Parser::default().parse(&schema).unwrap(),
        "z.strictObject({ \"name\": z.string() })"
    );
}

#[test]
fn singleton_one_of_equals_direct_translation() {
    let inner = || {
        Schema::Object(SchemaObject {
            string: Some(Box::new(StringValidation {
                min_length: Some(2),
                max_length: None,
                pattern: None,
            })),
            ..typed(InstanceType::String)
        })
    };
    let wrapped = Schema::Object(SchemaObject {
        subschemas: Some(Box::new(SubschemaValidation {
            one_of: Some(vec![inner()]),
            any_of: None,
        })),
        ..blank()
    });
    let p = Parser::default();
    assert_eq!(p.parse(&wrapped).unwrap(), p.parse(&inner()).unwrap());
}

#[test]
fn enum_pair_lists_both_literals() {
    let p = Parser::default();
    let pair = Schema::Object(SchemaObject {
        enum_values: Some(vec![
            JsonValue::String("a".to_string()),
            JsonValue::String("b".to_string()),
        ]),
        ..typed(InstanceType::String)
    });
    assert_eq!(p.parse(&pair).unwrap(), "z.enum([\"a\", \"b\"])");
    let singleton = Schema::Object(SchemaObject {
        enum_values: Some(vec![JsonValue::String("a".to_string())]),
        ..typed(InstanceType::String)
    });
    let single = p.parse(&singleton).unwrap();
    assert_eq!(single, "z.literal(\"a\")");
    assert!(!single.contains("z.enum"));
}

#[test]
fn literal_values_are_json_encoded() {
    let p = Parser::default();
    let of = |v: JsonValue| Schema::Object(SchemaObject { const_value: Some(v), ..blank() });
    assert_eq!(p.parse(&of(JsonValue::Null)).unwrap(), "z.literal(null)");
    assert_eq!(p.parse(&of(JsonValue::Bool(true))).unwrap(), "z.literal(true)");
    assert_eq!(p.parse(&of(JsonValue::Bool(false))).unwrap(), "z.literal(false)");
    assert_eq!(
        p.parse(&of(JsonValue::String("say \"hi\"\\\n\tok\u{1}\u{1f}é".to_string()))).unwrap(),
        "z.literal(\"say \\\"hi\\\"\\\\\\n\\tok\\u0001\\u001fé\")"
    );
    assert_eq!(
        p.parse(&of(JsonValue::Array(vec![
            JsonValue::Number("1".to_string()),
            JsonValue::String("x".to_string()),
            JsonValue::Null,
        ])))
        .unwrap(),
        "z.literal([1,\"x\",null])"
    );
    assert_eq!(
        p.parse(&of(JsonValue::Object(vec![
            ("a".to_string(), JsonValue::Number("10".to_string())),
            ("b".to_string(), JsonValue::Array(vec![])),
        ])))
        .unwrap(),
        "z.literal({\"a\":10,\"b\":[]})"
    );
}

#[test]
fn large_lengths_render_in_decimal() {
    let schema = Schema::Object(SchemaObject {
        string: Some(Box::new(StringValidation {
            min_length: Some(0),
            max_length: Some(4294967295),
            pattern: None,
        })),
        ..typed(InstanceType::String)
    });
    assert_eq!(
        Parser::default().parse(&schema).unwrap(),
        "z.string().minLength(0).maxLength(4294967295)"
    );
}

#[test]
fn well_formedness_check() {
    let object_of = |props: Vec<(&str, Schema)>| {
        Schema::Object(SchemaObject {
            object: Some(Box::new(ObjectValidation {
                max_properties: None,
                min_properties: None,
                required: vec![],
                properties: props.into_iter().map(|(k, v)| (k.to_string(), v)).collect(),
                pattern_properties: Vec::new(),
                additional_properties: None,
                property_names: None,
            })),
            ..typed(InstanceType::Object)
        })
    };
    let string_node = || Schema::Object(typed(InstanceType::String));
    assert!(object_of(vec![("a", string_node()), ("b", string_node())]).wf_check());
    assert!(!object_of(vec![("b", string_node()), ("a", string_node())]).wf_check());
    assert!(!object_of(vec![("a", string_node()), ("a", string_node())]).wf_check());
    let bad_bound = Schema::Object(SchemaObject {
        number: Some(Box::new(NumberValidation {
            multiple_of: None,
            minimum: Some("one".to_string()),
            exclusive_minimum: None,
            maximum: None,
            exclusive_maximum: None,
        })),
        ..typed(InstanceType::Integer)
    });
    assert!(!bad_bound.wf_check());
    let good_bound = Schema::Object(SchemaObject {
        number: Some(Box::new(NumberValidation {
            multiple_of: None,
            minimum: Some("-1.5e3".to_string()),
            exclusive_minimum: None,
            maximum: None,
            exclusive_maximum: None,
        })),
        ..typed(InstanceType::Integer)
    });
    assert!(good_bound.wf_check());
}
