//! Every error variant, with an input that produces it, and the
//! precondition-violation paths of the rules that can be called directly.

use schemars_to_zod::schema::{
    ArrayValidation, InstanceType, InstanceTypes, JsonValue, ObjectValidation, Schema,
    SchemaObject, SubschemaValidation,
};
use schemars_to_zod::{Error, Parser};

fn blank() -> SchemaObject {
    SchemaObject {
        metadata: None,
        instance_type: None,
        format: None,
        enum_values: None,
        const_value: None,
        subschemas: None,
        number: None,
        string: None,
        array: None,
        object: None,
    }
}

fn typed(t: InstanceType) -> SchemaObject {
    SchemaObject { instance_type: Some(InstanceTypes::Single(t)), ..blank() }
}

fn empty_facet() -> ObjectValidation {
    ObjectValidation {
        max_properties: None,
        min_properties: None,
        required: vec![],
        properties: vec![],
        pattern_properties: Vec::new(),
        additional_properties: None,
        property_names: None,
    }
}

#[test]
fn featureless_node_is_invalid() {
    let r = Parser::default().parse(&Schema::Object(blank()));
    assert!(matches!(r, Err(Error::SchemaError(_))));
}

#[test]
fn unsupported_array_facets() {
    let p = Parser::default();
    let contains = Schema::Object(SchemaObject {
        array: Some(Box::new(ArrayValidation {
            items: None,
            additional_items: None,
            max_items: None,
            min_items: None,
            unique_items: None,
            contains: Some(Box::new(Schema::Bool(true))),
        })),
        ..typed(InstanceType::Array)
    });
    assert!(matches!(p.parse(&contains), Err(Error::Unimplemented(_))));
    let unique = Schema::Object(SchemaObject {
        array: Some(Box::new(ArrayValidation {
            items: None,
            additional_items: None,
            max_items: None,
            min_items: None,
            unique_items: Some(true),
            contains: None,
        })),
        ..typed(InstanceType::Array)
    });
    assert!(matches!(p.parse(&unique), Err(Error::Unimplemented(_))));
    let unique_false = Schema::Object(SchemaObject {
        array: Some(Box::new(ArrayValidation {
            items: None,
            additional_items: None,
            max_items: None,
            min_items: None,
            unique_items: Some(false),
            contains: None,
        })),
        ..typed(InstanceType::Array)
    });
    assert_eq!(p.parse(&unique_false).unwrap(), "z.array(z.never())");
}

#[test]
fn unsupported_object_facets() {
    let p = Parser::default();
    let min_props = Schema::Object(SchemaObject {
        object: Some(Box::new(ObjectValidation { min_properties: Some(1), ..empty_facet() })),
        ..typed(InstanceType::Object)
    });
    assert!(matches!(p.parse(&min_props), Err(Error::Unimplemented(_))));
    let max_props = Schema::Object(SchemaObject {
        object: Some(Box::new(ObjectValidation { max_properties: Some(4), ..empty_facet() })),
        ..typed(InstanceType::Object)
    });
    assert!(matches!(p.parse(&max_props), Err(Error::Unimplemented(_))));
    let patterned = Schema::Object(SchemaObject {
        object: Some(Box::new(ObjectValidation {
            pattern_properties: vec![("^x".to_string(), Schema::Bool(true))],
            ..empty_facet()
        })),
        ..typed(InstanceType::Object)
    });
    assert!(matches!(p.parse(&patterned), Err(Error::Unimplemented(_))));
    let named = Schema::Object(SchemaObject {
        object: Some(Box::new(ObjectValidation {
            property_names: Some(Box::new(Schema::Bool(true))),
            ..empty_facet()
        })),
        ..typed(InstanceType::Object)
    });
    assert!(matches!(p.parse(&named), Err(Error::Unimplemented(_))));
}

#[test]
fn closed_empty_object_is_unsupported() {
    let p = Parser::default();
    let closed_empty = Schema::Object(SchemaObject {
        object: Some(Box::new(ObjectValidation {
            additional_properties: Some(Box::new(Schema::Bool(false))),
            ..empty_facet()
        })),
        ..typed(InstanceType::Object)
    });
    assert!(matches!(p.parse(&closed_empty), Err(Error::Unimplemented(_))));
}

#[test]
fn union_without_supported_combinator() {
    let p = Parser::default();
    let schema = Schema::Object(SchemaObject {
        subschemas: Some(Box::new(SubschemaValidation { one_of: None, any_of: None })),
        ..blank()
    });
    assert!(matches!(p.parse(&schema), Err(Error::Unimplemented(_))));
}

#[test]
fn malformed_number_literal_fails_encoding() {
    let p = Parser::default();
    let bad = |text: &str| {
        Schema::Object(SchemaObject {
            const_value: Some(JsonValue::Number(text.to_string())),
            ..blank()
        })
    };
    assert!(matches!(p.parse(&bad("abc")), Err(Error::JsonError(_))));
    assert!(matches!(p.parse(&bad("")), Err(Error::JsonError(_))));
    assert!(matches!(p.parse(&bad("01")), Err(Error::JsonError(_))));
    assert!(matches!(p.parse(&bad("1.")), Err(Error::JsonError(_))));
    assert!(matches!(p.parse(&bad("1e")), Err(Error::JsonError(_))));
    assert!(matches!(p.parse(&bad("+1")), Err(Error::JsonError(_))));
    assert_eq!(p.parse(&bad("0")).unwrap(), "z.literal(0)");
    assert_eq!(p.parse(&bad("-3.5")).unwrap(), "z.literal(-3.5)");
    assert_eq!(p.parse(&bad("6.02e23")).unwrap(), "z.literal(6.02e23)");
    assert_eq!(p.parse(&bad("1E-9")).unwrap(), "z.literal(1E-9)");
}

#[test]
fn rules_report_their_preconditions() {
    let p = Parser::default();
    assert!(matches!(
        p.0.parse_enum(&blank()),
        Err(Error::ForgotCheck(_))
    ));
    assert!(matches!(
        p.0.parse_literal(&blank()),
        Err(Error::ForgotCheck(_))
    ));
    assert!(matches!(
        p.0.parse_union(&blank()),
        Err(Error::ForgotCheck(_))
    ));
    let two = SchemaObject {
        enum_values: Some(vec![
            JsonValue::String("a".to_string()),
            JsonValue::String("b".to_string()),
        ]),
        ..blank()
    };
    assert!(matches!(p.0.parse_literal(&two), Err(Error::ForgotCheck(_))));
}

#[test]
fn error_messages_carry_context() {
    let p = Parser::default();
    match p.parse(&Schema::Object(blank())) {
        Err(e) => assert_eq!(
            e.message(),
            "Invalid schema: Schema: a schema has to be a union, a literal or have an instance_type"
        ),
        Ok(_) => panic!("a featureless node must be rejected"),
    }
    match p.0.parse_union(&blank()) {
        Err(e) => assert_eq!(
            e.message(),
            "Forgot a check: Union: parse_union requires property subschemas"
        ),
        Ok(_) => panic!("a node without subschemas is no union"),
    }
    let bad_number = Schema::Object(SchemaObject {
        const_value: Some(JsonValue::Number("one".to_string())),
        ..blank()
    });
    match p.parse(&bad_number) {
        Err(e) => assert_eq!(
            e.message(),
            "Encoding error: a number literal is not in JSON decimal form"
        ),
        Ok(_) => panic!("a malformed number literal must be rejected"),
    }
    assert_eq!(Error::PrettifyError.message(), "Error when prettifying");
}

#[test]
fn empty_enum_rejects_all() {
    let p = Parser::default();
    let empty = SchemaObject { enum_values: Some(vec![]), ..blank() };
    assert_eq!(p.0.parse_enum(&empty).unwrap(), "z.never()");
}

#[test]
fn nested_error_aborts_whole_translation() {
    let p = Parser::default();
    let bad_property = Schema::Object(SchemaObject {
        const_value: Some(JsonValue::Number("nan".to_string())),
        ..blank()
    });
    let schema = Schema::Object(SchemaObject {
        object: Some(Box::new(ObjectValidation {
            required: vec!["x".to_string()],
            properties: vec![("x".to_string(), bad_property)],
            ..empty_facet()
        })),
        ..typed(InstanceType::Object)
    });
    assert!(matches!(p.parse(&schema), Err(Error::JsonError(_))));
}
