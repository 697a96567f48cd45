//! The formatting path: parse and hand the expression to the external
//! formatter.

use dprint_plugin_typescript::configuration::ConfigurationBuilder;
use schemars_to_zod::schema::{
    InstanceType, InstanceTypes, ObjectValidation, Schema, SchemaObject,
};
use schemars_to_zod::Parser;

#[test]
fn pretty_formats_the_expression() {
    let schema = Schema::Object(SchemaObject {
        metadata: None,
        instance_type: Some(InstanceTypes::Single(InstanceType::Object)),
        format: None,
        enum_values: None,
        const_value: None,
        subschemas: None,
        number: None,
        string: None,
        array: None,
        object: Some(Box::new(ObjectValidation {
            max_properties: None,
            min_properties: None,
            required: vec!["name".to_string()],
            properties: vec![(
                "name".to_string(),
                Schema::Object(SchemaObject {
                    metadata: None,
                    instance_type: Some(InstanceTypes::Single(InstanceType::String)),
                    format: None,
                    enum_values: None,
                    const_value: None,
                    subschemas: None,
                    number: None,
                    string: None,
                    array: None,
                    object: None,
                }),
            )],
            pattern_properties: Vec::new(),
            additional_properties: None,
            property_names: None,
        })),
    });
    let conf = ConfigurationBuilder::new().line_width(60).build();
    let result = Parser::default().parse_pretty(&schema, &conf).unwrap();
    assert!(result.contains("z.object("));
    assert!(result.contains("z.string()"));
}
