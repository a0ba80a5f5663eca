use symlonk::schema::{config_schema, JsonSchema, TypedJsonSchema};

#[test]
fn new_keeps_its_parts() {
    let schema = JsonSchema::new(Some(TypedJsonSchema::Integer), "T", "D", None);
    assert_eq!(schema.typed_schema, Some(TypedJsonSchema::Integer));
    assert_eq!(schema.title, "T");
    assert_eq!(schema.description, "D");
    assert_eq!(schema.one_of, None);
}

#[test]
fn from_gives_a_bare_schema() {
    let schema = JsonSchema::from(TypedJsonSchema::Boolean);
    assert_eq!(schema, JsonSchema::new(Some(TypedJsonSchema::Boolean), "", "", None));
}

#[test]
fn one_of_wraps_each_type_in_order() {
    let schema = JsonSchema::one_of(
        vec![TypedJsonSchema::String, TypedJsonSchema::Integer, TypedJsonSchema::Boolean],
        "Either",
        "One of three",
    );
    assert_eq!(schema.typed_schema, None);
    assert_eq!(schema.title, "Either");
    assert_eq!(schema.description, "One of three");
    assert_eq!(
        schema.one_of,
        Some(vec![
            JsonSchema::from(TypedJsonSchema::String),
            JsonSchema::from(TypedJsonSchema::Integer),
            JsonSchema::from(TypedJsonSchema::Boolean),
        ])
    );
}

#[test]
fn one_of_nothing_is_an_empty_list() {
    let schema = JsonSchema::one_of(vec![], "", "");
    assert_eq!(schema.one_of, Some(vec![]));
}

#[test]
fn config_schema_has_the_three_top_level_properties() {
    let document = config_schema();
    assert_eq!(document.schema, "http://json-schema.org/draft-07/schema");
    assert_eq!(document.id, None);
    assert_eq!(document.definitions, None);
    assert_eq!(document.json_schema.title, "Symlonk configuration");
    match document.json_schema.typed_schema {
        Some(TypedJsonSchema::Object {
            additional_properties,
            pattern_properties,
            properties,
            required,
        }) => {
            assert!(!additional_properties);
            assert_eq!(pattern_properties, None);
            assert_eq!(required, Some(vec!["config".to_string()]));
            let names: Vec<String> =
                properties.unwrap().into_iter().map(|(name, _)| name).collect();
            assert_eq!(names, vec!["config", "symlinks", "$schema"]);
        }
        other => panic!("not an object: {:?}", other),
    }
}

#[test]
fn config_schema_config_is_root_or_child() {
    let document = config_schema();
    let properties = match document.json_schema.typed_schema {
        Some(TypedJsonSchema::Object { properties: Some(p), .. }) => p,
        other => panic!("not an object: {:?}", other),
    };
    let forms = properties[0].1.one_of.as_ref().unwrap();
    assert_eq!(forms.len(), 2);
    match &forms[0].typed_schema {
        Some(TypedJsonSchema::Object { properties: Some(p), required, .. }) => {
            assert_eq!(p.len(), 2);
            assert_eq!(p[0].0, "source_dir");
            assert_eq!(p[1].0, "destination_dir");
            assert_eq!(
                required,
                &Some(vec!["source_dir".to_string(), "destination_dir".to_string()])
            );
        }
        other => panic!("not an object: {:?}", other),
    }
    match &forms[1].typed_schema {
        Some(TypedJsonSchema::Object { properties: Some(p), required, .. }) => {
            assert_eq!(p.len(), 3);
            assert_eq!(p[0].0, "extends");
            assert_eq!(p[0].1.title, "Parent configuration");
            assert_eq!(required, &Some(vec!["extends".to_string()]));
        }
        other => panic!("not an object: {:?}", other),
    }
}
