use aggregator::json::{find_member, member, object_value, text_value, JsonValue, Member};
use aggregator::registry::{
    auto_register, cache_from_records, init_schema_cache, permissive_schema, register_event_type,
    validate_event_metadata, LoadError, SchemaCache, SchemaRecord, StoredSchema,
};
use aggregator::schema::{
    read_type_word, validate_against_schema, validate_array_items, validate_object_properties,
    validate_schema_structure, value_has_type, Defect, InvalidSchema, JsonType, PathStep,
    TypeWord, ValidationError,
};

fn num(text: &str) -> JsonValue {
    JsonValue::Number(text.to_string())
}

fn text(t: &str) -> JsonValue {
    JsonValue::Text(t.to_string())
}

fn obj(members: Vec<(&str, JsonValue)>) -> JsonValue {
    JsonValue::Object(
        members.into_iter().map(|(k, v)| Member { key: k.to_string(), value: v }).collect(),
    )
}

fn of_type(word: &str) -> JsonValue {
    obj(vec![("type", text(word))])
}

fn count_and_tags_schema() -> JsonValue {
    obj(vec![
        ("type", text("object")),
        (
            "properties",
            obj(vec![
                ("count", of_type("number")),
                ("tags", obj(vec![("type", text("array")), ("items", of_type("string"))])),
            ]),
        ),
    ])
}

fn count_schema() -> JsonValue {
    obj(vec![("type", text("object")), ("properties", obj(vec![("count", of_type("number"))]))])
}

fn error(defect: Defect, path: Vec<PathStep>) -> ValidationError {
    ValidationError { defect, path }
}

fn key(k: &str) -> PathStep {
    PathStep::Key(k.to_string())
}

#[test]
fn test_schema_validation() {
    let mut cache = init_schema_cache(Vec::new()).unwrap();

    let schema = count_and_tags_schema();
    register_event_type(&mut cache, "test", "test_event", schema).unwrap();

    let valid_data = obj(vec![
        ("count", num("42")),
        ("tags", JsonValue::Array(vec![text("test"), text("validation")])),
    ]);
    validate_event_metadata(&cache, "test", "test_event", &valid_data).unwrap();

    let invalid_data = obj(vec![
        ("count", text("not a number")),
        ("tags", JsonValue::Array(vec![num("1"), num("2"), num("3")])),
    ]);
    assert!(validate_event_metadata(&cache, "test", "test_event", &invalid_data).is_err());
}

#[test]
fn wrong_count_fails_and_right_count_passes() {
    let mut cache = SchemaCache::new();
    register_event_type(&mut cache, "app", "click", count_schema()).unwrap();
    let bad = obj(vec![("count", text("x"))]);
    let good = obj(vec![("count", num("1"))]);
    assert_eq!(
        validate_event_metadata(&cache, "app", "click", &bad),
        Err(error(Defect::Expected(JsonType::Number), vec![key("count")]))
    );
    assert_eq!(validate_event_metadata(&cache, "app", "click", &good), Ok(()));
}

#[test]
fn reregistration_replaces_the_schema() {
    let mut cache = SchemaCache::new();
    register_event_type(&mut cache, "app", "click", count_schema()).unwrap();
    let data = obj(vec![("count", text("many"))]);
    assert!(validate_event_metadata(&cache, "app", "click", &data).is_err());

    let relaxed =
        obj(vec![("type", text("object")), ("properties", obj(vec![("count", of_type("string"))]))]);
    register_event_type(&mut cache, "app", "click", relaxed.clone()).unwrap();
    assert_eq!(validate_event_metadata(&cache, "app", "click", &data), Ok(()));
    assert_eq!(cache.get("app", "click"), Some(&relaxed));
    let number = obj(vec![("count", num("3"))]);
    assert!(validate_event_metadata(&cache, "app", "click", &number).is_err());
}

#[test]
fn unknown_event_type_passes() {
    let cache = SchemaCache::new();
    assert!(!cache.contains("app", "never_seen"));
    assert_eq!(validate_event_metadata(&cache, "app", "never_seen", &num("1")), Ok(()));
}

#[test]
fn registration_is_by_source_and_event_type() {
    let mut cache = SchemaCache::new();
    register_event_type(&mut cache, "app", "click", of_type("number")).unwrap();
    register_event_type(&mut cache, "web", "click", of_type("string")).unwrap();
    register_event_type(&mut cache, "app", "scroll", of_type("boolean")).unwrap();
    assert_eq!(cache.get("app", "click"), Some(&of_type("number")));
    assert_eq!(cache.get("web", "click"), Some(&of_type("string")));
    assert_eq!(cache.get("app", "scroll"), Some(&of_type("boolean")));
    assert_eq!(cache.get("web", "scroll"), None);
    assert!(validate_event_metadata(&cache, "app", "click", &text("x")).is_err());
    assert!(validate_event_metadata(&cache, "web", "click", &text("x")).is_ok());
}

#[test]
fn invalid_schemas_are_rejected_and_leave_the_registry_alone() {
    let mut cache = SchemaCache::new();
    register_event_type(&mut cache, "app", "click", of_type("number")).unwrap();
    assert_eq!(
        register_event_type(&mut cache, "app", "click", text("object")),
        Err(InvalidSchema::NotAnObject)
    );
    assert_eq!(
        register_event_type(&mut cache, "app", "click", obj(vec![("properties", obj(vec![]))])),
        Err(InvalidSchema::MissingType)
    );
    assert_eq!(
        register_event_type(
            &mut cache,
            "app",
            "click",
            obj(vec![("type", text("object")), ("properties", num("1"))])
        ),
        Err(InvalidSchema::PropertiesNotObject)
    );
    assert_eq!(cache.get("app", "click"), Some(&of_type("number")));
}

#[test]
fn schema_structure() {
    assert_eq!(validate_schema_structure(&JsonValue::Null), Err(InvalidSchema::NotAnObject));
    assert_eq!(
        validate_schema_structure(&JsonValue::Array(vec![])),
        Err(InvalidSchema::NotAnObject)
    );
    assert_eq!(validate_schema_structure(&obj(vec![])), Err(InvalidSchema::MissingType));
    assert_eq!(validate_schema_structure(&of_type("object")), Ok(()));
    // The kind of the `type` member is not looked at here.
    assert_eq!(validate_schema_structure(&obj(vec![("type", num("1"))])), Ok(()));
    assert_eq!(validate_schema_structure(&count_and_tags_schema()), Ok(()));
    assert_eq!(validate_schema_structure(&permissive_schema()), Ok(()));
}

#[test]
fn leaf_types() {
    assert_eq!(validate_against_schema(&text("a"), &of_type("string")), Ok(()));
    assert_eq!(validate_against_schema(&num("1.5"), &of_type("number")), Ok(()));
    assert_eq!(validate_against_schema(&JsonValue::Bool(true), &of_type("boolean")), Ok(()));
    assert_eq!(
        validate_against_schema(&num("1"), &of_type("string")),
        Err(error(Defect::Expected(JsonType::String), vec![]))
    );
    assert_eq!(
        validate_against_schema(&JsonValue::Null, &of_type("number")),
        Err(error(Defect::Expected(JsonType::Number), vec![]))
    );
    assert_eq!(
        validate_against_schema(&text("true"), &of_type("boolean")),
        Err(error(Defect::Expected(JsonType::Boolean), vec![]))
    );
    assert_eq!(
        validate_against_schema(&JsonValue::Array(vec![]), &of_type("object")),
        Err(error(Defect::Expected(JsonType::Object), vec![]))
    );
    assert_eq!(
        validate_against_schema(&obj(vec![]), &of_type("array")),
        Err(error(Defect::Expected(JsonType::Array), vec![]))
    );
}

#[test]
fn unsupported_type_words_admit_everything() {
    for data in [JsonValue::Null, num("1"), text("x"), obj(vec![]), JsonValue::Array(vec![])] {
        assert_eq!(validate_against_schema(&data, &of_type("integer")), Ok(()));
        assert_eq!(validate_against_schema(&data, &of_type("null")), Ok(()));
        // A schema without a type admits everything too.
        assert_eq!(validate_against_schema(&data, &obj(vec![])), Ok(()));
    }
}

#[test]
fn defects_of_the_schema_are_reported() {
    assert_eq!(
        validate_against_schema(&num("1"), &text("number")),
        Err(error(Defect::SchemaNotObject, vec![]))
    );
    assert_eq!(
        validate_against_schema(&num("1"), &obj(vec![("type", num("1"))])),
        Err(error(Defect::TypeNotString, vec![]))
    );
    let schema = obj(vec![("type", text("object")), ("properties", text("none"))]);
    assert_eq!(
        validate_against_schema(&obj(vec![]), &schema),
        Err(error(Defect::PropertiesNotObject, vec![]))
    );
    // The data's own kind is checked first.
    assert_eq!(
        validate_against_schema(&num("1"), &schema),
        Err(error(Defect::Expected(JsonType::Object), vec![]))
    );
    let nested = obj(vec![("type", text("object")), ("properties", obj(vec![("a", num("0"))]))]);
    assert_eq!(
        validate_against_schema(&obj(vec![("a", num("1"))]), &nested),
        Err(error(Defect::SchemaNotObject, vec![key("a")]))
    );
}

#[test]
fn undeclared_and_absent_members_are_ignored() {
    let schema = count_and_tags_schema();
    assert_eq!(validate_against_schema(&obj(vec![]), &schema), Ok(()));
    assert_eq!(validate_against_schema(&obj(vec![("extra", JsonValue::Null)]), &schema), Ok(()));
    assert_eq!(
        validate_against_schema(&obj(vec![("extra", num("1")), ("count", num("2"))]), &schema),
        Ok(())
    );
}

#[test]
fn first_violation_in_declaration_and_index_order() {
    let schema = count_and_tags_schema();
    // Both members are wrong: the one declared first is reported, whatever the data's order.
    let data = obj(vec![
        ("tags", JsonValue::Array(vec![num("1"), num("2"), num("3")])),
        ("count", text("not a number")),
    ]);
    assert_eq!(
        validate_against_schema(&data, &schema),
        Err(error(Defect::Expected(JsonType::Number), vec![key("count")]))
    );
    // Only the array is wrong: its first wrong element is reported.
    let data = obj(vec![
        ("count", num("1")),
        ("tags", JsonValue::Array(vec![text("a"), num("2"), num("3")])),
    ]);
    assert_eq!(
        validate_against_schema(&data, &schema),
        Err(error(Defect::Expected(JsonType::String), vec![key("tags"), PathStep::Index(1)]))
    );
    let data = obj(vec![("tags", text("a"))]);
    assert_eq!(
        validate_against_schema(&data, &schema),
        Err(error(Defect::Expected(JsonType::Array), vec![key("tags")]))
    );
}

#[test]
fn nested_objects_and_arrays() {
    let point = obj(vec![
        ("type", text("object")),
        ("properties", obj(vec![("x", of_type("number")), ("y", of_type("number"))])),
    ]);
    let schema = obj(vec![
        ("type", text("object")),
        ("properties", obj(vec![("path", obj(vec![("type", text("array")), ("items", point)]))])),
    ]);
    let good = obj(vec![(
        "path",
        JsonValue::Array(vec![
            obj(vec![("x", num("0")), ("y", num("1"))]),
            obj(vec![("x", num("2"))]),
        ]),
    )]);
    assert_eq!(validate_against_schema(&good, &schema), Ok(()));
    let bad = obj(vec![(
        "path",
        JsonValue::Array(vec![
            obj(vec![("x", num("0")), ("y", num("1"))]),
            obj(vec![("x", num("2")), ("y", JsonValue::Bool(false))]),
        ]),
    )]);
    assert_eq!(
        validate_against_schema(&bad, &schema),
        Err(error(
            Defect::Expected(JsonType::Number),
            vec![key("path"), PathStep::Index(1), key("y")]
        ))
    );
}

#[test]
fn properties_and_items_on_their_own() {
    let declared = obj(vec![("a", of_type("string")), ("b", of_type("number"))]);
    let members = vec![
        Member { key: "b".to_string(), value: text("2") },
        Member { key: "a".to_string(), value: text("1") },
    ];
    assert_eq!(
        validate_object_properties(&members, &declared),
        Err(error(Defect::Expected(JsonType::Number), vec![key("b")]))
    );
    assert_eq!(
        validate_object_properties(&members, &num("1")),
        Err(error(Defect::PropertiesNotObject, vec![]))
    );
    assert_eq!(validate_object_properties(&Vec::new(), &declared), Ok(()));

    let items = vec![text("a"), text("b"), JsonValue::Null];
    assert_eq!(
        validate_array_items(&items, &of_type("string")),
        Err(error(Defect::Expected(JsonType::String), vec![PathStep::Index(2)]))
    );
    assert_eq!(validate_array_items(&items[..2].to_vec(), &of_type("string")), Ok(()));
    assert_eq!(validate_array_items(&Vec::new(), &num("1")), Ok(()));
}

#[test]
fn array_without_items_admits_any_elements() {
    let data = JsonValue::Array(vec![num("1"), text("a"), JsonValue::Null]);
    assert_eq!(validate_against_schema(&data, &of_type("array")), Ok(()));
}

#[test]
fn type_words_and_kinds() {
    assert!(matches!(read_type_word("object"), TypeWord::Known(JsonType::Object)));
    assert!(matches!(read_type_word("array"), TypeWord::Known(JsonType::Array)));
    assert!(matches!(read_type_word("string"), TypeWord::Known(JsonType::String)));
    assert!(matches!(read_type_word("number"), TypeWord::Known(JsonType::Number)));
    assert!(matches!(read_type_word("boolean"), TypeWord::Known(JsonType::Boolean)));
    assert!(matches!(read_type_word("Object"), TypeWord::Other));
    assert!(matches!(read_type_word(""), TypeWord::Other));
    assert!(value_has_type(&obj(vec![]), JsonType::Object));
    assert!(!value_has_type(&JsonValue::Null, JsonType::Object));
    assert!(value_has_type(&JsonValue::Bool(false), JsonType::Boolean));
    assert!(!value_has_type(&text("1"), JsonType::Number));
}

#[test]
fn lookup_takes_the_first_member() {
    let members = vec![
        member("a", text_value("first")),
        member("b", JsonValue::Null),
        member("a", text_value("second")),
    ];
    assert_eq!(find_member(&members, "a"), Some(&text("first")));
    assert_eq!(find_member(&members, "b"), Some(&JsonValue::Null));
    assert_eq!(find_member(&members, "c"), None);
    assert_eq!(object_value(Vec::new()), JsonValue::Object(vec![]));
}

#[test]
fn deep_copy_is_equal() {
    let schema = count_and_tags_schema();
    assert_eq!(schema.clone(), schema);
}

#[test]
fn permissive_schema_admits_objects_only() {
    let schema = permissive_schema();
    assert_eq!(schema, obj(vec![("type", text("object")), ("properties", obj(vec![]))]));
    assert_eq!(validate_against_schema(&obj(vec![("anything", num("1"))]), &schema), Ok(()));
    assert_eq!(
        validate_against_schema(&num("1"), &schema),
        Err(error(Defect::Expected(JsonType::Object), vec![]))
    );
}

#[test]
fn auto_registration_keeps_a_registered_schema() {
    let mut cache = SchemaCache::new();
    assert!(auto_register(&mut cache, "app", "click"));
    assert_eq!(cache.get("app", "click"), Some(&permissive_schema()));
    assert!(!auto_register(&mut cache, "app", "click"));
    register_event_type(&mut cache, "app", "click", count_schema()).unwrap();
    assert!(!auto_register(&mut cache, "app", "click"));
    assert_eq!(cache.get("app", "click"), Some(&count_schema()));
}

#[test]
fn cache_from_records_lets_the_later_record_win() {
    let records = vec![
        SchemaRecord {
            source: "app".to_string(),
            event_type: "click".to_string(),
            schema: of_type("number"),
        },
        SchemaRecord {
            source: "app".to_string(),
            event_type: "scroll".to_string(),
            schema: of_type("string"),
        },
        SchemaRecord {
            source: "app".to_string(),
            event_type: "click".to_string(),
            schema: of_type("boolean"),
        },
    ];
    let cache = cache_from_records(records);
    assert_eq!(cache.get("app", "click"), Some(&of_type("boolean")));
    assert_eq!(cache.get("app", "scroll"), Some(&of_type("string")));
}

fn stored(source: &str, event_type: &str, schema: &str) -> StoredSchema {
    StoredSchema {
        source: source.to_string(),
        event_type: event_type.to_string(),
        schema: schema.to_string(),
    }
}

#[test]
fn registry_is_loaded_from_stored_text() {
    let rows = vec![
        stored("app", "click", r#"{"type":"object","properties":{"count":{"type":"number"}}}"#),
        stored("app", "scroll", r#"{"type": "array", "items": {"type": "boolean"}}"#),
    ];
    let cache = init_schema_cache(rows).unwrap();
    assert_eq!(cache.get("app", "click"), Some(&count_schema()));
    let bad = obj(vec![("count", text("x"))]);
    let good = obj(vec![("count", num("1"))]);
    assert!(validate_event_metadata(&cache, "app", "click", &bad).is_err());
    assert!(validate_event_metadata(&cache, "app", "click", &good).is_ok());
    let flags = JsonValue::Array(vec![JsonValue::Bool(true), num("0")]);
    assert_eq!(
        validate_event_metadata(&cache, "app", "scroll", &flags),
        Err(error(Defect::Expected(JsonType::Boolean), vec![PathStep::Index(1)]))
    );
}

#[test]
fn stored_numbers_and_literals_are_read() {
    let rows = vec![stored("s", "t", r#"{"a": [1, -2.5, true, null, "x"], "b": {}}"#)];
    let cache = init_schema_cache(rows).unwrap();
    let expected = obj(vec![
        (
            "a",
            JsonValue::Array(vec![
                num("1"),
                num("-2.5"),
                JsonValue::Bool(true),
                JsonValue::Null,
                text("x"),
            ]),
        ),
        ("b", obj(vec![])),
    ]);
    assert_eq!(cache.get("s", "t"), Some(&expected));
}

#[test]
fn a_stored_schema_that_is_not_json_is_named() {
    let rows = vec![
        stored("app", "click", r#"{"type":"object"}"#),
        stored("app", "scroll", r#"{"type": "#),
        stored("app", "key", "not json"),
    ];
    assert!(matches!(init_schema_cache(rows), Err(LoadError::InvalidJson(1))));
    assert!(matches!(
        init_schema_cache(vec![stored("a", "b", "")]),
        Err(LoadError::InvalidJson(0))
    ));
}

#[test]
fn sentences_of_the_defects() {
    assert_eq!(InvalidSchema::NotAnObject.message(), "Schema must be a JSON object");
    assert_eq!(InvalidSchema::MissingType.message(), "Schema must have 'type' field");
    assert_eq!(InvalidSchema::PropertiesNotObject.message(), "Schema properties must be an object");
    assert_eq!(Defect::SchemaNotObject.message(), "Schema must be an object");
    assert_eq!(Defect::TypeNotString.message(), "Schema type must be a string");
    assert_eq!(Defect::PropertiesNotObject.message(), "Properties schema must be an object");
    assert_eq!(Defect::Expected(JsonType::Object).message(), "Data must be an object");
    assert_eq!(Defect::Expected(JsonType::Array).message(), "Data must be an array");
    assert_eq!(Defect::Expected(JsonType::String).message(), "Data must be a string");
    assert_eq!(Defect::Expected(JsonType::Number).message(), "Data must be a number");
    assert_eq!(Defect::Expected(JsonType::Boolean).message(), "Data must be a boolean");
}

#[test]
fn a_copy_of_the_registry_holds_the_same_schemas() {
    let mut cache = SchemaCache::new();
    register_event_type(&mut cache, "app", "click", count_schema()).unwrap();
    register_event_type(&mut cache, "app", "scroll", of_type("number")).unwrap();
    let copy = cache.clone();
    register_event_type(&mut cache, "app", "click", of_type("string")).unwrap();
    assert_eq!(copy.get("app", "click"), Some(&count_schema()));
    assert_eq!(copy.get("app", "scroll"), Some(&of_type("number")));
    assert_eq!(copy.get("app", "key"), None);
}
