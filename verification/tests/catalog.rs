use aggregator::catalog::{
    catalog_holds, required_object_list, verify_schema, CatalogEntry, MissingObject, ObjectKind,
    RequiredObject,
};

fn full_catalog() -> Vec<CatalogEntry> {
    required_object_list()
        .iter()
        .map(|o| CatalogEntry {
            object_type: o.kind.catalog_name().to_string(),
            name: o.name.to_string(),
        })
        .collect()
}

fn without(name: &str) -> Vec<CatalogEntry> {
    full_catalog().into_iter().filter(|e| e.name != name).collect()
}

#[test]
fn test_database_initialization() {
    let catalog = full_catalog();
    assert!(verify_schema(&catalog).is_ok());
    let tables = ["text_captures", "text_summaries", "application_context"];
    for table in tables.iter() {
        let wanted = RequiredObject { kind: ObjectKind::Table, name: table };
        assert!(catalog_holds(&catalog, &wanted));
        assert!(verify_schema(&without(table)).is_err());
    }
}

#[test]
fn empty_catalog_lacks_the_events_table() {
    let missing = verify_schema(&Vec::new()).unwrap_err();
    assert_eq!(missing.kind, ObjectKind::Table);
    assert_eq!(missing.name, "events");
    assert_eq!(missing.message(), "Table 'events' not found");
}

#[test]
fn required_objects_are_counted_by_kind() {
    let list = required_object_list();
    assert_eq!(list.len(), 28);
    assert_eq!(list.iter().filter(|o| o.kind == ObjectKind::Table).count(), 12);
    assert_eq!(list.iter().filter(|o| o.kind == ObjectKind::Index).count(), 9);
    assert_eq!(list.iter().filter(|o| o.kind == ObjectKind::View).count(), 4);
    assert_eq!(list.iter().filter(|o| o.kind == ObjectKind::Trigger).count(), 3);
    assert_eq!(list[0].name, "events");
    assert_eq!(list[27].name, "trg_relationship_cleanup");
}

#[test]
fn health_tables_are_required() {
    for table in ["health_metrics", "workouts", "sleep_sessions"] {
        let missing = verify_schema(&without(table)).unwrap_err();
        assert_eq!(missing.kind, ObjectKind::Table);
        assert_eq!(missing.name, table);
    }
}

#[test]
fn missing_index_view_and_trigger_are_named() {
    let missing = verify_schema(&without("idx_events_partition")).unwrap_err();
    assert_eq!(missing.kind, ObjectKind::Index);
    assert_eq!(missing.message(), "Required index 'idx_events_partition' not found");

    let missing = verify_schema(&without("v_application_usage")).unwrap_err();
    assert_eq!(missing.kind, ObjectKind::View);
    assert_eq!(missing.message(), "Required view 'v_application_usage' not found");

    let missing = verify_schema(&without("trg_summary_update")).unwrap_err();
    assert_eq!(missing.kind, ObjectKind::Trigger);
    assert_eq!(missing.message(), "Required trigger 'trg_summary_update' not found");
}

#[test]
fn first_missing_object_wins() {
    let catalog: Vec<CatalogEntry> = full_catalog()
        .into_iter()
        .filter(|e| e.name != "v_daily_activity" && e.name != "event_types")
        .collect();
    let missing = verify_schema(&catalog).unwrap_err();
    assert_eq!(missing.name, "event_types");
}

#[test]
fn an_object_of_another_kind_does_not_count() {
    let mut catalog = without("events");
    catalog.push(CatalogEntry { object_type: "view".to_string(), name: "events".to_string() });
    let missing: MissingObject = verify_schema(&catalog).unwrap_err();
    assert_eq!(missing.kind, ObjectKind::Table);
    assert_eq!(missing.name, "events");
    let wanted = RequiredObject { kind: ObjectKind::Table, name: "events" };
    assert!(!catalog_holds(&catalog, &wanted));
}

#[test]
fn catalog_words() {
    assert_eq!(ObjectKind::Table.catalog_name(), "table");
    assert_eq!(ObjectKind::Index.catalog_name(), "index");
    assert_eq!(ObjectKind::View.catalog_name(), "view");
    assert_eq!(ObjectKind::Trigger.catalog_name(), "trigger");
}
