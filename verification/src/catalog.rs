//! The storage objects that the aggregator expects to find in an existing
//! store, and the check that they are all there.

use vstd::prelude::*;
use vstd::string::StringExecFns;

verus! {

/// Kind of an object in the store's catalog.
#[derive(Clone, Copy, Debug, PartialEq, Eq, Structural)]
pub enum ObjectKind {
    Table,
    Index,
    View,
    Trigger,
}

impl ObjectKind {
    /// The word by which the store's catalog names this kind.
    pub open spec fn catalog_word(self) -> Seq<char> {
        match self {
            ObjectKind::Table => "table"@,
            ObjectKind::Index => "index"@,
            ObjectKind::View => "view"@,
            ObjectKind::Trigger => "trigger"@,
        }
    }

    /// The word by which the store's catalog names this kind.
    pub fn catalog_name(self) -> (r: &'static str)
        ensures
            r@ == self.catalog_word(),
    {
        match self {
            ObjectKind::Table => "table",
            ObjectKind::Index => "index",
            ObjectKind::View => "view",
            ObjectKind::Trigger => "trigger",
        }
    }
}

/// An object that must exist in the store.
#[derive(Clone, Copy, Debug)]
pub struct RequiredObject {
    pub kind: ObjectKind,
    pub name: &'static str,
}

/// One row of the store's catalog: the kind of an object, as the catalog
/// words it, and the object's name.
#[derive(Clone, Debug)]
pub struct CatalogEntry {
    pub object_type: String,
    pub name: String,
}

/// The first required object that the catalog lacks.
#[derive(Debug)]
pub struct MissingObject {
    pub kind: ObjectKind,
    pub name: String,
}

/// Everything the aggregator needs in the store, in the order in which it is
/// looked for: tables, then indexes, views and triggers.
pub open spec fn required_objects() -> Seq<RequiredObject> {
    seq![
        RequiredObject { kind: ObjectKind::Table, name: "events" },
        RequiredObject { kind: ObjectKind::Table, name: "retention_policies" },
        RequiredObject { kind: ObjectKind::Table, name: "event_types" },
        RequiredObject { kind: ObjectKind::Table, name: "event_statistics" },
        RequiredObject { kind: ObjectKind::Table, name: "health_metrics" },
        RequiredObject { kind: ObjectKind::Table, name: "workouts" },
        RequiredObject { kind: ObjectKind::Table, name: "sleep_sessions" },
        RequiredObject { kind: ObjectKind::Table, name: "text_captures" },
        RequiredObject { kind: ObjectKind::Table, name: "text_summaries" },
        RequiredObject { kind: ObjectKind::Table, name: "application_context" },
        RequiredObject { kind: ObjectKind::Table, name: "content_relationships" },
        RequiredObject { kind: ObjectKind::Table, name: "text_statistics" },
        RequiredObject { kind: ObjectKind::Index, name: "idx_events_timestamp" },
        RequiredObject { kind: ObjectKind::Index, name: "idx_events_source_type" },
        RequiredObject { kind: ObjectKind::Index, name: "idx_events_partition" },
        RequiredObject { kind: ObjectKind::Index, name: "idx_text_captures_timestamp" },
        RequiredObject { kind: ObjectKind::Index, name: "idx_text_captures_app" },
        RequiredObject { kind: ObjectKind::Index, name: "idx_text_captures_type" },
        RequiredObject { kind: ObjectKind::Index, name: "idx_text_summaries_capture" },
        RequiredObject { kind: ObjectKind::Index, name: "idx_content_relationships_source" },
        RequiredObject { kind: ObjectKind::Index, name: "idx_content_relationships_target" },
        RequiredObject { kind: ObjectKind::View, name: "v_daily_activity" },
        RequiredObject { kind: ObjectKind::View, name: "v_text_activity_summary" },
        RequiredObject { kind: ObjectKind::View, name: "v_application_usage" },
        RequiredObject { kind: ObjectKind::View, name: "v_content_connections" },
        RequiredObject { kind: ObjectKind::Trigger, name: "trg_text_capture_stats" },
        RequiredObject { kind: ObjectKind::Trigger, name: "trg_summary_update" },
        RequiredObject { kind: ObjectKind::Trigger, name: "trg_relationship_cleanup" },
    ]
}

/// The list of `required_objects`, for executable code.
pub fn required_object_list() -> (list: Vec<RequiredObject>)
    ensures
        list@ == required_objects(),
{
    let list = vec![
        RequiredObject { kind: ObjectKind::Table, name: "events" },
        RequiredObject { kind: ObjectKind::Table, name: "retention_policies" },
        RequiredObject { kind: ObjectKind::Table, name: "event_types" },
        RequiredObject { kind: ObjectKind::Table, name: "event_statistics" },
        RequiredObject { kind: ObjectKind::Table, name: "health_metrics" },
        RequiredObject { kind: ObjectKind::Table, name: "workouts" },
        RequiredObject { kind: ObjectKind::Table, name: "sleep_sessions" },
        RequiredObject { kind: ObjectKind::Table, name: "text_captures" },
        RequiredObject { kind: ObjectKind::Table, name: "text_summaries" },
        RequiredObject { kind: ObjectKind::Table, name: "application_context" },
        RequiredObject { kind: ObjectKind::Table, name: "content_relationships" },
        RequiredObject { kind: ObjectKind::Table, name: "text_statistics" },
        RequiredObject { kind: ObjectKind::Index, name: "idx_events_timestamp" },
        RequiredObject { kind: ObjectKind::Index, name: "idx_events_source_type" },
        RequiredObject { kind: ObjectKind::Index, name: "idx_events_partition" },
        RequiredObject { kind: ObjectKind::Index, name: "idx_text_captures_timestamp" },
        RequiredObject { kind: ObjectKind::Index, name: "idx_text_captures_app" },
        RequiredObject { kind: ObjectKind::Index, name: "idx_text_captures_type" },
        RequiredObject { kind: ObjectKind::Index, name: "idx_text_summaries_capture" },
        RequiredObject { kind: ObjectKind::Index, name: "idx_content_relationships_source" },
        RequiredObject { kind: ObjectKind::Index, name: "idx_content_relationships_target" },
        RequiredObject { kind: ObjectKind::View, name: "v_daily_activity" },
        RequiredObject { kind: ObjectKind::View, name: "v_text_activity_summary" },
        RequiredObject { kind: ObjectKind::View, name: "v_application_usage" },
        RequiredObject { kind: ObjectKind::View, name: "v_content_connections" },
        RequiredObject { kind: ObjectKind::Trigger, name: "trg_text_capture_stats" },
        RequiredObject { kind: ObjectKind::Trigger, name: "trg_summary_update" },
        RequiredObject { kind: ObjectKind::Trigger, name: "trg_relationship_cleanup" },
    ];
    assert(list@ =~= required_objects());
    list
}

/// Whether the catalog holds an object of this kind and name.
pub open spec fn is_present(catalog: Seq<CatalogEntry>, object: RequiredObject) -> bool {
    exists|k: int|
        0 <= k < catalog.len() && (#[trigger] catalog[k]).object_type@
            == object.kind.catalog_word() && catalog[k].name@ == object.name@
}

/// Looks one object up in the catalog.
pub fn catalog_holds(catalog: &Vec<CatalogEntry>, object: &RequiredObject) -> (found: bool)
    ensures
        found == is_present(catalog@, *object),
{
    let word = object.kind.catalog_name();
    let mut k: usize = 0;
    while k < catalog.len()
        invariant
            0 <= k <= catalog.len(),
            word@ == object.kind.catalog_word(),
            forall|j: int|
                0 <= j < k ==> !((#[trigger] catalog@[j]).object_type@
                    == object.kind.catalog_word() && catalog@[j].name@ == object.name@),
        decreases catalog.len() - k,
    {
        if catalog[k].object_type.as_str().eq(word) && catalog[k].name.as_str().eq(object.name) {
            return true;
        }
        k += 1;
    }
    false
}

impl MissingObject {
    /// The sentence that reports this object as missing.
    pub open spec fn message_text(self) -> Seq<char> {
        match self.kind {
            ObjectKind::Table => "Table '"@ + self.name@ + "' not found"@,
            ObjectKind::Index => "Required index '"@ + self.name@ + "' not found"@,
            ObjectKind::View => "Required view '"@ + self.name@ + "' not found"@,
            ObjectKind::Trigger => "Required trigger '"@ + self.name@ + "' not found"@,
        }
    }

    /// The sentence that reports this object as missing.
    pub fn message(&self) -> (text: String)
        ensures
            text@ == self.message_text(),
    {
        let mut text = match self.kind {
            ObjectKind::Table => String::from_str("Table '"),
            ObjectKind::Index => String::from_str("Required index '"),
            ObjectKind::View => String::from_str("Required view '"),
            ObjectKind::Trigger => String::from_str("Required trigger '"),
        };
        text.append(self.name.as_str());
        text.append("' not found");
        text
    }
}

/// Checks that the catalog of an existing store holds every required object.
///
/// Succeeds exactly when nothing is missing; otherwise names the first
/// missing object in the order of `required_objects`.
pub fn verify_schema(catalog: &Vec<CatalogEntry>) -> (r: Result<(), MissingObject>)
    ensures
        match r {
            Ok(()) => forall|i: int|
                0 <= i < required_objects().len() ==> is_present(
                    catalog@,
                    #[trigger] required_objects()[i],
                ),
            Err(missing) => exists|i: int|
                0 <= i < required_objects().len() && missing.kind == (
                #[trigger] required_objects()[i]).kind && missing.name@ == required_objects()[i].name@
                    && !is_present(catalog@, required_objects()[i]) && forall|j: int|
                    0 <= j < i ==> is_present(catalog@, #[trigger] required_objects()[j]),
        },
{
    let required = required_object_list();
    let mut i: usize = 0;
    while i < required.len()
        invariant
            0 <= i <= required.len(),
            required@ == required_objects(),
            forall|j: int| 0 <= j < i ==> is_present(catalog@, #[trigger] required_objects()[j]),
        decreases required.len() - i,
    {
        if !catalog_holds(catalog, &required[i]) {
            return Err(
                MissingObject { kind: required[i].kind, name: String::from_str(required[i].name) },
            );
        }
        i += 1;
    }
    Ok(())
}

} // verus!
