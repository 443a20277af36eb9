//! The registry of event-type schemas: one schema per source and event
//! type, looked up when metadata is validated.

use vstd::prelude::*;
use vstd::string::StringExecFns;
use crate::json::{
    lookup, member, members_view, object_value, parse_json, parsed, text_value, Entry, Json,
    JsonValue, Member,
};
use crate::schema::{
    conforms, first_violation, reports, structure_defect, validate_against_schema,
    validate_schema_structure, InvalidSchema, ValidationError, Violation,
};

verus! {

/// The schema registered for one event type of one source.
#[derive(Clone, Debug)]
pub struct SchemaRecord {
    pub source: String,
    pub event_type: String,
    pub schema: JsonValue,
}

/// What identifies a schema: the source and the event type.
pub type SchemaKey = (Seq<char>, Seq<char>);

impl SchemaRecord {
    /// The source and event type that this record is registered under.
    pub open spec fn key(self) -> SchemaKey {
        (self.source@, self.event_type@)
    }
}

/// The mapping that a list of records stands for when they are registered
/// one after the other: a later record replaces an earlier one with its key.
pub open spec fn registered(records: Seq<SchemaRecord>) -> Map<SchemaKey, Json>
    decreases records.len(),
{
    if records.len() == 0 {
        Map::empty()
    } else {
        registered(records.drop_last()).insert(records.last().key(), records.last().schema@)
    }
}

/// The schemas known to the aggregator, by source and event type.
///
/// The records are kept in a list and searched in order, so that what a
/// lookup finds can be stated and proved; nothing is known to the verifier
/// of a hash map whose keys are strings.
#[derive(Debug)]
pub struct SchemaCache {
    records: Vec<SchemaRecord>,
}

impl SchemaCache {
    /// Whether `i` is the index of the first record with key `k`.
    spec fn first_at(self, k: SchemaKey, i: int) -> bool {
        &&& 0 <= i < self.records.len()
        &&& self.records[i].key() == k
        &&& forall|j: int| 0 <= j < i ==> (#[trigger] self.records[j]).key() != k
    }

    /// The registry as a mapping from source and event type to schema.
    pub closed spec fn view(&self) -> Map<SchemaKey, Json> {
        Map::new(
            |k: SchemaKey| exists|i: int| self.first_at(k, i),
            |k: SchemaKey| self.records[choose|i: int| self.first_at(k, i)].schema@,
        )
    }

    /// An empty registry.
    pub fn new() -> (cache: Self)
        ensures
            cache@ == Map::<SchemaKey, Json>::empty(),
    {
        let cache = SchemaCache { records: Vec::new() };
        assert(cache@ =~= Map::<SchemaKey, Json>::empty());
        cache
    }

    fn position(&self, source: &str, event_type: &str) -> (r: Option<usize>)
        ensures
            match r {
                Some(i) => self.first_at((source@, event_type@), i as int),
                None => forall|i: int|
                    0 <= i < self.records.len() ==> (#[trigger] self.records[i]).key() != (
                        source@,
                        event_type@,
                    ),
            },
    {
        let mut i: usize = 0;
        while i < self.records.len()
            invariant
                0 <= i <= self.records.len(),
                forall|j: int|
                    0 <= j < i ==> (#[trigger] self.records[j]).key() != (source@, event_type@),
            decreases self.records.len() - i,
        {
            if self.records[i].source.as_str().eq(source) && self.records[i].event_type.as_str().eq(
                event_type,
            ) {
                return Some(i);
            }
            i += 1;
        }
        None
    }

    /// Two first records with one key are the same record.
    proof fn first_is_unique(self, k: SchemaKey, i: int, j: int)
        requires
            self.first_at(k, i),
            self.first_at(k, j),
        ensures
            i == j,
    {
        if i < j {
            assert(self.records[i].key() != k);
        } else if j < i {
            assert(self.records[j].key() != k);
        }
    }

    /// The schema registered for this source and event type, if any.
    pub fn get(&self, source: &str, event_type: &str) -> (r: Option<&JsonValue>)
        ensures
            match r {
                Some(schema) => self@.contains_key((source@, event_type@)) && self@[(
                    source@,
                    event_type@,
                )] == schema@,
                None => !self@.contains_key((source@, event_type@)),
            },
    {
        match self.position(source, event_type) {
            Some(i) => {
                proof {
                    let k = (source@, event_type@);
                    let c = choose|c: int| self.first_at(k, c);
                    self.first_is_unique(k, i as int, c);
                }
                Some(&self.records[i].schema)
            },
            None => None,
        }
    }

    /// Whether a schema is registered for this source and event type.
    pub fn contains(&self, source: &str, event_type: &str) -> (r: bool)
        ensures
            r == self@.contains_key((source@, event_type@)),
    {
        self.get(source, event_type).is_some()
    }

    /// Registers a schema, replacing the one registered before for the same
    /// source and event type.
    pub fn insert(&mut self, source: String, event_type: String, schema: JsonValue)
        ensures
            final(self)@ == old(self)@.insert((source@, event_type@), schema@),
    {
        let ghost key = (source@, event_type@);
        let ghost before = *self;
        let found = self.position(source.as_str(), event_type.as_str());
        let ghost at: int = match found {
            Some(i) => i as int,
            None => self.records.len() as int,
        };
        match found {
            Some(i) => {
                self.records[i] = SchemaRecord { source, event_type, schema };
            },
            None => {
                self.records.push(SchemaRecord { source, event_type, schema });
            },
        }
        proof {
            let after = *self;
            assert(after.records[at].key() == key && after.records[at].schema@ == schema@);
            assert(forall|j: int|
                0 <= j < before.records.len() && j != at ==> #[trigger] after.records[j]
                    == before.records[j]);
            assert(forall|j: int|
                0 <= j < before.records.len() ==> (#[trigger] after.records[j]).key()
                    == before.records[j].key());
            assert(after.first_at(key, at));
            assert forall|k: SchemaKey, i: int| k != key implies (#[trigger] after.first_at(k, i)
                <==> before.first_at(k, i)) by {
                if after.first_at(k, i) {
                    assert(i < before.records.len());
                    assert(forall|j: int|
                        0 <= j < i ==> (#[trigger] before.records[j]).key() == after.records[j].key());
                }
                if before.first_at(k, i) {
                    assert(forall|j: int|
                        0 <= j < i ==> (#[trigger] after.records[j]).key() == before.records[j].key());
                }
            }
            let target = before@.insert(key, schema@);
            assert forall|k: SchemaKey| after@.contains_key(k) == target.contains_key(k) by {
                if k != key {
                    if after@.contains_key(k) {
                        let i = choose|i: int| after.first_at(k, i);
                        assert(before.first_at(k, i));
                    }
                    if before@.contains_key(k) {
                        let i = choose|i: int| before.first_at(k, i);
                        assert(after.first_at(k, i));
                    }
                }
            }
            assert forall|k: SchemaKey| after@.contains_key(k) implies after@[k] == target[k] by {
                let i = choose|i: int| after.first_at(k, i);
                if k == key {
                    after.first_is_unique(k, i, at);
                } else {
                    assert(before.first_at(k, i));
                    let j = choose|j: int| before.first_at(k, j);
                    before.first_is_unique(k, i, j);
                }
            }
            assert(after@ =~= target);
        }
    }
}

impl Clone for SchemaCache {
    /// A copy that holds the same schemas.
    fn clone(&self) -> (copy: Self)
        ensures
            copy@ == self@,
    {
        let mut records: Vec<SchemaRecord> = Vec::new();
        let mut i: usize = 0;
        while i < self.records.len()
            invariant
                0 <= i <= self.records.len(),
                records.len() == i,
                forall|j: int|
                    0 <= j < i ==> (#[trigger] records[j]).key() == self.records[j].key()
                        && records[j].schema@ == self.records[j].schema@,
            decreases self.records.len() - i,
        {
            let record = &self.records[i];
            records.push(
                SchemaRecord {
                    source: record.source.clone(),
                    event_type: record.event_type.clone(),
                    schema: record.schema.clone(),
                },
            );
            i += 1;
        }
        let copy = SchemaCache { records };
        proof {
            assert forall|k: SchemaKey, i: int| #[trigger] copy.first_at(k, i) <==> self.first_at(
                k,
                i,
            ) by {
                if copy.first_at(k, i) {
                    assert(forall|j: int|
                        0 <= j < i ==> (#[trigger] self.records[j]).key() == copy.records[j].key());
                }
                if self.first_at(k, i) {
                    assert(forall|j: int|
                        0 <= j < i ==> (#[trigger] copy.records[j]).key() == self.records[j].key());
                }
            }
            assert forall|k: SchemaKey| copy@.contains_key(k) == self@.contains_key(k) by {
                if copy@.contains_key(k) {
                    let i = choose|i: int| copy.first_at(k, i);
                    assert(self.first_at(k, i));
                }
                if self@.contains_key(k) {
                    let i = choose|i: int| self.first_at(k, i);
                    assert(copy.first_at(k, i));
                }
            }
            assert forall|k: SchemaKey| copy@.contains_key(k) implies copy@[k] == self@[k] by {
                let i = choose|i: int| copy.first_at(k, i);
                let j = choose|j: int| self.first_at(k, j);
                assert(self.first_at(k, i));
                self.first_is_unique(k, i, j);
            }
            assert(copy@ =~= self@);
        }
        copy
    }
}

/// Builds the registry from records, taken in order.
pub fn cache_from_records(records: Vec<SchemaRecord>) -> (cache: SchemaCache)
    ensures
        cache@ == registered(records@),
{
    let mut cache = SchemaCache::new();
    let ghost all = records@;
    for record in it: records
        invariant
            all == it.seq(),
            cache@ == registered(all.take(it.index() as int)),
    {
        let ghost k = it.index() as int;
        assert(all.take(k + 1).drop_last() =~= all.take(k));
        cache.insert(record.source, record.event_type, record.schema);
    }
    assert(all.take(all.len() as int) =~= all);
    cache
}

/// A schema as the store holds it: as JSON text.
#[derive(Clone, Debug)]
pub struct StoredSchema {
    pub source: String,
    pub event_type: String,
    /// The schema, as JSON text.
    pub schema: String,
}

/// Why the registry could not be loaded.
#[derive(Clone, Copy, Debug, PartialEq, Eq, Structural)]
pub enum LoadError {
    /// The schema of the row at this index is not JSON.
    InvalidJson(usize),
}

/// Whether the schema of a stored row is JSON.
pub open spec fn is_readable(row: StoredSchema) -> bool {
    parsed(row.schema@) is Some
}

/// The mapping that stored rows stand for when they are read in order: a
/// later row replaces an earlier one for the same source and event type.
pub open spec fn loaded(rows: Seq<StoredSchema>) -> Map<SchemaKey, Json>
    decreases rows.len(),
{
    if rows.len() == 0 {
        Map::empty()
    } else {
        loaded(rows.drop_last()).insert(
            (rows.last().source@, rows.last().event_type@),
            parsed(rows.last().schema@).unwrap(),
        )
    }
}

/// Loads the registry from the rows that the store holds, taken in order.
///
/// Succeeds exactly when the schema of every row is JSON; otherwise names
/// the first row whose schema is not.
pub fn init_schema_cache(rows: Vec<StoredSchema>) -> (r: Result<SchemaCache, LoadError>)
    ensures
        match r {
            Ok(cache) => {
                &&& forall|i: int| 0 <= i < rows@.len() ==> is_readable(#[trigger] rows@[i])
                &&& cache@ == loaded(rows@)
            },
            Err(LoadError::InvalidJson(index)) => {
                &&& index < rows@.len()
                &&& !is_readable(rows@[index as int])
                &&& forall|i: int| 0 <= i < index ==> is_readable(#[trigger] rows@[i])
            },
        },
{
    let mut cache = SchemaCache::new();
    let ghost all = rows@;
    let mut index: usize = 0;
    assert(all.len() == rows.len());
    for row in it: rows
        invariant
            all == it.seq(),
            index == it.index(),
            all.len() <= usize::MAX,
            forall|i: int| 0 <= i < index ==> is_readable(#[trigger] all[i]),
            cache@ == loaded(all.take(index as int)),
    {
        let ghost k = it.index() as int;
        assert(all.take(k + 1).drop_last() =~= all.take(k));
        match parse_json(row.schema.as_str()) {
            Some(schema) => {
                cache.insert(row.source, row.event_type, schema);
            },
            None => {
                return Err(LoadError::InvalidJson(index));
            },
        }
        index += 1;
    }
    assert(all.take(all.len() as int) =~= all);
    Ok(cache)
}

/// Registers the schema of an event type.
///
/// A document that cannot serve as a schema is rejected, and the registry
/// stays as it was. Otherwise the schema replaces whatever was registered
/// for the same source and event type.
pub fn register_event_type(
    cache: &mut SchemaCache,
    source: &str,
    event_type: &str,
    schema: JsonValue,
) -> (r: Result<(), InvalidSchema>)
    ensures
        match structure_defect(schema@) {
            Some(defect) => r == Err::<(), InvalidSchema>(defect) && final(cache)@ == old(cache)@,
            None => r == Ok::<(), InvalidSchema>(()) && final(cache)@ == old(cache)@.insert(
                (source@, event_type@),
                schema@,
            ),
        },
{
    match validate_schema_structure(&schema) {
        Err(defect) => Err(defect),
        Ok(()) => {
            cache.insert(String::from_str(source), String::from_str(event_type), schema);
            Ok(())
        },
    }
}

/// The violation that validating `metadata` for this source and event
/// type must report: none where no schema is registered.
pub open spec fn metadata_violation(
    registry: Map<SchemaKey, Json>,
    key: SchemaKey,
    metadata: Json,
) -> Option<Violation> {
    if registry.contains_key(key) {
        first_violation(metadata, registry[key])
    } else {
        None
    }
}

/// Validates the metadata of an event against the schema registered for its
/// source and event type. Metadata of an unregistered event type passes.
pub fn validate_event_metadata(
    cache: &SchemaCache,
    source: &str,
    event_type: &str,
    metadata: &JsonValue,
) -> (r: Result<(), ValidationError>)
    ensures
        reports(r, metadata_violation(cache@, (source@, event_type@), metadata@)),
{
    match cache.get(source, event_type) {
        Some(schema) => validate_against_schema(metadata, schema),
        None => Ok(()),
    }
}

/// The schema that an event type gets when its first event arrives before
/// any registration: an object with no declared properties, which admits
/// every object.
pub open spec fn permissive() -> Json {
    Json::Object(
        seq![
            Entry { key: "type"@, value: Json::Text("object"@) },
            Entry { key: "properties"@, value: Json::Object(Seq::empty()) },
        ],
    )
}

/// The schema `{"type": "object", "properties": {}}`.
pub fn permissive_schema() -> (schema: JsonValue)
    ensures
        schema@ == permissive(),
{
    let properties = object_value(Vec::new());
    assert(members_view(Seq::<Member>::empty()) =~= Seq::<Entry>::empty());
    let mut members: Vec<Member> = Vec::new();
    members.push(member("type", text_value("object")));
    members.push(member("properties", properties));
    assert(members_view(members@) =~= permissive()->Object_0);
    object_value(members)
}

/// The registry after an event of this source and type was submitted: an
/// event type that was unknown is registered with the permissive schema.
pub open spec fn auto_registered(registry: Map<SchemaKey, Json>, key: SchemaKey) -> Map<
    SchemaKey,
    Json,
> {
    if registry.contains_key(key) {
        registry
    } else {
        registry.insert(key, permissive())
    }
}

/// Registers the permissive schema for an event type that has none.
pub fn auto_register(cache: &mut SchemaCache, source: &str, event_type: &str) -> (added: bool)
    ensures
        added == !old(cache)@.contains_key((source@, event_type@)),
        final(cache)@ == auto_registered(old(cache)@, (source@, event_type@)),
{
    if cache.contains(source, event_type) {
        false
    } else {
        cache.insert(String::from_str(source), String::from_str(event_type), permissive_schema());
        true
    }
}

/// Registering a second schema for a source and event type replaces the
/// first: the registry is as if only the second had been registered, and
/// metadata are validated against the second alone.
pub proof fn reregistration_replaces(
    registry: Map<SchemaKey, Json>,
    key: SchemaKey,
    first: Json,
    second: Json,
    metadata: Json,
)
    ensures
        registry.insert(key, first).insert(key, second) == registry.insert(key, second),
        metadata_violation(registry.insert(key, first).insert(key, second), key, metadata)
            == first_violation(metadata, second),
{
    assert(registry.insert(key, first).insert(key, second) =~= registry.insert(key, second));
}

/// Registering a schema leaves the schemas of the other event types as they
/// are.
pub proof fn registration_is_local(
    registry: Map<SchemaKey, Json>,
    key: SchemaKey,
    schema: Json,
    other: SchemaKey,
    metadata: Json,
)
    requires
        other != key,
    ensures
        metadata_violation(registry.insert(key, schema), other, metadata) == metadata_violation(
            registry,
            other,
            metadata,
        ),
{
}

/// Metadata of an event type that has only been registered by the arrival of
/// an event pass if and only if they are an object.
pub proof fn permissive_admits_objects(metadata: Json)
    ensures
        conforms(metadata, permissive()) <==> metadata is Object,
{
    let fields = permissive()->Object_0;
    assert(fields[0].key == "type"@);
    assert(fields[1].key == "properties"@);
    reveal_strlit("type");
    reveal_strlit("properties");
    reveal_strlit("object");
    reveal_strlit("array");
    assert("type"@ != "properties"@) by {
        assert("type"@.len() != "properties"@.len());
    }
    assert(crate::json::find_from(fields, "type"@, 0) == 0);
    assert(crate::json::find_from(fields, "properties"@, 1) == 1);
    assert(crate::json::find_from(fields, "properties"@, 0) == 1);
    assert(lookup(fields, "type"@) == Some(Json::Text("object"@)));
    assert(lookup(fields, "properties"@) == Some(Json::Object(Seq::<Entry>::empty())));
    match metadata {
        Json::Object(entries) => {
            assert(crate::schema::properties_violation(entries, Seq::<Entry>::empty(), 0) is None);
        },
        _ => {},
    }
}

} // verus!
