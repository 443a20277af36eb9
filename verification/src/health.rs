//! Health records: a measurement, a workout or a sleep session is stored as
//! an event of the health source together with one row of details.
//!
//! Quantities that are not whole numbers are given as their decimal text.

use vstd::prelude::*;
use vstd::string::StringExecFns;
use crate::decimal::decimal_text;
use crate::json::{
    integer_value, member, members_view, number_value, object_value, optional_number_value,
    optional_text_value, text_value, Entry, Json, JsonValue, Member,
};
use crate::partition::{partition_key_for, partition_key_text};
use crate::store::{
    health_source, DetailRow, DetailTable, EventRow, Store, StoreError, StoreModel,
};

verus! {

/// A measurement.
#[derive(Clone, Debug)]
pub struct HealthMetric {
    pub metric_type: String,
    /// The measured value, as decimal text.
    pub value: String,
    pub unit: String,
    /// Milliseconds since the epoch.
    pub start_time: i64,
    /// Milliseconds since the epoch.
    pub end_time: i64,
    pub source_device: Option<String>,
    pub accuracy: Option<i32>,
    pub metadata: Option<JsonValue>,
}

/// A workout.
#[derive(Clone, Debug)]
pub struct Workout {
    pub workout_type: String,
    /// Milliseconds since the epoch.
    pub start_time: i64,
    /// Milliseconds since the epoch.
    pub end_time: i64,
    /// Meters, as decimal text.
    pub distance: Option<String>,
    /// As decimal text.
    pub calories: Option<String>,
    /// As decimal text.
    pub avg_heart_rate: Option<String>,
    /// As decimal text.
    pub max_heart_rate: Option<String>,
    pub metadata: Option<JsonValue>,
}

/// A sleep session.
#[derive(Clone, Debug)]
pub struct SleepSession {
    /// Milliseconds since the epoch.
    pub start_time: i64,
    /// Milliseconds since the epoch.
    pub end_time: i64,
    pub quality: String,
    /// Minutes.
    pub duration: i32,
    pub interruptions: Option<i32>,
    pub metadata: Option<JsonValue>,
}

/// What is stored for one health record.
pub struct HealthRecord {
    pub table: DetailTable,
    pub event_type: Seq<char>,
    pub start_time: i64,
    pub end_time: i64,
    /// The metadata of the event.
    pub metadata: Json,
    /// The columns of the detail row besides the event's id and the times.
    pub details: Json,
}

/// What is stored for one health record, ready to be committed.
#[derive(Clone, Debug)]
pub struct HealthEntry {
    pub table: DetailTable,
    pub event_type: String,
    /// Milliseconds since the epoch.
    pub start_time: i64,
    /// Milliseconds since the epoch.
    pub end_time: i64,
    /// The metadata of the event.
    pub metadata: JsonValue,
    /// The columns of the detail row besides the event's id and the times.
    pub details: JsonValue,
}

impl View for HealthEntry {
    type V = HealthRecord;

    open spec fn view(&self) -> HealthRecord {
        HealthRecord {
            table: self.table,
            event_type: self.event_type@,
            start_time: self.start_time,
            end_time: self.end_time,
            metadata: self.metadata@,
            details: self.details@,
        }
    }
}

/// A number given as decimal text, or `null`.
pub open spec fn number_or_null(text: Option<String>) -> Json {
    match text {
        Some(t) => Json::Number(t@),
        None => Json::Null,
    }
}

/// A string, or `null`.
pub open spec fn text_or_null(text: Option<String>) -> Json {
    match text {
        Some(t) => Json::Text(t@),
        None => Json::Null,
    }
}

/// A whole number, or `null`.
pub open spec fn integer_or_null(n: Option<i32>) -> Json {
    match n {
        Some(n) => Json::Number(decimal_text(n as int)),
        None => Json::Null,
    }
}

/// A document, or `null`.
pub open spec fn document_or_null(document: Option<JsonValue>) -> Json {
    match document {
        Some(d) => d@,
        None => Json::Null,
    }
}

/// The whole minutes between two instants given in milliseconds, rounded
/// toward zero.
pub open spec fn whole_minutes(start_time: i64, end_time: i64) -> int {
    if end_time >= start_time {
        (end_time - start_time) / 60000
    } else {
        -((start_time - end_time) / 60000)
    }
}

/// What is stored for a measurement.
pub open spec fn metric_record(metric: HealthMetric) -> HealthRecord {
    HealthRecord {
        table: DetailTable::HealthMetrics,
        event_type: "health_metric_"@ + metric.metric_type@,
        start_time: metric.start_time,
        end_time: metric.end_time,
        metadata: match metric.metadata {
            Some(given) => given@,
            None => Json::Object(
                seq![
                    Entry { key: "value"@, value: Json::Number(metric.value@) },
                    Entry { key: "unit"@, value: Json::Text(metric.unit@) },
                ],
            ),
        },
        details: Json::Object(
            seq![
                Entry { key: "metric_type"@, value: Json::Text(metric.metric_type@) },
                Entry { key: "value"@, value: Json::Number(metric.value@) },
                Entry { key: "unit"@, value: Json::Text(metric.unit@) },
                Entry { key: "source_device"@, value: text_or_null(metric.source_device) },
                Entry { key: "accuracy"@, value: integer_or_null(metric.accuracy) },
                Entry { key: "metadata"@, value: document_or_null(metric.metadata) },
            ],
        ),
    }
}

/// What is stored for a workout.
pub open spec fn workout_record(workout: Workout) -> HealthRecord {
    HealthRecord {
        table: DetailTable::Workouts,
        event_type: "workout"@,
        start_time: workout.start_time,
        end_time: workout.end_time,
        metadata: match workout.metadata {
            Some(given) => given@,
            None => Json::Object(
                seq![
                    Entry { key: "type"@, value: Json::Text(workout.workout_type@) },
                    Entry {
                        key: "duration_minutes"@,
                        value: Json::Number(
                            decimal_text(whole_minutes(workout.start_time, workout.end_time)),
                        ),
                    },
                    Entry { key: "distance_meters"@, value: number_or_null(workout.distance) },
                    Entry { key: "calories"@, value: number_or_null(workout.calories) },
                ],
            ),
        },
        details: Json::Object(
            seq![
                Entry { key: "workout_type"@, value: Json::Text(workout.workout_type@) },
                Entry { key: "distance"@, value: number_or_null(workout.distance) },
                Entry { key: "calories"@, value: number_or_null(workout.calories) },
                Entry { key: "avg_heart_rate"@, value: number_or_null(workout.avg_heart_rate) },
                Entry { key: "max_heart_rate"@, value: number_or_null(workout.max_heart_rate) },
                Entry { key: "metadata"@, value: document_or_null(workout.metadata) },
            ],
        ),
    }
}

/// What is stored for a sleep session.
pub open spec fn sleep_record(session: SleepSession) -> HealthRecord {
    HealthRecord {
        table: DetailTable::SleepSessions,
        event_type: "sleep"@,
        start_time: session.start_time,
        end_time: session.end_time,
        metadata: match session.metadata {
            Some(given) => given@,
            None => Json::Object(
                seq![
                    Entry { key: "quality"@, value: Json::Text(session.quality@) },
                    Entry {
                        key: "duration_minutes"@,
                        value: Json::Number(decimal_text(session.duration as int)),
                    },
                    Entry { key: "interruptions"@, value: integer_or_null(session.interruptions) },
                ],
            ),
        },
        details: Json::Object(
            seq![
                Entry { key: "quality"@, value: Json::Text(session.quality@) },
                Entry {
                    key: "duration"@,
                    value: Json::Number(decimal_text(session.duration as int)),
                },
                Entry { key: "interruptions"@, value: integer_or_null(session.interruptions) },
                Entry { key: "metadata"@, value: document_or_null(session.metadata) },
            ],
        ),
    }
}

/// Whether `row` is the event of `record`, stored under this id.
pub open spec fn is_event_of(row: EventRow, record: HealthRecord, id: i64, inserted_at: i64) -> bool {
    &&& row.id == id
    &&& row.timestamp == record.start_time
    &&& row.source@ == health_source()
    &&& row.event_type@ == record.event_type
    &&& row.metadata@ == record.metadata
    &&& row.inserted_at == inserted_at
    &&& row.partition_key@ == partition_key_text(record.start_time)
}

/// Whether `row` holds the details of `record`, for the event with this id.
pub open spec fn is_detail_of(row: DetailRow, record: HealthRecord, id: i64) -> bool {
    &&& row.event_id == id
    &&& row.start_time == record.start_time
    &&& row.end_time == record.end_time
    &&& row.details@ == record.details
}

/// The store after a health record was committed: one more event, with the
/// next id, and one more row in the record's table, for that event.
pub open spec fn health_committed(
    before: StoreModel,
    after: StoreModel,
    record: HealthRecord,
    inserted_at: i64,
) -> bool {
    &&& after == StoreModel {
        events: after.events,
        health_metrics: after.health_metrics,
        workouts: after.workouts,
        sleep_sessions: after.sleep_sessions,
        next_event_id: (before.next_event_id + 1) as i64,
        ..before
    }
    &&& after.events.len() == before.events.len() + 1
    &&& after.events.drop_last() == before.events
    &&& is_event_of(after.events.last(), record, before.next_event_id, inserted_at)
    &&& after.details(record.table).len() == before.details(record.table).len() + 1
    &&& after.details(record.table).drop_last() == before.details(record.table)
    &&& is_detail_of(after.details(record.table).last(), record, before.next_event_id)
    &&& forall|table: DetailTable|
        table != record.table ==> after.details(table) == before.details(table)
}

/// Committing a health record orphans nothing, and the new detail row has
/// its event.
pub proof fn commit_keeps_references(
    before: StoreModel,
    after: StoreModel,
    record: HealthRecord,
    inserted_at: i64,
)
    requires
        health_committed(before, after, record, inserted_at),
        before.references_intact(),
    ensures
        after.references_intact(),
{
    let n = before.events.len() as int;
    assert forall|table: DetailTable, i: int| 0 <= i < after.details(table).len() implies after.has_health_event(
        (#[trigger] after.details(table)[i]).event_id,
    ) by {
        let d = after.details(table)[i];
        if table == record.table && i == before.details(table).len() {
            assert(after.events[n].id == d.event_id);
        } else {
            if table == record.table {
                assert(after.details(table).drop_last()[i] == d);
            }
            assert(before.details(table)[i] == d);
            assert(before.has_health_event(before.details(table)[i].event_id));
            let k = choose|k: int|
                0 <= k < before.events.len() && (#[trigger] before.events[k]).id == d.event_id
                    && before.events[k].source@ == health_source();
            assert(after.events.drop_last()[k] == after.events[k]);
        }
    }
}

/// The whole minutes between two instants given in milliseconds.
pub fn minutes_between(start_time: i64, end_time: i64) -> (minutes: i64)
    ensures
        minutes == whole_minutes(start_time, end_time),
{
    let span: i128 = end_time as i128 - start_time as i128;
    (span / 60000) as i64
}

fn integer_or_null_value(n: Option<i32>) -> (v: JsonValue)
    ensures
        v@ == integer_or_null(n),
{
    match n {
        Some(n) => integer_value(n as i64),
        None => JsonValue::Null,
    }
}

fn document_or_null_value(document: &Option<JsonValue>) -> (v: JsonValue)
    ensures
        v@ == document_or_null(*document),
{
    match document {
        Some(d) => d.clone(),
        None => JsonValue::Null,
    }
}

/// Commits one health record: the event, under the next id, and its row of
/// details. Both rows are written or neither; the record is refused only
/// where the events table has no row id left. Returns the event's id.
pub fn commit_health_entry(store: &mut Store, entry: HealthEntry, inserted_at: i64) -> (r: Result<
    i64,
    StoreError,
>)
    ensures
        old(store).next_event_id < i64::MAX ==> r == Ok::<i64, StoreError>(
            old(store).next_event_id,
        ) && health_committed(old(store)@, final(store)@, entry@, inserted_at),
        old(store).next_event_id == i64::MAX ==> r == Err::<i64, StoreError>(
            StoreError::RowIdsExhausted,
        ) && final(store)@ == old(store)@,
{
    if store.next_event_id == i64::MAX {
        return Err(StoreError::RowIdsExhausted);
    }
    let id = store.next_event_id;
    let ghost before = store@;
    let HealthEntry { table, event_type, start_time, end_time, metadata, details } = entry;
    store.events.push(
        EventRow {
            id,
            timestamp: start_time,
            source: String::from_str("health"),
            event_type,
            metadata,
            inserted_at,
            partition_key: partition_key_for(start_time),
        },
    );
    let detail = DetailRow { event_id: id, start_time, end_time, details };
    match table {
        DetailTable::HealthMetrics => {
            store.health_metrics.push(detail);
        },
        DetailTable::Workouts => {
            store.workouts.push(detail);
        },
        DetailTable::SleepSessions => {
            store.sleep_sessions.push(detail);
        },
    }
    store.next_event_id = id + 1;
    proof {
        assert(store@.events.drop_last() =~= before.events);
        assert(store@.details(table).drop_last() =~= before.details(table));
    }
    Ok(id)
}

/// What is stored for a measurement: an event of type
/// `health_metric_<metric type>` and a row of the health metrics table.
/// Without metadata of its own the event's metadata are the value and the
/// unit.
pub fn health_metric_entry(metric: &HealthMetric) -> (entry: HealthEntry)
    ensures
        entry@ == metric_record(*metric),
{
    let mut event_type = String::from_str("health_metric_");
    event_type.append(metric.metric_type.as_str());
    let metadata = match &metric.metadata {
        Some(given) => given.clone(),
        None => {
            let mut members: Vec<Member> = Vec::new();
            members.push(member("value", number_value(metric.value.as_str())));
            members.push(member("unit", text_value(metric.unit.as_str())));
            assert(members_view(members@) =~= metric_record(*metric).metadata->Object_0);
            object_value(members)
        },
    };
    let mut columns: Vec<Member> = Vec::new();
    columns.push(member("metric_type", text_value(metric.metric_type.as_str())));
    columns.push(member("value", number_value(metric.value.as_str())));
    columns.push(member("unit", text_value(metric.unit.as_str())));
    columns.push(member("source_device", optional_text_value(&metric.source_device)));
    columns.push(member("accuracy", integer_or_null_value(metric.accuracy)));
    columns.push(member("metadata", document_or_null_value(&metric.metadata)));
    assert(members_view(columns@) =~= metric_record(*metric).details->Object_0);
    HealthEntry {
        table: DetailTable::HealthMetrics,
        event_type,
        start_time: metric.start_time,
        end_time: metric.end_time,
        metadata,
        details: object_value(columns),
    }
}

/// What is stored for a workout: an event of type `workout` and a row of
/// the workouts table. Without metadata of its own the event's metadata are
/// the kind of workout, its length in whole minutes, the distance and the
/// calories.
pub fn workout_entry(workout: &Workout) -> (entry: HealthEntry)
    ensures
        entry@ == workout_record(*workout),
{
    let metadata = match &workout.metadata {
        Some(given) => given.clone(),
        None => {
            let mut members: Vec<Member> = Vec::new();
            members.push(member("type", text_value(workout.workout_type.as_str())));
            members.push(
                member(
                    "duration_minutes",
                    integer_value(minutes_between(workout.start_time, workout.end_time)),
                ),
            );
            members.push(member("distance_meters", optional_number_value(&workout.distance)));
            members.push(member("calories", optional_number_value(&workout.calories)));
            assert(members_view(members@) =~= workout_record(*workout).metadata->Object_0);
            object_value(members)
        },
    };
    let mut columns: Vec<Member> = Vec::new();
    columns.push(member("workout_type", text_value(workout.workout_type.as_str())));
    columns.push(member("distance", optional_number_value(&workout.distance)));
    columns.push(member("calories", optional_number_value(&workout.calories)));
    columns.push(member("avg_heart_rate", optional_number_value(&workout.avg_heart_rate)));
    columns.push(member("max_heart_rate", optional_number_value(&workout.max_heart_rate)));
    columns.push(member("metadata", document_or_null_value(&workout.metadata)));
    assert(members_view(columns@) =~= workout_record(*workout).details->Object_0);
    HealthEntry {
        table: DetailTable::Workouts,
        event_type: String::from_str("workout"),
        start_time: workout.start_time,
        end_time: workout.end_time,
        metadata,
        details: object_value(columns),
    }
}

/// What is stored for a sleep session: an event of type `sleep` and a row
/// of the sleep sessions table. Without metadata of its own the event's
/// metadata are the quality, the duration in minutes and the number of
/// interruptions.
pub fn sleep_entry(session: &SleepSession) -> (entry: HealthEntry)
    ensures
        entry@ == sleep_record(*session),
{
    let metadata = match &session.metadata {
        Some(given) => given.clone(),
        None => {
            let mut members: Vec<Member> = Vec::new();
            members.push(member("quality", text_value(session.quality.as_str())));
            members.push(member("duration_minutes", integer_value(session.duration as i64)));
            members.push(member("interruptions", integer_or_null_value(session.interruptions)));
            assert(members_view(members@) =~= sleep_record(*session).metadata->Object_0);
            object_value(members)
        },
    };
    let mut columns: Vec<Member> = Vec::new();
    columns.push(member("quality", text_value(session.quality.as_str())));
    columns.push(member("duration", integer_value(session.duration as i64)));
    columns.push(member("interruptions", integer_or_null_value(session.interruptions)));
    columns.push(member("metadata", document_or_null_value(&session.metadata)));
    assert(members_view(columns@) =~= sleep_record(*session).details->Object_0);
    HealthEntry {
        table: DetailTable::SleepSessions,
        event_type: String::from_str("sleep"),
        start_time: session.start_time,
        end_time: session.end_time,
        metadata,
        details: object_value(columns),
    }
}

/// Stores a measurement: its event and its row of the health metrics table.
pub fn submit_health_metric(store: &mut Store, metric: &HealthMetric, inserted_at: i64) -> (r:
    Result<i64, StoreError>)
    ensures
        old(store).next_event_id < i64::MAX ==> r == Ok::<i64, StoreError>(
            old(store).next_event_id,
        ) && health_committed(old(store)@, final(store)@, metric_record(*metric), inserted_at),
        old(store).next_event_id == i64::MAX ==> r == Err::<i64, StoreError>(
            StoreError::RowIdsExhausted,
        ) && final(store)@ == old(store)@,
{
    commit_health_entry(store, health_metric_entry(metric), inserted_at)
}

/// Stores a workout: its event and its row of the workouts table.
pub fn submit_workout(store: &mut Store, workout: &Workout, inserted_at: i64) -> (r: Result<
    i64,
    StoreError,
>)
    ensures
        old(store).next_event_id < i64::MAX ==> r == Ok::<i64, StoreError>(
            old(store).next_event_id,
        ) && health_committed(old(store)@, final(store)@, workout_record(*workout), inserted_at),
        old(store).next_event_id == i64::MAX ==> r == Err::<i64, StoreError>(
            StoreError::RowIdsExhausted,
        ) && final(store)@ == old(store)@,
{
    commit_health_entry(store, workout_entry(workout), inserted_at)
}

/// Stores a sleep session: its event and its row of the sleep sessions
/// table.
pub fn submit_sleep_session(store: &mut Store, session: &SleepSession, inserted_at: i64) -> (r:
    Result<i64, StoreError>)
    ensures
        old(store).next_event_id < i64::MAX ==> r == Ok::<i64, StoreError>(
            old(store).next_event_id,
        ) && health_committed(old(store)@, final(store)@, sleep_record(*session), inserted_at),
        old(store).next_event_id == i64::MAX ==> r == Err::<i64, StoreError>(
            StoreError::RowIdsExhausted,
        ) && final(store)@ == old(store)@,
{
    commit_health_entry(store, sleep_entry(session), inserted_at)
}

/// Committing a health record keeps row ids fresh: every event's id stays
/// below the id that comes next.
pub proof fn commit_keeps_ids_fresh(
    before: StoreModel,
    after: StoreModel,
    record: HealthRecord,
    inserted_at: i64,
)
    requires
        health_committed(before, after, record, inserted_at),
        before.next_event_id < i64::MAX,
        before.ids_in_use(),
    ensures
        after.ids_in_use(),
{
    assert forall|i: int| 0 <= i < after.events.len() implies (#[trigger] after.events[i]).id
        < after.next_event_id by {
        if i < before.events.len() {
            assert(after.events.drop_last()[i] == after.events[i]);
        }
    }
}

/// Committing a health record keeps ids distinct: the new event gets an id
/// that no event has, so the new detail row belongs to it alone.
pub proof fn commit_keeps_ids_distinct(
    before: StoreModel,
    after: StoreModel,
    record: HealthRecord,
    inserted_at: i64,
)
    requires
        health_committed(before, after, record, inserted_at),
        before.ids_in_use(),
        before.ids_distinct(),
    ensures
        after.ids_distinct(),
{
    assert forall|i: int, j: int| 0 <= i < j < after.events.len() implies (
    #[trigger] after.events[i]).id != (#[trigger] after.events[j]).id by {
        assert(after.events.drop_last()[i] == after.events[i]);
        if j < before.events.len() {
            assert(after.events.drop_last()[j] == after.events[j]);
        }
    }
}

} // verus!
