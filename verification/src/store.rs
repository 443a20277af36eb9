//! The contents of the store: its tables as sequences of rows, and the
//! writes that the pipelines commit to it.

use vstd::prelude::*;
use crate::json::JsonValue;
use crate::model::{CaptureContext, Event, TextCapture, TextType};
use crate::partition::{
    partition_key_for, partition_key_text, utc_year_month, whole_seconds, year_month_text,
};
use crate::json::Json;
use crate::registry::{SchemaCache, SchemaKey};

verus! {

/// A committed event.
#[derive(Clone, Debug)]
pub struct EventRow {
    pub id: i64,
    /// Milliseconds since the epoch.
    pub timestamp: i64,
    pub source: String,
    pub event_type: String,
    pub metadata: JsonValue,
    /// Seconds since the epoch at which the row was written.
    pub inserted_at: i64,
    pub partition_key: String,
}

/// A row of one of the health tables: the details of the health event with
/// id `event_id`.
#[derive(Clone, Debug)]
pub struct DetailRow {
    pub event_id: i64,
    /// Milliseconds since the epoch.
    pub start_time: i64,
    /// Milliseconds since the epoch.
    pub end_time: i64,
    /// The remaining columns of the table, by name.
    pub details: JsonValue,
}

/// A committed text capture.
#[derive(Clone, Debug)]
pub struct TextCaptureRow {
    pub text: String,
    pub app_name: String,
    pub window_title: String,
    /// Milliseconds since the epoch.
    pub timestamp: i64,
    pub text_type: TextType,
    pub context: CaptureContext,
    pub summary: Option<String>,
    pub partition_key: String,
}

/// How many events of one type one source produced on one day, and what
/// was aggregated from their metadata.
#[derive(Clone, Debug)]
pub struct EventStatistic {
    /// Days since 1970-01-01.
    pub day: i64,
    pub source: String,
    pub event_type: String,
    pub count: i64,
    /// What was aggregated from the metadata of the events: an object with
    /// at least the members `avg_duration` and `total_count`.
    pub metadata: JsonValue,
    /// Seconds since the epoch at which the row was last written.
    pub updated_at: i64,
}

/// Model of an `EventStatistic`.
pub struct Statistic {
    pub day: i64,
    pub source: Seq<char>,
    pub event_type: Seq<char>,
    pub count: i64,
    pub metadata: Json,
    pub updated_at: i64,
}

impl View for EventStatistic {
    type V = Statistic;

    open spec fn view(&self) -> Statistic {
        Statistic {
            day: self.day,
            source: self.source@,
            event_type: self.event_type@,
            count: self.count,
            metadata: self.metadata@,
            updated_at: self.updated_at,
        }
    }
}

/// The models of statistics, in order.
pub open spec fn statistics_view(rows: Seq<EventStatistic>) -> Seq<Statistic> {
    Seq::new(rows.len(), |i: int| rows[i]@)
}

/// What the store aggregated from the metadata of one group of events: the
/// events of one type that one source produced on one day.
#[derive(Clone, Debug)]
pub struct GroupAggregate {
    /// Days since 1970-01-01.
    pub day: i64,
    pub source: String,
    pub event_type: String,
    /// The aggregate: the mean of the events' `duration` as `avg_duration`,
    /// the sum of their `count` as `total_count`.
    pub metadata: JsonValue,
}

/// Model of a `GroupAggregate`.
pub struct Aggregate {
    pub day: i64,
    pub source: Seq<char>,
    pub event_type: Seq<char>,
    pub metadata: Json,
}

impl View for GroupAggregate {
    type V = Aggregate;

    open spec fn view(&self) -> Aggregate {
        Aggregate {
            day: self.day,
            source: self.source@,
            event_type: self.event_type@,
            metadata: self.metadata@,
        }
    }
}

/// The models of aggregates, in order.
pub open spec fn aggregates_view(rows: Seq<GroupAggregate>) -> Seq<Aggregate> {
    Seq::new(rows.len(), |i: int| rows[i]@)
}

/// How long the events of one source are kept.
#[derive(Clone, Debug)]
pub struct RetentionPolicy {
    pub source: String,
    pub retention_days: i64,
    /// Where aged events are summarized before they are deleted, if anywhere.
    pub summary_table: Option<String>,
}

/// The three tables that hold the details of health events.
#[derive(Clone, Copy, Debug, PartialEq, Eq, Structural)]
pub enum DetailTable {
    HealthMetrics,
    Workouts,
    SleepSessions,
}

/// Why a write was refused.
#[derive(Clone, Copy, Debug, PartialEq, Eq, Structural)]
pub enum StoreError {
    /// The table has no row ids left for the rows to be written.
    RowIdsExhausted,
}

/// The store.
#[derive(Clone, Debug)]
pub struct Store {
    pub events: Vec<EventRow>,
    pub health_metrics: Vec<DetailRow>,
    pub workouts: Vec<DetailRow>,
    pub sleep_sessions: Vec<DetailRow>,
    pub event_statistics: Vec<EventStatistic>,
    pub retention_policies: Vec<RetentionPolicy>,
    /// The registered schemas, one for each source and event type.
    pub event_types: SchemaCache,
    pub text_captures: Vec<TextCaptureRow>,
    /// The id that the next event row gets.
    pub next_event_id: i64,
}

/// Model of the store: each table as the sequence of its rows, oldest first.
pub struct StoreModel {
    pub events: Seq<EventRow>,
    pub health_metrics: Seq<DetailRow>,
    pub workouts: Seq<DetailRow>,
    pub sleep_sessions: Seq<DetailRow>,
    pub event_statistics: Seq<Statistic>,
    pub retention_policies: Seq<RetentionPolicy>,
    pub event_types: Map<SchemaKey, Json>,
    pub text_captures: Seq<TextCaptureRow>,
    pub next_event_id: i64,
}

impl View for Store {
    type V = StoreModel;

    open spec fn view(&self) -> StoreModel {
        StoreModel {
            events: self.events@,
            health_metrics: self.health_metrics@,
            workouts: self.workouts@,
            sleep_sessions: self.sleep_sessions@,
            event_statistics: statistics_view(self.event_statistics@),
            retention_policies: self.retention_policies@,
            event_types: self.event_types@,
            text_captures: self.text_captures@,
            next_event_id: self.next_event_id,
        }
    }
}

/// The source under which health events are stored.
pub open spec fn health_source() -> Seq<char> {
    "health"@
}

impl StoreModel {
    /// The store with nothing in it, whose first event gets the id 1.
    pub open spec fn empty() -> StoreModel {
        StoreModel {
            events: Seq::empty(),
            health_metrics: Seq::empty(),
            workouts: Seq::empty(),
            sleep_sessions: Seq::empty(),
            event_statistics: Seq::empty(),
            retention_policies: Seq::empty(),
            event_types: Map::empty(),
            text_captures: Seq::empty(),
            next_event_id: 1,
        }
    }

    /// The rows of one of the health tables.
    pub open spec fn details(self, table: DetailTable) -> Seq<DetailRow> {
        match table {
            DetailTable::HealthMetrics => self.health_metrics,
            DetailTable::Workouts => self.workouts,
            DetailTable::SleepSessions => self.sleep_sessions,
        }
    }

    /// Whether the store holds a health event with this id.
    pub open spec fn has_health_event(self, id: i64) -> bool {
        exists|i: int|
            0 <= i < self.events.len() && (#[trigger] self.events[i]).id == id
                && self.events[i].source@ == health_source()
    }

    /// No detail row is orphaned: each belongs to a health event that the
    /// store holds.
    pub open spec fn references_intact(self) -> bool {
        forall|table: DetailTable, i: int|
            0 <= i < self.details(table).len() ==> self.has_health_event(
                (#[trigger] self.details(table)[i]).event_id,
            )
    }

    /// Every event's id is below the id that comes next, so a new row's id
    /// is fresh.
    pub open spec fn ids_in_use(self) -> bool {
        forall|i: int| 0 <= i < self.events.len() ==> (#[trigger] self.events[i]).id < self.next_event_id
    }

    /// No two events share an id, so an id names one event.
    pub open spec fn ids_distinct(self) -> bool {
        distinct_ids(self.events)
    }
}

/// Whether no two of the events share an id.
pub open spec fn distinct_ids(events: Seq<EventRow>) -> bool {
    forall|i: int, j: int|
        0 <= i < j < events.len() ==> (#[trigger] events[i]).id != (#[trigger] events[j]).id
}

/// The partition key that a record is stored under: its own, or the one
/// that its timestamp gives.
pub open spec fn stored_partition_key(own: Option<String>, timestamp: i64) -> Seq<char> {
    match own {
        Some(key) => key@,
        None => partition_key_text(timestamp),
    }
}

fn partition_key_or_default(own: Option<String>, timestamp: i64) -> (key: String)
    ensures
        key@ == stored_partition_key(own, timestamp),
{
    match own {
        Some(key) => key,
        None => partition_key_for(timestamp),
    }
}

/// Whether `row` is what `event` is stored as, under this id and time of
/// writing.
pub open spec fn is_row_of(row: EventRow, event: Event, id: i64, inserted_at: i64) -> bool {
    &&& row.id == id
    &&& row.timestamp == event.timestamp
    &&& row.source == event.source
    &&& row.event_type == event.event_type
    &&& row.metadata == event.metadata
    &&& row.inserted_at == inserted_at
    &&& row.partition_key@ == stored_partition_key(event.partition_key, event.timestamp)
}

/// The row that an event is stored as.
pub fn event_row(event: Event, id: i64, inserted_at: i64) -> (row: EventRow)
    ensures
        is_row_of(row, event, id, inserted_at),
{
    let Event { timestamp, source, event_type, metadata, partition_key } = event;
    EventRow {
        id,
        timestamp,
        source,
        event_type,
        metadata,
        inserted_at,
        partition_key: partition_key_or_default(partition_key, timestamp),
    }
}

/// Whether `row` is what `capture` is stored as, with this summary.
pub open spec fn is_capture_row_of(
    row: TextCaptureRow,
    capture: TextCapture,
    summary: Option<String>,
) -> bool {
    &&& row.text == capture.text
    &&& row.app_name == capture.app_name
    &&& row.window_title == capture.window_title
    &&& row.timestamp == capture.timestamp
    &&& row.text_type == capture.text_type
    &&& row.context == capture.context
    &&& row.summary == summary
    &&& row.partition_key@ == stored_partition_key(capture.partition_key, capture.timestamp)
}

/// The row that a text capture is stored as.
pub fn text_capture_row(capture: TextCapture, summary: Option<String>) -> (row: TextCaptureRow)
    ensures
        is_capture_row_of(row, capture, summary),
{
    let TextCapture { text, app_name, window_title, timestamp, text_type, context, partition_key } =
        capture;
    TextCaptureRow {
        text,
        app_name,
        window_title,
        timestamp,
        text_type,
        context,
        summary,
        partition_key: partition_key_or_default(partition_key, timestamp),
    }
}

impl Store {
    /// An empty store, whose first event gets the id 1.
    pub fn new() -> (store: Self)
        ensures
            store@ == StoreModel::empty(),
            store@.references_intact(),
            store@.ids_in_use(),
            store@.ids_distinct(),
    {
        assert(statistics_view(Seq::<EventStatistic>::empty()) =~= Seq::<Statistic>::empty());
        Store {
            events: Vec::new(),
            health_metrics: Vec::new(),
            workouts: Vec::new(),
            sleep_sessions: Vec::new(),
            event_statistics: Vec::new(),
            retention_policies: Vec::new(),
            event_types: SchemaCache::new(),
            text_captures: Vec::new(),
            next_event_id: 1,
        }
    }
}

/// An event that is submitted without a partition key is stored under the
/// UTC year and month of the second in which its timestamp falls, before
/// the epoch as after it, written `<year>_<month>` with a two-digit month.
pub proof fn stored_key_is_year_and_month(
    row: EventRow,
    event: Event,
    id: i64,
    inserted_at: i64,
    year: i32,
    month: u32,
)
    requires
        is_row_of(row, event, id, inserted_at),
        event.partition_key is None,
        utc_year_month(whole_seconds(event.timestamp as int) as i64) == Some((year, month)),
    ensures
        row.partition_key@ == year_month_text(year as int, month as nat),
{
}

/// A capture that is submitted without a partition key is stored under the
/// UTC year and month of the second in which its timestamp falls, before
/// the epoch as after it.
pub proof fn stored_capture_key_is_year_and_month(
    row: TextCaptureRow,
    capture: TextCapture,
    summary: Option<String>,
    year: i32,
    month: u32,
)
    requires
        is_capture_row_of(row, capture, summary),
        capture.partition_key is None,
        utc_year_month(whole_seconds(capture.timestamp as int) as i64) == Some((year, month)),
    ensures
        row.partition_key@ == year_month_text(year as int, month as nat),
{
}

/// A record that is submitted with a partition key is stored under it.
pub proof fn own_key_is_kept(row: EventRow, event: Event, id: i64, inserted_at: i64)
    requires
        is_row_of(row, event, id, inserted_at),
        event.partition_key is Some,
    ensures
        row.partition_key@ == event.partition_key.unwrap()@,
{
}

} // verus!
