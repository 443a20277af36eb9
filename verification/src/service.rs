//! The aggregator: the two pipelines, the schema registry and the store,
//! composed into one service.
//!
//! The service is driven from outside: records are submitted to it, the
//! timer of each stream is reported to it as a tick, and the time is handed
//! to it where it is needed. Summaries of long captures come from a service
//! of their own: a batch of captures that is due is handed out, and is
//! committed once its summaries are there.

use vstd::prelude::*;
use crate::batch::{fills, Batcher};
use crate::health::{
    health_committed, metric_record, sleep_record, workout_record, HealthMetric, SleepSession,
    Workout,
};
use crate::json::{Json, JsonValue};
use crate::model::{AggregatorConfig, Event, TextCapture};
use crate::pipeline::{
    captures_committed, events_committed, flush_batch, flush_text_batch, ids_suffice,
    is_prepared_capture, is_prepared_event, lacks_summary, prepare_event, prepare_text_capture,
    too_short, FlushError,
};
use crate::registry::{
    auto_register, auto_registered, metadata_violation, register_event_type, SchemaCache,
    SchemaKey, validate_event_metadata,
};
use crate::retention::{after_retention, results_of, run_retention_policies, RetentionResult};
use crate::schema::{reports, structure_defect, InvalidSchema, ValidationError};
use crate::store::{
    aggregates_view, is_row_of, GroupAggregate, Store, StoreError, StoreModel,
};

verus! {

/// The aggregator service.
pub struct Aggregator {
    pub config: AggregatorConfig,
    /// The buffer of the event stream.
    pub events: Batcher<Event>,
    /// The buffer of the text stream.
    pub texts: Batcher<TextCapture>,
    /// The schema registry.
    pub schemas: SchemaCache,
    pub store: Store,
    /// The flushes of the event stream that the store refused, oldest first.
    /// A refused flush is recorded here; it never reaches a submitter.
    pub refused_flushes: Vec<StoreError>,
}

/// The store with its table of event types replaced.
pub open spec fn with_event_types(m: StoreModel, event_types: Map<SchemaKey, Json>) -> StoreModel {
    StoreModel { event_types, ..m }
}

/// What a flush of the event stream does to the store: the batch is
/// committed where the row ids suffice, and dropped otherwise.
pub open spec fn batch_flushed(
    before: StoreModel,
    after: StoreModel,
    batch: Seq<Event>,
    inserted_at: i64,
) -> bool {
    if ids_suffice(before.next_event_id, batch.len()) {
        events_committed(before, after, batch, inserted_at)
    } else {
        after == before
    }
}

/// The record of refused flushes after a flush of `batch`: one refusal
/// longer where the row ids do not suffice, and as it was otherwise.
pub open spec fn refusals_after(
    refusals: Seq<StoreError>,
    before: StoreModel,
    batch: Seq<Event>,
) -> Seq<StoreError> {
    if ids_suffice(before.next_event_id, batch.len()) {
        refusals
    } else {
        refusals.push(StoreError::RowIdsExhausted)
    }
}

/// Rows of a batch are rows of the events as they were submitted: a row's
/// partition key is the event's own or that of its timestamp, whether it was
/// assigned at submission or at the flush.
pub proof fn prepared_rows_are_rows(
    before: StoreModel,
    after: StoreModel,
    pending: Seq<Event>,
    prepared: Event,
    event: Event,
    inserted_at: i64,
)
    requires
        is_prepared_event(prepared, event),
        events_committed(before, after, pending.push(prepared), inserted_at),
    ensures
        events_committed(before, after, pending.push(event), inserted_at),
{
    let old_batch = pending.push(prepared);
    let new_batch = pending.push(event);
    assert forall|k: int| 0 <= k < new_batch.len() implies is_row_of(
        #[trigger] after.events[before.events.len() + k],
        new_batch[k],
        (before.next_event_id + k) as i64,
        inserted_at,
    ) by {
        assert(is_row_of(
            after.events[before.events.len() + k],
            old_batch[k],
            (before.next_event_id + k) as i64,
            inserted_at,
        ));
    }
}

impl Aggregator {
    /// A service with empty buffers, an empty registry and an empty store.
    pub fn new(config: AggregatorConfig) -> (service: Self)
        ensures
            service.config == config,
            service.events@ == Seq::<Event>::empty(),
            service.events.limit() == config.batch_size,
            service.texts@ == Seq::<TextCapture>::empty(),
            service.texts.limit() == config.batch_size,
            service.schemas@ == Map::<SchemaKey, Json>::empty(),
            service.store@ == StoreModel::empty(),
            service.refused_flushes@ == Seq::<StoreError>::empty(),
    {
        let events = Batcher::new(config.batch_size);
        let texts = Batcher::new(config.batch_size);
        Aggregator {
            config,
            events,
            texts,
            schemas: SchemaCache::new(),
            store: Store::new(),
            refused_flushes: Vec::new(),
        }
    }

    /// A service with empty buffers over a store that already holds data;
    /// the registry is loaded from the store's table of event types.
    pub fn with_store(config: AggregatorConfig, store: Store) -> (service: Self)
        ensures
            service.config == config,
            service.events@ == Seq::<Event>::empty(),
            service.events.limit() == config.batch_size,
            service.texts@ == Seq::<TextCapture>::empty(),
            service.texts.limit() == config.batch_size,
            service.schemas@ == store@.event_types,
            service.store == store,
            service.refused_flushes@ == Seq::<StoreError>::empty(),
    {
        let events = Batcher::new(config.batch_size);
        let texts = Batcher::new(config.batch_size);
        let schemas = store.event_types.clone();
        Aggregator { config, events, texts, schemas, store, refused_flushes: Vec::new() }
    }

    /// Submits an event at the time `now`, in seconds since the epoch.
    ///
    /// An event type that is not registered is registered with the
    /// permissive schema, in the store and in the registry. The event is
    /// given a partition key where it has none, and is buffered. A buffer
    /// that is full with it is flushed: its events are committed in the
    /// order in which they were submitted. Where the store refuses the
    /// batch, the batch is dropped and the refusal recorded: the submitter
    /// does not learn of it.
    pub fn submit_event(&mut self, event: Event, now: i64)
        ensures
            final(self).config == old(self).config,
            final(self).texts == old(self).texts,
            final(self).events.limit() == old(self).events.limit(),
            final(self).schemas@ == auto_registered(
                old(self).schemas@,
                (event.source@, event.event_type@),
            ),
            final(self).store@.event_types == auto_registered(
                old(self).store@.event_types,
                (event.source@, event.event_type@),
            ),
            fills(old(self).events@, old(self).events.limit()) ==> {
                &&& final(self).events@ == Seq::<Event>::empty()
                &&& batch_flushed(
                    with_event_types(old(self).store@, final(self).store@.event_types),
                    final(self).store@,
                    old(self).events@.push(event),
                    now,
                )
                &&& final(self).refused_flushes@ == refusals_after(
                    old(self).refused_flushes@,
                    old(self).store@,
                    old(self).events@.push(event),
                )
            },
            !fills(old(self).events@, old(self).events.limit()) ==> {
                &&& final(self).store@ == with_event_types(
                    old(self).store@,
                    final(self).store@.event_types,
                )
                &&& final(self).events@.len() == old(self).events@.len() + 1
                &&& final(self).events@.drop_last() == old(self).events@
                &&& is_prepared_event(final(self).events@.last(), event)
                &&& final(self).refused_flushes@ == old(self).refused_flushes@
            },
    {
        auto_register(&mut self.store.event_types, event.source.as_str(), event.event_type.as_str());
        auto_register(&mut self.schemas, event.source.as_str(), event.event_type.as_str());
        let ghost registered = self.store@;
        let prepared = prepare_event(event);
        match self.events.push(prepared) {
            Some(batch) => {
                match flush_batch(&mut self.store, batch, now) {
                    Ok(()) => {
                        proof {
                            prepared_rows_are_rows(
                                registered,
                                self.store@,
                                old(self).events@,
                                prepared,
                                event,
                                now,
                            );
                        }
                    },
                    Err(refusal) => {
                        self.refused_flushes.push(refusal);
                    },
                }
            },
            None => {
                assert(self.events@.drop_last() =~= old(self).events@);
            },
        }
    }

    /// The timer of the event stream fired at the time `now`, in seconds
    /// since the epoch: buffered events are flushed. Where the store refuses
    /// the batch, the batch is dropped and the refusal recorded.
    pub fn tick_events(&mut self, now: i64)
        ensures
            final(self).config == old(self).config,
            final(self).texts == old(self).texts,
            final(self).schemas == old(self).schemas,
            final(self).events.limit() == old(self).events.limit(),
            final(self).events@ == Seq::<Event>::empty(),
            batch_flushed(old(self).store@, final(self).store@, old(self).events@, now),
            final(self).refused_flushes@ == refusals_after(
                old(self).refused_flushes@,
                old(self).store@,
                old(self).events@,
            ),
    {
        match self.events.tick() {
            Some(batch) => {
                match flush_batch(&mut self.store, batch, now) {
                    Ok(()) => {},
                    Err(refusal) => {
                        self.refused_flushes.push(refusal);
                    },
                }
            },
            None => {
                assert(self.store@.events.take(self.store@.events.len() as int)
                    =~= self.store@.events);
            },
        }
    }

    /// Submits a text capture.
    ///
    /// A capture whose text is shorter than the configured minimum is
    /// dropped, and nothing changes. Any other is given a partition key
    /// where it has none, and is buffered. When the buffer is full with it,
    /// the buffered captures are handed out as a batch, oldest first, to be
    /// summarized and committed.
    pub fn submit_text_capture(&mut self, capture: TextCapture) -> (due: Option<Vec<TextCapture>>)
        ensures
            final(self).config == old(self).config,
            final(self).events == old(self).events,
            final(self).schemas == old(self).schemas,
            final(self).refused_flushes == old(self).refused_flushes,
            final(self).store == old(self).store,
            final(self).texts.limit() == old(self).texts.limit(),
            too_short(capture.text@, old(self).config.text_capture_config) ==> due is None
                && final(self).texts@ == old(self).texts@,
            !too_short(capture.text@, old(self).config.text_capture_config) ==> {
                let all = match due {
                    Some(batch) => batch@,
                    None => final(self).texts@,
                };
                &&& due is Some <==> fills(old(self).texts@, old(self).texts.limit())
                &&& due is Some ==> final(self).texts@ == Seq::<TextCapture>::empty()
                &&& all.len() == old(self).texts@.len() + 1
                &&& all.drop_last() == old(self).texts@
                &&& is_prepared_capture(all.last(), capture)
            },
    {
        match prepare_text_capture(capture, &self.config.text_capture_config) {
            None => None,
            Some(prepared) => {
                let due = self.texts.push(prepared);
                proof {
                    let all = crate::batch::flushed(due) + self.texts@;
                    assert(all =~= old(self).texts@.push(prepared));
                    assert(all.drop_last() =~= old(self).texts@);
                    if due is Some {
                        assert(all =~= due.unwrap()@);
                    } else {
                        assert(all =~= self.texts@);
                    }
                }
                due
            },
        }
    }

    /// The timer of the text stream fired: buffered captures are handed out
    /// as a batch, oldest first, to be summarized and committed.
    pub fn tick_texts(&mut self) -> (due: Option<Vec<TextCapture>>)
        ensures
            final(self).config == old(self).config,
            final(self).events == old(self).events,
            final(self).schemas == old(self).schemas,
            final(self).refused_flushes == old(self).refused_flushes,
            final(self).store == old(self).store,
            final(self).texts.limit() == old(self).texts.limit(),
            final(self).texts@ == Seq::<TextCapture>::empty(),
            old(self).texts@.len() > 0 ==> due is Some && due.unwrap()@ == old(self).texts@,
            old(self).texts@.len() == 0 ==> due is None,
    {
        self.texts.tick()
    }

    /// Commits a batch of captures with the summaries that the summarization
    /// service returned for it, by index of the batch. Where a capture that
    /// needs a summary has none, nothing is committed and the batch is lost.
    pub fn commit_text_batch(
        &mut self,
        batch: Vec<TextCapture>,
        summaries: &Vec<Option<String>>,
    ) -> (r: Result<(), FlushError>)
        ensures
            final(self).config == old(self).config,
            final(self).events == old(self).events,
            final(self).texts == old(self).texts,
            final(self).schemas == old(self).schemas,
            final(self).refused_flushes == old(self).refused_flushes,
            match r {
                Ok(()) => {
                    &&& forall|j: int|
                        0 <= j < batch@.len() ==> !lacks_summary(
                            batch@,
                            summaries@,
                            old(self).config.text_capture_config,
                            j,
                        )
                    &&& captures_committed(
                        old(self).store@,
                        final(self).store@,
                        batch@,
                        summaries@,
                        old(self).config.text_capture_config,
                    )
                },
                Err(FlushError::SummaryMissing(i)) => {
                    &&& i < batch@.len()
                    &&& lacks_summary(
                        batch@,
                        summaries@,
                        old(self).config.text_capture_config,
                        i as int,
                    )
                    &&& forall|j: int|
                        0 <= j < i ==> !lacks_summary(
                            batch@,
                            summaries@,
                            old(self).config.text_capture_config,
                            j,
                        )
                    &&& final(self).store@ == old(self).store@
                },
            },
    {
        flush_text_batch(&mut self.store, batch, summaries, &self.config.text_capture_config)
    }

    /// Runs the retention policies of the store at the time `now`, in
    /// seconds since the epoch. `aggregates` holds what was aggregated from
    /// the metadata of the groups of aged events. Returns what each policy
    /// did.
    pub fn run_retention(&mut self, now: i64, aggregates: &Vec<GroupAggregate>) -> (results: Vec<
        RetentionResult,
    >)
        ensures
            final(self).config == old(self).config,
            final(self).events == old(self).events,
            final(self).texts == old(self).texts,
            final(self).schemas == old(self).schemas,
            final(self).refused_flushes == old(self).refused_flushes,
            final(self).store@ == after_retention(
                old(self).store@,
                now,
                aggregates_view(aggregates@),
            ),
            results@ == results_of(
                old(self).store@,
                old(self).store@.retention_policies,
                now,
                aggregates_view(aggregates@),
            ),
    {
        run_retention_policies(&mut self.store, now, aggregates)
    }

    /// Registers the schema of an event type, in the store and then in the
    /// registry. A document that cannot serve as a schema is rejected, and
    /// nothing changes.
    pub fn register_event_type(&mut self, source: &str, event_type: &str, schema: JsonValue) -> (r:
        Result<(), InvalidSchema>)
        ensures
            final(self).config == old(self).config,
            final(self).events == old(self).events,
            final(self).texts == old(self).texts,
            final(self).refused_flushes == old(self).refused_flushes,
            match structure_defect(schema@) {
                Some(defect) => {
                    &&& r == Err::<(), InvalidSchema>(defect)
                    &&& final(self).schemas@ == old(self).schemas@
                    &&& final(self).store@ == old(self).store@
                },
                None => {
                    &&& r == Ok::<(), InvalidSchema>(())
                    &&& final(self).schemas@ == old(self).schemas@.insert(
                        (source@, event_type@),
                        schema@,
                    )
                    &&& final(self).store@ == with_event_types(
                        old(self).store@,
                        old(self).store@.event_types.insert((source@, event_type@), schema@),
                    )
                },
            },
    {
        let copy = schema.clone();
        match register_event_type(&mut self.store.event_types, source, event_type, copy) {
            Err(defect) => Err(defect),
            Ok(()) => register_event_type(&mut self.schemas, source, event_type, schema),
        }
    }

    /// Validates the metadata of an event against the schema registered for
    /// its source and event type. Metadata of an unregistered event type
    /// passes.
    pub fn validate_event_metadata(&self, source: &str, event_type: &str, metadata: &JsonValue) -> (r:
        Result<(), ValidationError>)
        ensures
            reports(r, metadata_violation(self.schemas@, (source@, event_type@), metadata@)),
    {
        validate_event_metadata(&self.schemas, source, event_type, metadata)
    }

    /// Stores a measurement at the time `now`, in seconds since the epoch.
    /// Returns the id of its event.
    pub fn submit_health_metric(&mut self, metric: &HealthMetric, now: i64) -> (r: Result<
        i64,
        StoreError,
    >)
        ensures
            final(self).config == old(self).config,
            final(self).events == old(self).events,
            final(self).texts == old(self).texts,
            final(self).schemas == old(self).schemas,
            final(self).refused_flushes == old(self).refused_flushes,
            old(self).store.next_event_id < i64::MAX ==> r == Ok::<i64, StoreError>(
                old(self).store.next_event_id,
            ) && health_committed(
                old(self).store@,
                final(self).store@,
                metric_record(*metric),
                now,
            ),
            old(self).store.next_event_id == i64::MAX ==> r == Err::<i64, StoreError>(
                StoreError::RowIdsExhausted,
            ) && final(self).store@ == old(self).store@,
    {
        crate::health::submit_health_metric(&mut self.store, metric, now)
    }

    /// Stores a workout at the time `now`, in seconds since the epoch.
    /// Returns the id of its event.
    pub fn submit_workout(&mut self, workout: &Workout, now: i64) -> (r: Result<i64, StoreError>)
        ensures
            final(self).config == old(self).config,
            final(self).events == old(self).events,
            final(self).texts == old(self).texts,
            final(self).schemas == old(self).schemas,
            final(self).refused_flushes == old(self).refused_flushes,
            old(self).store.next_event_id < i64::MAX ==> r == Ok::<i64, StoreError>(
                old(self).store.next_event_id,
            ) && health_committed(
                old(self).store@,
                final(self).store@,
                workout_record(*workout),
                now,
            ),
            old(self).store.next_event_id == i64::MAX ==> r == Err::<i64, StoreError>(
                StoreError::RowIdsExhausted,
            ) && final(self).store@ == old(self).store@,
    {
        crate::health::submit_workout(&mut self.store, workout, now)
    }

    /// Stores a sleep session at the time `now`, in seconds since the epoch.
    /// Returns the id of its event.
    pub fn submit_sleep_session(&mut self, session: &SleepSession, now: i64) -> (r: Result<
        i64,
        StoreError,
    >)
        ensures
            final(self).config == old(self).config,
            final(self).events == old(self).events,
            final(self).texts == old(self).texts,
            final(self).schemas == old(self).schemas,
            final(self).refused_flushes == old(self).refused_flushes,
            old(self).store.next_event_id < i64::MAX ==> r == Ok::<i64, StoreError>(
                old(self).store.next_event_id,
            ) && health_committed(
                old(self).store@,
                final(self).store@,
                sleep_record(*session),
                now,
            ),
            old(self).store.next_event_id == i64::MAX ==> r == Err::<i64, StoreError>(
                StoreError::RowIdsExhausted,
            ) && final(self).store@ == old(self).store@,
    {
        crate::health::submit_sleep_session(&mut self.store, session, now)
    }
}

} // verus!
