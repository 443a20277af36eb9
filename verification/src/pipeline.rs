//! What the two pipelines decide: which submissions are taken, what a
//! record looks like when it is enqueued, and what a flush commits.

use vstd::prelude::*;
use crate::model::{text_len, text_length, Event, TextCapture, TextCaptureConfig};
use crate::partition::{partition_key_for, partition_key_text};
use crate::store::{
    event_row, is_capture_row_of, is_row_of, text_capture_row, EventRow, Store, StoreError,
    StoreModel, TextCaptureRow,
};

verus! {

/// Whether `n` new event rows can be given ids from `next` on.
pub open spec fn ids_suffice(next: i64, n: nat) -> bool {
    next + n <= i64::MAX
}

/// The store after a batch of events was committed: the batch's rows follow
/// the rows that were there, in the order of the batch, with consecutive ids.
pub open spec fn events_committed(
    before: StoreModel,
    after: StoreModel,
    events: Seq<Event>,
    inserted_at: i64,
) -> bool {
    &&& after == StoreModel {
        events: after.events,
        next_event_id: (before.next_event_id + events.len()) as i64,
        ..before
    }
    &&& after.events.len() == before.events.len() + events.len()
    &&& after.events.take(before.events.len() as int) == before.events
    &&& forall|k: int|
        0 <= k < events.len() ==> is_row_of(
            #[trigger] after.events[before.events.len() + k],
            events[k],
            (before.next_event_id + k) as i64,
            inserted_at,
        )
}

/// Commits a batch of events: one row for each, in the order of the batch.
///
/// The batch is written whole or not at all. It is refused only where the
/// table has too few row ids left.
pub fn flush_batch(store: &mut Store, events: Vec<Event>, inserted_at: i64) -> (r: Result<
    (),
    StoreError,
>)
    ensures
        ids_suffice(old(store).next_event_id, events@.len()) ==> r is Ok && events_committed(
            old(store)@,
            final(store)@,
            events@,
            inserted_at,
        ),
        !ids_suffice(old(store).next_event_id, events@.len()) ==> r == Err::<(), StoreError>(
            StoreError::RowIdsExhausted,
        ) && final(store)@ == old(store)@,
{
    if store.next_event_id as i128 + events.len() as i128 > i64::MAX as i128 {
        return Err(StoreError::RowIdsExhausted);
    }
    let ghost before = store@;
    let ghost batch = events@;
    assert(store@.events.take(before.events.len() as int) =~= before.events);
    for event in it: events
        invariant
            batch == it.seq(),
            ids_suffice(before.next_event_id, batch.len()),
            events_committed(before, store@, batch.take(it.index() as int), inserted_at),
    {
        let id = store.next_event_id;
        let ghost k = it.index() as int;
        let ghost earlier = store@;
        let row = event_row(event, id, inserted_at);
        store.events.push(row);
        store.next_event_id = id + 1;
        proof {
            assert(batch.take(k + 1) =~= batch.take(k).push(batch[k]));
            assert(store@.events.take(before.events.len() as int) =~= before.events);
        }
    }
    assert(batch.take(batch.len() as int) =~= batch);
    Ok(())
}

/// Whether `prepared` is `event` as it is enqueued: the same record, with
/// its own partition key or, where it had none, that of its timestamp.
pub open spec fn is_prepared_event(prepared: Event, event: Event) -> bool {
    &&& prepared.timestamp == event.timestamp
    &&& prepared.source == event.source
    &&& prepared.event_type == event.event_type
    &&& prepared.metadata == event.metadata
    &&& match event.partition_key {
        Some(key) => prepared.partition_key == Some(key),
        None => prepared.partition_key is Some && prepared.partition_key.unwrap()@
            == partition_key_text(event.timestamp),
    }
}

/// Whether `prepared` is `capture` as it is enqueued: the same record, with
/// its own partition key or, where it had none, that of its timestamp.
pub open spec fn is_prepared_capture(prepared: TextCapture, capture: TextCapture) -> bool {
    &&& prepared.text == capture.text
    &&& prepared.app_name == capture.app_name
    &&& prepared.window_title == capture.window_title
    &&& prepared.timestamp == capture.timestamp
    &&& prepared.text_type == capture.text_type
    &&& prepared.context == capture.context
    &&& match capture.partition_key {
        Some(key) => prepared.partition_key == Some(key),
        None => prepared.partition_key is Some && prepared.partition_key.unwrap()@
            == partition_key_text(capture.timestamp),
    }
}

/// Gives an event the partition key of its timestamp, unless it has one.
pub fn prepare_event(event: Event) -> (prepared: Event)
    ensures
        is_prepared_event(prepared, event),
{
    let Event { timestamp, source, event_type, metadata, partition_key } = event;
    let partition_key = match partition_key {
        Some(key) => Some(key),
        None => Some(partition_key_for(timestamp)),
    };
    Event { timestamp, source, event_type, metadata, partition_key }
}

/// Whether a text of this length is too short to be stored.
pub open spec fn too_short(text: Seq<char>, config: TextCaptureConfig) -> bool {
    text_length(text) < config.min_text_length
}

/// Whether a text of this length is stored with a summary.
pub open spec fn needs_summary(text: Seq<char>, config: TextCaptureConfig) -> bool {
    text_length(text) >= config.summarization_threshold
}

/// Decides what becomes of a submitted capture: a capture whose text is too
/// short is dropped, any other is enqueued with a partition key.
pub fn prepare_text_capture(capture: TextCapture, config: &TextCaptureConfig) -> (prepared: Option<
    TextCapture,
>)
    ensures
        too_short(capture.text@, *config) <==> prepared is None,
        prepared matches Some(kept) ==> is_prepared_capture(kept, capture),
{
    if text_len(&capture.text) < config.min_text_length {
        return None;
    }
    let TextCapture { text, app_name, window_title, timestamp, text_type, context, partition_key } =
        capture;
    let partition_key = match partition_key {
        Some(key) => Some(key),
        None => Some(partition_key_for(timestamp)),
    };
    Some(TextCapture { text, app_name, window_title, timestamp, text_type, context, partition_key })
}

/// Whether a capture must be summarized before it is stored.
pub fn wants_summary(capture: &TextCapture, config: &TextCaptureConfig) -> (r: bool)
    ensures
        r == needs_summary(capture.text@, *config),
{
    text_len(&capture.text) >= config.summarization_threshold
}

/// Why a batch of text captures was not committed.
#[derive(Clone, Copy, Debug, PartialEq, Eq, Structural)]
pub enum FlushError {
    /// The capture at this index of the batch needs a summary, and the
    /// summarization service gave none.
    SummaryMissing(usize),
}

/// The summary that the service returned for the capture at index `i`.
pub open spec fn summary_at(summaries: Seq<Option<String>>, i: int) -> Option<String> {
    if 0 <= i < summaries.len() {
        summaries[i]
    } else {
        None
    }
}

/// Whether the capture at index `i` needs a summary and has none.
pub open spec fn lacks_summary(
    captures: Seq<TextCapture>,
    summaries: Seq<Option<String>>,
    config: TextCaptureConfig,
    i: int,
) -> bool {
    needs_summary(captures[i].text@, config) && summary_at(summaries, i) is None
}

/// The summary that the capture at index `i` is stored with: the service's
/// where the capture needs one, and none otherwise.
pub open spec fn stored_summary(
    captures: Seq<TextCapture>,
    summaries: Seq<Option<String>>,
    config: TextCaptureConfig,
    i: int,
) -> Option<String> {
    if needs_summary(captures[i].text@, config) {
        summary_at(summaries, i)
    } else {
        None
    }
}

/// The store after a batch of text captures was committed: the batch's rows
/// follow the rows that were there, in the order of the batch.
pub open spec fn captures_committed(
    before: StoreModel,
    after: StoreModel,
    captures: Seq<TextCapture>,
    summaries: Seq<Option<String>>,
    config: TextCaptureConfig,
) -> bool {
    &&& after == StoreModel { text_captures: after.text_captures, ..before }
    &&& after.text_captures.len() == before.text_captures.len() + captures.len()
    &&& after.text_captures.take(before.text_captures.len() as int) == before.text_captures
    &&& forall|k: int|
        0 <= k < captures.len() ==> is_capture_row_of(
            #[trigger] after.text_captures[before.text_captures.len() + k],
            captures[k],
            stored_summary(captures, summaries, config, k),
        )
}

fn summary_copy(summaries: &Vec<Option<String>>, i: usize) -> (r: Option<String>)
    ensures
        r == summary_at(summaries@, i as int),
{
    if i < summaries.len() {
        match &summaries[i] {
            Some(text) => Some(text.clone()),
            None => None,
        }
    } else {
        None
    }
}

fn first_missing_summary(
    captures: &Vec<TextCapture>,
    summaries: &Vec<Option<String>>,
    config: &TextCaptureConfig,
) -> (r: Option<usize>)
    ensures
        match r {
            Some(i) => i < captures.len() && lacks_summary(captures@, summaries@, *config, i as int)
                && forall|j: int| 0 <= j < i ==> !lacks_summary(captures@, summaries@, *config, j),
            None => forall|j: int|
                0 <= j < captures.len() ==> !lacks_summary(captures@, summaries@, *config, j),
        },
{
    let mut i: usize = 0;
    while i < captures.len()
        invariant
            0 <= i <= captures.len(),
            forall|j: int| 0 <= j < i ==> !lacks_summary(captures@, summaries@, *config, j),
        decreases captures.len() - i,
    {
        if wants_summary(&captures[i], config) && (i >= summaries.len() || summaries[i].is_none()) {
            return Some(i);
        }
        i += 1;
    }
    None
}

/// Commits a batch of text captures: one row for each, in the order of the
/// batch. `summaries` holds what the summarization service returned, by
/// index of the batch: a capture whose text reaches the summarization
/// threshold is stored with its summary, any other without one.
///
/// The batch is written whole or not at all. It is refused only where a
/// capture that needs a summary has none, and the error names the first
/// such capture.
pub fn flush_text_batch(
    store: &mut Store,
    captures: Vec<TextCapture>,
    summaries: &Vec<Option<String>>,
    config: &TextCaptureConfig,
) -> (r: Result<(), FlushError>)
    ensures
        match r {
            Ok(()) => {
                &&& forall|j: int|
                    0 <= j < captures@.len() ==> !lacks_summary(captures@, summaries@, *config, j)
                &&& captures_committed(old(store)@, final(store)@, captures@, summaries@, *config)
            },
            Err(FlushError::SummaryMissing(i)) => {
                &&& i < captures@.len()
                &&& lacks_summary(captures@, summaries@, *config, i as int)
                &&& forall|j: int| 0 <= j < i ==> !lacks_summary(captures@, summaries@, *config, j)
                &&& final(store)@ == old(store)@
            },
        },
{
    match first_missing_summary(&captures, summaries, config) {
        Some(i) => {
            return Err(FlushError::SummaryMissing(i));
        },
        None => {},
    }
    let ghost before = store@;
    let ghost batch = captures@;
    assert(store@.text_captures.take(before.text_captures.len() as int) =~= before.text_captures);
    let mut index: usize = 0;
    assert(batch.len() == captures.len());
    for capture in it: captures
        invariant
            batch == it.seq(),
            index == it.index(),
            batch.len() <= usize::MAX,
            captures_committed(
                before,
                store@,
                batch.take(it.index() as int),
                summaries@,
                *config,
            ),
    {
        let ghost k = it.index() as int;
        let summary = if wants_summary(&capture, config) {
            summary_copy(summaries, index)
        } else {
            None
        };
        let row = text_capture_row(capture, summary);
        store.text_captures.push(row);
        index += 1;
        proof {
            assert(batch.take(k + 1) =~= batch.take(k).push(batch[k]));
            assert(store@.text_captures.take(before.text_captures.len() as int)
                =~= before.text_captures);
        }
    }
    assert(batch.take(batch.len() as int) =~= batch);
    Ok(())
}

/// Every committed capture whose text reaches the summarization threshold
/// has a summary.
pub proof fn long_captures_are_summarized(
    before: StoreModel,
    after: StoreModel,
    captures: Seq<TextCapture>,
    summaries: Seq<Option<String>>,
    config: TextCaptureConfig,
    k: int,
)
    requires
        captures_committed(before, after, captures, summaries, config),
        forall|j: int| 0 <= j < captures.len() ==> !lacks_summary(captures, summaries, config, j),
        0 <= k < captures.len(),
        needs_summary(captures[k].text@, config),
    ensures
        after.text_captures[before.text_captures.len() + k].text == captures[k].text,
        after.text_captures[before.text_captures.len() + k].summary is Some,
{
    assert(!lacks_summary(captures, summaries, config, k));
}

/// Committing a batch of events keeps row ids fresh: every event's id stays
/// below the id that comes next.
pub proof fn batch_keeps_ids_fresh(
    before: StoreModel,
    after: StoreModel,
    events: Seq<Event>,
    inserted_at: i64,
)
    requires
        events_committed(before, after, events, inserted_at),
        ids_suffice(before.next_event_id, events.len()),
        before.ids_in_use(),
    ensures
        after.ids_in_use(),
{
    let n = before.events.len() as int;
    assert forall|i: int| 0 <= i < after.events.len() implies (#[trigger] after.events[i]).id
        < after.next_event_id by {
        if i < n {
            assert(after.events.take(n)[i] == after.events[i]);
        } else {
            assert(is_row_of(
                after.events[n + (i - n)],
                events[i - n],
                (before.next_event_id + (i - n)) as i64,
                inserted_at,
            ));
        }
    }
}

/// Committing a batch of events orphans no detail row.
pub proof fn batch_keeps_references(
    before: StoreModel,
    after: StoreModel,
    events: Seq<Event>,
    inserted_at: i64,
)
    requires
        events_committed(before, after, events, inserted_at),
        before.references_intact(),
    ensures
        after.references_intact(),
{
    let n = before.events.len() as int;
    assert forall|table: crate::store::DetailTable, i: int|
        0 <= i < after.details(table).len() implies after.has_health_event(
        (#[trigger] after.details(table)[i]).event_id,
    ) by {
        assert(after.details(table) == before.details(table));
        let d = before.details(table)[i];
        assert(before.has_health_event(d.event_id));
        let k = choose|k: int|
            0 <= k < before.events.len() && (#[trigger] before.events[k]).id == d.event_id
                && before.events[k].source@ == crate::store::health_source();
        assert(after.events.take(n)[k] == after.events[k]);
    }
}

/// Committing a batch of events keeps ids distinct: the new rows get ids
/// that no row has.
pub proof fn batch_keeps_ids_distinct(
    before: StoreModel,
    after: StoreModel,
    events: Seq<Event>,
    inserted_at: i64,
)
    requires
        events_committed(before, after, events, inserted_at),
        ids_suffice(before.next_event_id, events.len()),
        before.ids_in_use(),
        before.ids_distinct(),
    ensures
        after.ids_distinct(),
{
    let n = before.events.len() as int;
    assert forall|i: int, j: int| 0 <= i < j < after.events.len() implies (
    #[trigger] after.events[i]).id != (#[trigger] after.events[j]).id by {
        if i < n {
            assert(after.events.take(n)[i] == after.events[i]);
        } else {
            assert(is_row_of(
                after.events[n + (i - n)],
                events[i - n],
                (before.next_event_id + (i - n)) as i64,
                inserted_at,
            ));
        }
        if j < n {
            assert(after.events.take(n)[j] == after.events[j]);
        } else {
            assert(is_row_of(
                after.events[n + (j - n)],
                events[j - n],
                (before.next_event_id + (j - n)) as i64,
                inserted_at,
            ));
        }
    }
}

} // verus!
