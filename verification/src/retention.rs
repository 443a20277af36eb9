//! The retention engine: per source, events older than the policy allows
//! are summarized into daily statistics, where the policy asks for it, and
//! then deleted together with the health details that belong to them.

use vstd::prelude::*;
use crate::partition::{timestamp_seconds, whole_seconds};
use crate::text::has_prefix;
use crate::json::{
    copy_members, lookup, member, member_position, members_view, merge_documents, object_value,
    object_view, shallow_merge, Entry, Json, JsonValue, Member,
};
use crate::store::{
    aggregates_view, health_source, statistics_view, Aggregate, DetailRow, DetailTable, EventRow,
    EventStatistic, GroupAggregate, RetentionPolicy, Statistic, Store, StoreModel,
};

verus! {

/// The instant before which the events of a source have aged, in seconds
/// since the epoch: `retention_days` whole days before `now`.
pub open spec fn cutoff_seconds(now: i64, retention_days: i64) -> int {
    now - retention_days * 86400
}

/// Whether a timestamp, in milliseconds, lies before a cutoff, in seconds.
pub open spec fn is_before(timestamp_ms: i64, cutoff: int) -> bool {
    timestamp_ms < cutoff * 1000
}

/// Whether an event belongs to `source` and lies before the cutoff.
pub open spec fn aged(row: EventRow, source: Seq<char>, cutoff: int) -> bool {
    row.source@ == source && is_before(row.timestamp, cutoff)
}

/// The events that a retention pass for `source` removes.
pub open spec fn is_aged(source: Seq<char>, cutoff: int) -> spec_fn(EventRow) -> bool {
    |row: EventRow| aged(row, source, cutoff)
}

/// The events that a retention pass for `source` keeps.
pub open spec fn is_kept(source: Seq<char>, cutoff: int) -> spec_fn(EventRow) -> bool {
    |row: EventRow| !aged(row, source, cutoff)
}

/// Whether `event_id` is the id of an aged event of `source`.
pub open spec fn belongs_to_aged(
    events: Seq<EventRow>,
    event_id: i64,
    source: Seq<char>,
    cutoff: int,
) -> bool {
    exists|i: int|
        0 <= i < events.len() && (#[trigger] events[i]).id == event_id && aged(
            events[i],
            source,
            cutoff,
        )
}

/// The detail rows that survive the removal of the aged events of `source`.
pub open spec fn detail_is_kept(events: Seq<EventRow>, source: Seq<char>, cutoff: int) -> spec_fn(
    DetailRow,
) -> bool {
    |row: DetailRow| !belongs_to_aged(events, row.event_id, source, cutoff)
}

/// A health table after the aged events of `source` were removed: for the
/// health source the details of those events are gone, for any other source
/// the table is as it was.
pub open spec fn kept_details(
    details: Seq<DetailRow>,
    events: Seq<EventRow>,
    source: Seq<char>,
    cutoff: int,
) -> Seq<DetailRow> {
    if source == health_source() {
        details.filter(detail_is_kept(events, source, cutoff))
    } else {
        details
    }
}

/// The store after the aged events of `source` were deleted.
pub open spec fn after_delete(m: StoreModel, source: Seq<char>, cutoff: int) -> StoreModel {
    StoreModel {
        events: m.events.filter(is_kept(source, cutoff)),
        health_metrics: kept_details(m.health_metrics, m.events, source, cutoff),
        workouts: kept_details(m.workouts, m.events, source, cutoff),
        sleep_sessions: kept_details(m.sleep_sessions, m.events, source, cutoff),
        ..m
    }
}

/// The number of events that a retention pass for `source` deletes.
pub open spec fn deleted_count(m: StoreModel, source: Seq<char>, cutoff: int) -> int {
    m.events.len() - m.events.filter(is_kept(source, cutoff)).len()
}

/// One more element at the end of a prefix is filtered on its own.
pub proof fn filter_next<A>(s: Seq<A>, pred: spec_fn(A) -> bool, n: int)
    requires
        0 <= n < s.len(),
    ensures
        s.take(n + 1).filter(pred) == if pred(s[n]) {
            s.take(n).filter(pred).push(s[n])
        } else {
            s.take(n).filter(pred)
        },
{
    reveal(Seq::filter);
    assert(s.take(n + 1).drop_last() =~= s.take(n));
    assert(s.take(n + 1).last() == s[n]);
}

/// The instant before which events have aged.
pub fn cutoff_for(now: i64, retention_days: i64) -> (cutoff: i128)
    ensures
        cutoff == cutoff_seconds(now, retention_days),
{
    now as i128 - retention_days as i128 * 86400
}

/// Whether a timestamp, in milliseconds, lies before a cutoff, in seconds.
pub fn lies_before(timestamp_ms: i64, cutoff: i128) -> (r: bool)
    ensures
        r == is_before(timestamp_ms, cutoff as int),
{
    if cutoff > 9_300_000_000_000_000 {
        true
    } else if cutoff < -9_300_000_000_000_000 {
        false
    } else {
        (timestamp_ms as i128) < cutoff * 1000
    }
}

/// A cutoff in milliseconds, held to the range of a timestamp: every
/// timestamp but the largest lies before the cutoff exactly when it is below
/// this bound.
pub fn cutoff_millis(cutoff: i128) -> (bound: i64)
    ensures
        forall|timestamp_ms: i64|
            timestamp_ms < i64::MAX ==> (#[trigger] is_before(timestamp_ms, cutoff as int)
                <==> timestamp_ms < bound),
{
    if cutoff > 9_300_000_000_000_000 {
        i64::MAX
    } else if cutoff < -9_300_000_000_000_000 {
        i64::MIN
    } else {
        let wide: i128 = cutoff * 1000;
        if wide > i64::MAX as i128 {
            i64::MAX
        } else if wide < i64::MIN as i128 {
            i64::MIN
        } else {
            wide as i64
        }
    }
}

/// Whether an event belongs to `source` and lies before the cutoff.
pub fn has_aged(row: &EventRow, source: &str, cutoff: i128) -> (r: bool)
    ensures
        r == aged(*row, source@, cutoff as int),
{
    row.source.as_str().eq(source) && lies_before(row.timestamp, cutoff)
}

/// Whether `event_id` is the id of an aged event of `source`.
pub fn is_id_of_aged(events: &Vec<EventRow>, event_id: i64, source: &str, cutoff: i128) -> (r:
    bool)
    ensures
        r == belongs_to_aged(events@, event_id, source@, cutoff as int),
{
    let mut i: usize = 0;
    while i < events.len()
        invariant
            0 <= i <= events.len(),
            forall|j: int|
                0 <= j < i ==> !((#[trigger] events@[j]).id == event_id && aged(
                    events@[j],
                    source@,
                    cutoff as int,
                )),
        decreases events.len() - i,
    {
        if events[i].id == event_id && has_aged(&events[i], source, cutoff) {
            return true;
        }
        i += 1;
    }
    false
}

fn remove_aged_events(events: &mut Vec<EventRow>, source: &str, cutoff: i128) -> (deleted: usize)
    ensures
        final(events)@ == old(events)@.filter(is_kept(source@, cutoff as int)),
        deleted == old(events)@.len() - final(events)@.len(),
{
    let ghost initial = events@;
    let ghost keep = is_kept(source@, cutoff as int);
    let mut kept: usize = 0;
    let mut deleted: usize = 0;
    assert(initial.len() == events.len());
    assert(initial.take(0).filter(keep) =~= Seq::<EventRow>::empty()) by {
        reveal(Seq::filter);
    }
    assert(events@.take(0) =~= Seq::<EventRow>::empty());
    assert(events@.skip(0) =~= initial.skip(0));
    while kept < events.len()
        invariant
            keep == is_kept(source@, cutoff as int),
            initial.len() <= usize::MAX,
            deleted + events.len() == initial.len(),
            kept <= events.len(),
            events@.take(kept as int) == initial.take(kept + deleted).filter(keep),
            events@.skip(kept as int) == initial.skip(kept + deleted),
        decreases events.len() - kept,
    {
        let ghost seen = (kept + deleted) as int;
        let ghost current = events@;
        assert(current[kept as int] == current.skip(kept as int)[0]);
        assert(current[kept as int] == initial[seen]);
        proof {
            filter_next(initial, keep, seen);
        }
        if has_aged(&events[kept], source, cutoff) {
            events.remove(kept);
            deleted += 1;
            assert(events@.take(kept as int) =~= current.take(kept as int));
            assert(events@.skip(kept as int) =~= current.skip(kept as int).skip(1));
            assert(initial.skip(seen).skip(1) =~= initial.skip(seen + 1));
        } else {
            kept += 1;
            assert(events@.take(kept as int) =~= current.take(kept - 1).push(current[kept - 1]));
            assert(events@.skip(kept as int) =~= current.skip(kept - 1).skip(1));
            assert(initial.skip(seen).skip(1) =~= initial.skip(seen + 1));
        }
    }
    assert(events@.take(kept as int) =~= events@);
    assert(initial.take(initial.len() as int) =~= initial);
    deleted
}

fn remove_details_of_aged(
    details: &mut Vec<DetailRow>,
    events: &Vec<EventRow>,
    source: &str,
    cutoff: i128,
)
    ensures
        final(details)@ == old(details)@.filter(detail_is_kept(events@, source@, cutoff as int)),
{
    let ghost initial = details@;
    let ghost keep = detail_is_kept(events@, source@, cutoff as int);
    let mut kept: usize = 0;
    let ghost mut deleted: int = 0;
    assert(initial.take(0).filter(keep) =~= Seq::<DetailRow>::empty()) by {
        reveal(Seq::filter);
    }
    assert(details@.take(0) =~= Seq::<DetailRow>::empty());
    assert(details@.skip(0) =~= initial.skip(0));
    while kept < details.len()
        invariant
            keep == detail_is_kept(events@, source@, cutoff as int),
            deleted >= 0,
            deleted + details.len() == initial.len(),
            kept <= details.len(),
            details@.take(kept as int) == initial.take(kept + deleted).filter(keep),
            details@.skip(kept as int) == initial.skip(kept + deleted),
        decreases details.len() - kept,
    {
        let ghost seen = (kept + deleted) as int;
        let ghost current = details@;
        assert(current[kept as int] == current.skip(kept as int)[0]);
        assert(current[kept as int] == initial[seen]);
        proof {
            filter_next(initial, keep, seen);
        }
        if is_id_of_aged(events, details[kept].event_id, source, cutoff) {
            details.remove(kept);
            proof {
                deleted = deleted + 1;
            }
            assert(details@.take(kept as int) =~= current.take(kept as int));
            assert(details@.skip(kept as int) =~= current.skip(kept as int).skip(1));
            assert(initial.skip(seen).skip(1) =~= initial.skip(seen + 1));
        } else {
            kept += 1;
            assert(details@.take(kept as int) =~= current.take(kept - 1).push(current[kept - 1]));
            assert(details@.skip(kept as int) =~= current.skip(kept - 1).skip(1));
            assert(initial.skip(seen).skip(1) =~= initial.skip(seen + 1));
        }
    }
    assert(details@.take(kept as int) =~= details@);
    assert(initial.take(initial.len() as int) =~= initial);
}

/// Deletes the aged events of `source`: those that lie before the cutoff.
/// For the health source the details of those events are deleted first,
/// from each of the three health tables, so that no detail row is left
/// without its event. Returns the number of events deleted.
pub fn delete_old_records(store: &mut Store, source: &str, cutoff: i128) -> (deleted: usize)
    ensures
        final(store)@ == after_delete(old(store)@, source@, cutoff as int),
        deleted == deleted_count(old(store)@, source@, cutoff as int),
{
    if source.eq("health") {
        remove_details_of_aged(&mut store.health_metrics, &store.events, source, cutoff);
        remove_details_of_aged(&mut store.workouts, &store.events, source, cutoff);
        remove_details_of_aged(&mut store.sleep_sessions, &store.events, source, cutoff);
    }
    remove_aged_events(&mut store.events, source, cutoff)
}

/// The UTC day on which an instant falls, in days since 1970-01-01, for an
/// instant in milliseconds since the epoch; the days before the epoch are
/// negative.
pub open spec fn day_of(timestamp_ms: i64) -> int {
    whole_seconds(timestamp_ms as int) / 86400
}

/// Whether two statistics count the same thing: the events of one type of
/// one source on one day.
pub open spec fn same_group(a: Statistic, b: Statistic) -> bool {
    a.day == b.day && a.source == b.source && a.event_type == b.event_type
}

/// Index of the first statistic at or after `from` in the group of `group`,
/// or the number of statistics if there is none.
pub open spec fn group_position(stats: Seq<Statistic>, group: Statistic, from: int) -> int
    decreases stats.len() - from,
{
    if from < 0 || from >= stats.len() {
        stats.len() as int
    } else if same_group(stats[from], group) {
        from
    } else {
        group_position(stats, group, from + 1)
    }
}

/// The sum of two counts, held to the range of a count.
pub open spec fn saturating_sum(a: i64, b: i64) -> i64 {
    if a + b > i64::MAX {
        i64::MAX
    } else if a + b < i64::MIN {
        i64::MIN
    } else {
        (a + b) as i64
    }
}

/// The statistics after `group` was written to them. Where its group has a
/// row, the count is added to that row's count, the row's metadata are
/// merged shallowly with the group's, the group's members winning, and the
/// time of writing is replaced. Where it has none, `group` becomes a new
/// row at the end.
pub open spec fn upsert(stats: Seq<Statistic>, group: Statistic) -> Seq<Statistic> {
    let i = group_position(stats, group, 0);
    if 0 <= i < stats.len() {
        stats.update(
            i,
            Statistic {
                count: saturating_sum(stats[i].count, group.count),
                metadata: shallow_merge(stats[i].metadata, group.metadata),
                updated_at: group.updated_at,
                ..stats[i]
            },
        )
    } else {
        stats.push(group)
    }
}

/// The entries with a `null` member of this key added, unless they have a
/// member of this key.
pub open spec fn with_member(entries: Seq<Entry>, key: Seq<char>) -> Seq<Entry> {
    if lookup(entries, key) is Some {
        entries
    } else {
        entries.push(Entry { key, value: Json::Null })
    }
}

/// The metadata of a statistic, made from what the store aggregated: an
/// object with the members that were aggregated and, where they are not
/// among them, `avg_duration` and `total_count` as `null`. An aggregate
/// that is no object counts as one without members.
pub open spec fn summary_metadata(aggregated: Json) -> Json {
    let entries = match aggregated {
        Json::Object(entries) => entries,
        _ => Seq::empty(),
    };
    Json::Object(with_member(with_member(entries, "avg_duration"@), "total_count"@))
}

/// Index of the first aggregate at or after `from` for this day, source and
/// event type, or the number of aggregates if there is none.
pub open spec fn aggregate_position(
    aggregates: Seq<Aggregate>,
    day: i64,
    source: Seq<char>,
    event_type: Seq<char>,
    from: int,
) -> int
    decreases aggregates.len() - from,
{
    if from < 0 || from >= aggregates.len() {
        aggregates.len() as int
    } else if aggregates[from].day == day && aggregates[from].source == source
        && aggregates[from].event_type == event_type {
        from
    } else {
        aggregate_position(aggregates, day, source, event_type, from + 1)
    }
}

/// The metadata of the statistic of one group: made from the first
/// aggregate for the group, or from nothing where there is none.
pub open spec fn group_metadata(
    aggregates: Seq<Aggregate>,
    day: i64,
    source: Seq<char>,
    event_type: Seq<char>,
) -> Json {
    let i = aggregate_position(aggregates, day, source, event_type, 0);
    if 0 <= i < aggregates.len() {
        summary_metadata(aggregates[i].metadata)
    } else {
        summary_metadata(Json::Null)
    }
}

/// The statistic that counts one event, with the metadata of its group.
pub open spec fn single(row: EventRow, aggregates: Seq<Aggregate>, updated_at: i64) -> Statistic {
    Statistic {
        day: day_of(row.timestamp) as i64,
        source: row.source@,
        event_type: row.event_type@,
        count: 1,
        metadata: group_metadata(
            aggregates,
            day_of(row.timestamp) as i64,
            row.source@,
            row.event_type@,
        ),
        updated_at,
    }
}

/// The groups after one more event was counted: the count of its group
/// grows by one, or the event founds a new group at the end.
pub open spec fn counted(groups: Seq<Statistic>, one: Statistic) -> Seq<Statistic> {
    let i = group_position(groups, one, 0);
    if 0 <= i < groups.len() {
        groups.update(
            i,
            Statistic { count: saturating_sum(groups[i].count, one.count), ..groups[i] },
        )
    } else {
        groups.push(one)
    }
}

/// The events grouped by day, source and event type, each group with the
/// number of its events and the metadata that were aggregated for it; the
/// groups stand in the order in which their first events stand.
pub open spec fn grouped(rows: Seq<EventRow>, aggregates: Seq<Aggregate>, updated_at: i64) -> Seq<
    Statistic,
>
    decreases rows.len(),
{
    if rows.len() == 0 {
        Seq::empty()
    } else {
        counted(
            grouped(rows.drop_last(), aggregates, updated_at),
            single(rows.last(), aggregates, updated_at),
        )
    }
}

/// The statistics after the groups were written to them one after the other.
pub open spec fn merged(stats: Seq<Statistic>, groups: Seq<Statistic>) -> Seq<Statistic>
    decreases groups.len(),
{
    if groups.len() == 0 {
        stats
    } else {
        upsert(merged(stats, groups.drop_last()), groups.last())
    }
}

/// Whether a policy's summary table is one that summaries are written to:
/// its name begins with `event_statistics`.
pub open spec fn is_statistics_table(name: Seq<char>) -> bool {
    "event_statistics"@.is_prefix_of(name)
}

/// The groups that summarizing the aged events of `source` writes.
pub open spec fn summary_groups(
    m: StoreModel,
    source: Seq<char>,
    cutoff: int,
    table: Seq<char>,
    updated_at: i64,
    aggregates: Seq<Aggregate>,
) -> Seq<Statistic> {
    if is_statistics_table(table) {
        grouped(m.events.filter(is_aged(source, cutoff)), aggregates, updated_at)
    } else {
        Seq::empty()
    }
}

/// The store after the aged events of `source` were summarized.
pub open spec fn after_summarize(
    m: StoreModel,
    source: Seq<char>,
    cutoff: int,
    table: Seq<char>,
    updated_at: i64,
    aggregates: Seq<Aggregate>,
) -> StoreModel {
    StoreModel {
        event_statistics: merged(
            m.event_statistics,
            summary_groups(m, source, cutoff, table, updated_at, aggregates),
        ),
        ..m
    }
}

/// The UTC day on which an instant falls, in days since 1970-01-01.
pub fn day_number(timestamp_ms: i64) -> (day: i64)
    ensures
        day == day_of(timestamp_ms),
{
    let secs = timestamp_seconds(timestamp_ms);
    if secs >= 0 {
        secs / 86400
    } else {
        let back: i64 = -(secs + 1);
        -(back / 86400) - 1
    }
}

/// The sum of two counts, held to the range of a count.
pub fn add_counts(a: i64, b: i64) -> (sum: i64)
    ensures
        sum == saturating_sum(a, b),
{
    let wide: i128 = a as i128 + b as i128;
    if wide > i64::MAX as i128 {
        i64::MAX
    } else if wide < i64::MIN as i128 {
        i64::MIN
    } else {
        wide as i64
    }
}

fn statistic_position(stats: &Vec<EventStatistic>, group: &EventStatistic) -> (i: usize)
    ensures
        i == group_position(statistics_view(stats@), group@, 0),
        i <= stats.len(),
{
    let ghost rows = statistics_view(stats@);
    let mut i: usize = 0;
    while i < stats.len()
        invariant
            0 <= i <= stats.len(),
            rows == statistics_view(stats@),
            group_position(rows, group@, 0) == group_position(rows, group@, i as int),
        decreases stats.len() - i,
    {
        if stats[i].day == group.day && stats[i].source.as_str().eq(group.source.as_str())
            && stats[i].event_type.as_str().eq(group.event_type.as_str()) {
            return i;
        }
        i += 1;
    }
    i
}

/// Writes one group to the statistics: added to the row of its group, with
/// the metadata merged, or appended where the group has no row.
pub fn upsert_statistic(stats: &mut Vec<EventStatistic>, group: EventStatistic)
    ensures
        statistics_view(final(stats)@) == upsert(statistics_view(old(stats)@), group@),
{
    let i = statistic_position(stats, &group);
    if i < stats.len() {
        let updated = EventStatistic {
            day: stats[i].day,
            source: stats[i].source.clone(),
            event_type: stats[i].event_type.clone(),
            count: add_counts(stats[i].count, group.count),
            metadata: merge_documents(&stats[i].metadata, &group.metadata),
            updated_at: group.updated_at,
        };
        stats[i] = updated;
        assert(statistics_view(stats@) =~= statistics_view(old(stats)@).update(
            i as int,
            updated@,
        ));
    } else {
        stats.push(group);
        assert(statistics_view(stats@) =~= statistics_view(old(stats)@).push(group@));
    }
}

/// Counts one more event among the groups.
pub fn count_event(groups: &mut Vec<EventStatistic>, one: EventStatistic)
    ensures
        statistics_view(final(groups)@) == counted(statistics_view(old(groups)@), one@),
{
    let i = statistic_position(groups, &one);
    if i < groups.len() {
        let updated = EventStatistic {
            day: groups[i].day,
            source: groups[i].source.clone(),
            event_type: groups[i].event_type.clone(),
            count: add_counts(groups[i].count, one.count),
            metadata: groups[i].metadata.clone(),
            updated_at: groups[i].updated_at,
        };
        groups[i] = updated;
        assert(statistics_view(groups@) =~= statistics_view(old(groups)@).update(
            i as int,
            updated@,
        ));
    } else {
        groups.push(one);
        assert(statistics_view(groups@) =~= statistics_view(old(groups)@).push(one@));
    }
}

fn add_missing_member(members: &mut Vec<Member>, key: &str)
    ensures
        members_view(final(members)@) == with_member(members_view(old(members)@), key@),
{
    if member_position(members, key) >= members.len() {
        members.push(member(key, JsonValue::Null));
        assert(members_view(members@) =~= members_view(old(members)@).push(
            Entry { key: key@, value: Json::Null },
        ));
    }
}

/// The metadata of a statistic, made from what the store aggregated.
pub fn summary_metadata_of(aggregated: &JsonValue) -> (metadata: JsonValue)
    ensures
        metadata@ == summary_metadata(aggregated@),
{
    let mut members = match aggregated {
        JsonValue::Object(given) => {
            proof {
                object_view(*given);
            }
            copy_members(given)
        },
        _ => {
            assert(members_view(Seq::<Member>::empty()) =~= Seq::<Entry>::empty());
            Vec::new()
        },
    };
    add_missing_member(&mut members, "avg_duration");
    add_missing_member(&mut members, "total_count");
    object_value(members)
}

/// The metadata of the statistic of one group.
pub fn group_metadata_of(
    aggregates: &Vec<GroupAggregate>,
    day: i64,
    source: &str,
    event_type: &str,
) -> (metadata: JsonValue)
    ensures
        metadata@ == group_metadata(aggregates_view(aggregates@), day, source@, event_type@),
{
    let ghost rows = aggregates_view(aggregates@);
    let mut i: usize = 0;
    while i < aggregates.len()
        invariant
            0 <= i <= aggregates.len(),
            rows == aggregates_view(aggregates@),
            aggregate_position(rows, day, source@, event_type@, 0) == aggregate_position(
                rows,
                day,
                source@,
                event_type@,
                i as int,
            ),
        decreases aggregates.len() - i,
    {
        if aggregates[i].day == day && aggregates[i].source.as_str().eq(source)
            && aggregates[i].event_type.as_str().eq(event_type) {
            return summary_metadata_of(&aggregates[i].metadata);
        }
        i += 1;
    }
    summary_metadata_of(&JsonValue::Null)
}

/// Groups the aged events of `source` by day and event type.
pub fn group_aged_events(
    events: &Vec<EventRow>,
    source: &str,
    cutoff: i128,
    updated_at: i64,
    aggregates: &Vec<GroupAggregate>,
) -> (groups: Vec<EventStatistic>)
    ensures
        statistics_view(groups@) == grouped(
            events@.filter(is_aged(source@, cutoff as int)),
            aggregates_view(aggregates@),
            updated_at,
        ),
{
    let ghost pick = is_aged(source@, cutoff as int);
    let ghost given = aggregates_view(aggregates@);
    let mut groups: Vec<EventStatistic> = Vec::new();
    let mut i: usize = 0;
    assert(events@.take(0).filter(pick) =~= Seq::<EventRow>::empty()) by {
        reveal(Seq::filter);
    }
    assert(statistics_view(groups@) =~= Seq::<Statistic>::empty());
    while i < events.len()
        invariant
            0 <= i <= events.len(),
            pick == is_aged(source@, cutoff as int),
            given == aggregates_view(aggregates@),
            statistics_view(groups@) == grouped(
                events@.take(i as int).filter(pick),
                given,
                updated_at,
            ),
        decreases events.len() - i,
    {
        proof {
            filter_next(events@, pick, i as int);
        }
        if has_aged(&events[i], source, cutoff) {
            let ghost before = events@.take(i as int).filter(pick);
            assert(before.push(events@[i as int]).drop_last() =~= before);
            let day = day_number(events[i].timestamp);
            let one = EventStatistic {
                day,
                source: events[i].source.clone(),
                event_type: events[i].event_type.clone(),
                count: 1,
                metadata: group_metadata_of(
                    aggregates,
                    day,
                    events[i].source.as_str(),
                    events[i].event_type.as_str(),
                ),
                updated_at,
            };
            count_event(&mut groups, one);
        }
        i += 1;
    }
    assert(events@.take(events.len() as int) =~= events@);
    groups
}

/// Summarizes the aged events of `source` into the daily statistics: one
/// group for each day and event type, written to the statistics by upsert.
/// `aggregates` holds what the store aggregated from the metadata of the
/// groups. Returns the number of groups written. A summary table whose name
/// does not begin with `event_statistics` is not written to: nothing changes
/// and the result is 0.
pub fn summarize_old_data(
    store: &mut Store,
    source: &str,
    cutoff: i128,
    summary_table: &str,
    updated_at: i64,
    aggregates: &Vec<GroupAggregate>,
) -> (summarized: usize)
    ensures
        final(store)@ == after_summarize(
            old(store)@,
            source@,
            cutoff as int,
            summary_table@,
            updated_at,
            aggregates_view(aggregates@),
        ),
        summarized == summary_groups(
            old(store)@,
            source@,
            cutoff as int,
            summary_table@,
            updated_at,
            aggregates_view(aggregates@),
        ).len(),
{
    if !has_prefix(summary_table, "event_statistics") {
        return 0;
    }
    let groups = group_aged_events(&store.events, source, cutoff, updated_at, aggregates);
    let summarized = groups.len();
    let ghost before = store@.event_statistics;
    let ghost all = statistics_view(groups@);
    let ghost rows = groups@;
    for group in it: groups
        invariant
            rows == it.seq(),
            all == statistics_view(rows),
            store@ == (StoreModel {
                event_statistics: merged(before, all.take(it.index() as int)),
                ..old(store)@
            }),
    {
        let ghost k = it.index() as int;
        assert(all.take(k + 1).drop_last() =~= all.take(k));
        assert(all.take(k + 1).last() == group@);
        upsert_statistic(&mut store.event_statistics, group);
    }
    assert(all.take(all.len() as int) =~= all);
    summarized
}

/// What applying a policy did.
#[derive(Clone, Copy, Debug, PartialEq, Eq, Structural)]
pub enum RetentionResult {
    /// The number of events deleted.
    Deleted(usize),
    /// The number of statistics written, and of events deleted after that.
    Summarized { summarized: usize, deleted: usize },
}

/// The name of a summary table, as a sequence of characters.
pub open spec fn table_name(summary_table: Option<&str>) -> Option<Seq<char>> {
    match summary_table {
        Some(name) => Some(name@),
        None => None,
    }
}

/// The store after one policy was applied: the aged events of the source
/// are summarized, where there is a summary table, and then deleted.
pub open spec fn after_policy(
    m: StoreModel,
    source: Seq<char>,
    cutoff: int,
    summary_table: Option<Seq<char>>,
    updated_at: i64,
    aggregates: Seq<Aggregate>,
) -> StoreModel {
    match summary_table {
        Some(table) => after_delete(
            after_summarize(m, source, cutoff, table, updated_at, aggregates),
            source,
            cutoff,
        ),
        None => after_delete(m, source, cutoff),
    }
}

/// What applying one policy reports.
pub open spec fn policy_result(
    m: StoreModel,
    source: Seq<char>,
    cutoff: int,
    summary_table: Option<Seq<char>>,
    updated_at: i64,
    aggregates: Seq<Aggregate>,
) -> RetentionResult {
    match summary_table {
        Some(table) => RetentionResult::Summarized {
            summarized: summary_groups(m, source, cutoff, table, updated_at, aggregates).len() as usize,
            deleted: deleted_count(m, source, cutoff) as usize,
        },
        None => RetentionResult::Deleted(deleted_count(m, source, cutoff) as usize),
    }
}

/// Applies one retention policy: with a summary table the aged events are
/// summarized and then deleted, without one they are only deleted.
/// `aggregates` holds what the store aggregated from the metadata of the
/// groups of aged events.
pub fn apply_retention_policy(
    store: &mut Store,
    source: &str,
    cutoff: i128,
    summary_table: Option<&str>,
    updated_at: i64,
    aggregates: &Vec<GroupAggregate>,
) -> (result: RetentionResult)
    ensures
        final(store)@ == after_policy(
            old(store)@,
            source@,
            cutoff as int,
            table_name(summary_table),
            updated_at,
            aggregates_view(aggregates@),
        ),
        result == policy_result(
            old(store)@,
            source@,
            cutoff as int,
            table_name(summary_table),
            updated_at,
            aggregates_view(aggregates@),
        ),
{
    match summary_table {
        Some(table) => {
            let summarized = summarize_old_data(
                store,
                source,
                cutoff,
                table,
                updated_at,
                aggregates,
            );
            let deleted = delete_old_records(store, source, cutoff);
            RetentionResult::Summarized { summarized, deleted }
        },
        None => {
            let deleted = delete_old_records(store, source, cutoff);
            RetentionResult::Deleted(deleted)
        },
    }
}

impl RetentionPolicy {
    /// The name of the policy's summary table, if it has one.
    pub open spec fn table(self) -> Option<Seq<char>> {
        match self.summary_table {
            Some(name) => Some(name@),
            None => None,
        }
    }
}

/// The store after `policy` was applied at the time `now`, in seconds since
/// the epoch.
pub open spec fn after_one(
    m: StoreModel,
    policy: RetentionPolicy,
    now: i64,
    aggregates: Seq<Aggregate>,
) -> StoreModel {
    after_policy(
        m,
        policy.source@,
        cutoff_seconds(now, policy.retention_days),
        policy.table(),
        now,
        aggregates,
    )
}

/// What applying `policy` at the time `now` reports.
pub open spec fn result_of(
    m: StoreModel,
    policy: RetentionPolicy,
    now: i64,
    aggregates: Seq<Aggregate>,
) -> RetentionResult {
    policy_result(
        m,
        policy.source@,
        cutoff_seconds(now, policy.retention_days),
        policy.table(),
        now,
        aggregates,
    )
}

/// The store after the policies were applied one after the other.
pub open spec fn after_policies(
    m: StoreModel,
    policies: Seq<RetentionPolicy>,
    now: i64,
    aggregates: Seq<Aggregate>,
) -> StoreModel
    decreases policies.len(),
{
    if policies.len() == 0 {
        m
    } else {
        after_one(
            after_policies(m, policies.drop_last(), now, aggregates),
            policies.last(),
            now,
            aggregates,
        )
    }
}

/// What the policies report, applied one after the other.
pub open spec fn results_of(
    m: StoreModel,
    policies: Seq<RetentionPolicy>,
    now: i64,
    aggregates: Seq<Aggregate>,
) -> Seq<RetentionResult>
    decreases policies.len(),
{
    if policies.len() == 0 {
        Seq::empty()
    } else {
        results_of(m, policies.drop_last(), now, aggregates).push(
            result_of(
                after_policies(m, policies.drop_last(), now, aggregates),
                policies.last(),
                now,
                aggregates,
            ),
        )
    }
}

/// The store after a retention run at the time `now`: the policies that the
/// store holds, applied in the order in which it holds them.
pub open spec fn after_retention(m: StoreModel, now: i64, aggregates: Seq<Aggregate>) -> StoreModel {
    after_policies(m, m.retention_policies, now, aggregates)
}

/// Applying a policy leaves the policies themselves as they are.
pub proof fn policies_stay(
    m: StoreModel,
    policies: Seq<RetentionPolicy>,
    now: i64,
    aggregates: Seq<Aggregate>,
)
    ensures
        after_policies(m, policies, now, aggregates).retention_policies == m.retention_policies,
    decreases policies.len(),
{
    if policies.len() > 0 {
        policies_stay(m, policies.drop_last(), now, aggregates);
    }
}

/// Runs every retention policy that the store holds, in order, at the time
/// `now` in seconds since the epoch. `aggregates` holds what the store
/// aggregated from the metadata of the groups of aged events. Returns what
/// each policy did.
pub fn run_retention_policies(store: &mut Store, now: i64, aggregates: &Vec<GroupAggregate>) -> (results:
    Vec<RetentionResult>)
    ensures
        final(store)@ == after_retention(old(store)@, now, aggregates_view(aggregates@)),
        results@ == results_of(
            old(store)@,
            old(store)@.retention_policies,
            now,
            aggregates_view(aggregates@),
        ),
{
    let ghost given = aggregates_view(aggregates@);
    let ghost before = store@;
    let ghost policies = store@.retention_policies;
    let mut results: Vec<RetentionResult> = Vec::new();
    let mut i: usize = 0;
    while i < store.retention_policies.len()
        invariant
            0 <= i <= policies.len(),
            before == old(store)@,
            policies == before.retention_policies,
            store@.retention_policies == policies,
            given == aggregates_view(aggregates@),
            store@ == after_policies(before, policies.take(i as int), now, given),
            results@ == results_of(before, policies.take(i as int), now, given),
        decreases policies.len() - i,
    {
        let source = store.retention_policies[i].source.clone();
        let retention_days = store.retention_policies[i].retention_days;
        let summary_table = match &store.retention_policies[i].summary_table {
            Some(name) => Some(name.clone()),
            None => None,
        };
        let cutoff = cutoff_for(now, retention_days);
        let ghost earlier = store@;
        let result = match &summary_table {
            Some(name) => apply_retention_policy(
                store,
                source.as_str(),
                cutoff,
                Some(name.as_str()),
                now,
                aggregates,
            ),
            None => apply_retention_policy(store, source.as_str(), cutoff, None, now, aggregates),
        };
        results.push(result);
        proof {
            assert(policies.take(i + 1).drop_last() =~= policies.take(i as int));
            assert(policies.take(i + 1).last() == policies[i as int]);
            assert(store@ == after_one(earlier, policies[i as int], now, given));
        }
        i += 1;
    }
    assert(policies.take(policies.len() as int) =~= policies);
    results
}

/// One write of a retention pass, for a store that carries the writes out
/// itself.
#[derive(Clone, Debug)]
pub enum RetentionStep {
    /// Summarize the aged events of the source into the daily statistics.
    Summarize { source: String, cutoff: i128, updated_at: i64 },
    /// Delete from one health table the details of the aged events of the
    /// source.
    DeleteDetails { table: DetailTable, source: String, cutoff: i128 },
    /// Delete the aged events of the source.
    DeleteEvents { source: String, cutoff: i128 },
}

/// The store after one step.
pub open spec fn after_step(m: StoreModel, step: RetentionStep, aggregates: Seq<Aggregate>) -> StoreModel {
    match step {
        RetentionStep::Summarize { source, cutoff, updated_at } => StoreModel {
            event_statistics: merged(
                m.event_statistics,
                grouped(m.events.filter(is_aged(source@, cutoff as int)), aggregates, updated_at),
            ),
            ..m
        },
        RetentionStep::DeleteDetails { table, source, cutoff } => {
            let keep = detail_is_kept(m.events, source@, cutoff as int);
            match table {
                DetailTable::HealthMetrics => StoreModel {
                    health_metrics: m.health_metrics.filter(keep),
                    ..m
                },
                DetailTable::Workouts => StoreModel { workouts: m.workouts.filter(keep), ..m },
                DetailTable::SleepSessions => StoreModel {
                    sleep_sessions: m.sleep_sessions.filter(keep),
                    ..m
                },
            }
        },
        RetentionStep::DeleteEvents { source, cutoff } => StoreModel {
            events: m.events.filter(is_kept(source@, cutoff as int)),
            ..m
        },
    }
}

/// The store after the steps, one after the other.
pub open spec fn after_steps(
    m: StoreModel,
    steps: Seq<RetentionStep>,
    aggregates: Seq<Aggregate>,
) -> StoreModel
    decreases steps.len(),
{
    if steps.len() == 0 {
        m
    } else {
        after_step(after_steps(m, steps.drop_last(), aggregates), steps.last(), aggregates)
    }
}

/// One more step is applied to what the steps before it left.
pub proof fn steps_extend(
    m: StoreModel,
    steps: Seq<RetentionStep>,
    step: RetentionStep,
    aggregates: Seq<Aggregate>,
)
    ensures
        after_steps(m, steps.push(step), aggregates) == after_step(
            after_steps(m, steps, aggregates),
            step,
            aggregates,
        ),
{
    assert(steps.push(step).drop_last() =~= steps);
}

/// The writes that applying `policy` at the time `now` consists of, in
/// order: the summary, where the policy names a statistics table; for the
/// health source the deletion of details from each health table; and the
/// deletion of the events. Carried out one after the other they leave the
/// store as applying the policy does.
pub fn retention_steps(policy: &RetentionPolicy, now: i64) -> (steps: Vec<RetentionStep>)
    ensures
        forall|m: StoreModel, aggregates: Seq<Aggregate>| #[trigger]
            after_steps(m, steps@, aggregates) == after_one(m, *policy, now, aggregates),
{
    let cutoff = cutoff_for(now, policy.retention_days);
    let ghost source = policy.source@;
    let mut steps: Vec<RetentionStep> = Vec::new();
    let summarizes = match &policy.summary_table {
        Some(table) => has_prefix(table.as_str(), "event_statistics"),
        None => false,
    };
    if summarizes {
        steps.push(
            RetentionStep::Summarize { source: policy.source.clone(), cutoff, updated_at: now },
        );
    }
    let ghost first = steps@;
    assert forall|m: StoreModel, aggregates: Seq<Aggregate>| #[trigger]
        after_steps(m, first, aggregates) == (match policy.table() {
            Some(table) => after_summarize(m, source, cutoff as int, table, now, aggregates),
            None => m,
        }) by {
        if summarizes {
            steps_extend(m, Seq::empty(), first[0], aggregates);
            assert(first =~= Seq::<RetentionStep>::empty().push(first[0]));
        } else {
            match policy.table() {
                Some(table) => {
                    assert(after_summarize(m, source, cutoff as int, table, now, aggregates) == m);
                },
                None => {},
            }
        }
    }
    if policy.source.as_str().eq("health") {
        steps.push(
            RetentionStep::DeleteDetails {
                table: DetailTable::HealthMetrics,
                source: policy.source.clone(),
                cutoff,
            },
        );
        steps.push(
            RetentionStep::DeleteDetails {
                table: DetailTable::Workouts,
                source: policy.source.clone(),
                cutoff,
            },
        );
        steps.push(
            RetentionStep::DeleteDetails {
                table: DetailTable::SleepSessions,
                source: policy.source.clone(),
                cutoff,
            },
        );
    }
    steps.push(RetentionStep::DeleteEvents { source: policy.source.clone(), cutoff });
    proof {
        assert forall|m: StoreModel, aggregates: Seq<Aggregate>| #[trigger]
            after_steps(m, steps@, aggregates) == after_one(m, *policy, now, aggregates) by {
            let base = after_steps(m, first, aggregates);
            let n = first.len() as int;
            if source == health_source() {
                let s1 = first.push(steps@[n]);
                let s2 = s1.push(steps@[n + 1]);
                let s3 = s2.push(steps@[n + 2]);
                let s4 = s3.push(steps@[n + 3]);
                assert(s4 =~= steps@);
                steps_extend(m, first, steps@[n], aggregates);
                steps_extend(m, s1, steps@[n + 1], aggregates);
                steps_extend(m, s2, steps@[n + 2], aggregates);
                steps_extend(m, s3, steps@[n + 3], aggregates);
                assert(after_steps(m, steps@, aggregates) == after_delete(
                    base,
                    source,
                    cutoff as int,
                ));
            } else {
                let s1 = first.push(steps@[n]);
                assert(s1 =~= steps@);
                steps_extend(m, first, steps@[n], aggregates);
                assert(after_steps(m, steps@, aggregates) == after_delete(
                    base,
                    source,
                    cutoff as int,
                ));
            }
        }
    }
    steps
}

/// Carries one step out. `aggregates` holds what the store aggregated from
/// the metadata of the groups of aged events. Returns the number of rows
/// that the step wrote or deleted.
pub fn apply_step(store: &mut Store, step: &RetentionStep, aggregates: &Vec<GroupAggregate>) -> (rows:
    usize)
    ensures
        final(store)@ == after_step(old(store)@, *step, aggregates_view(aggregates@)),
        rows == match *step {
            RetentionStep::Summarize { source, cutoff, updated_at } => grouped(
                old(store)@.events.filter(is_aged(source@, cutoff as int)),
                aggregates_view(aggregates@),
                updated_at,
            ).len() as int,
            RetentionStep::DeleteDetails { table, source, cutoff } => old(store)@.details(
                table,
            ).len() - final(store)@.details(table).len(),
            RetentionStep::DeleteEvents { source, cutoff } => deleted_count(
                old(store)@,
                source@,
                cutoff as int,
            ),
        },
{
    match step {
        RetentionStep::Summarize { source, cutoff, updated_at } => {
            summarize_old_data(
                store,
                source.as_str(),
                *cutoff,
                "event_statistics",
                *updated_at,
                aggregates,
            )
        },
        RetentionStep::DeleteDetails { table, source, cutoff } => {
            match table {
                DetailTable::HealthMetrics => {
                    let before = store.health_metrics.len();
                    remove_details_of_aged(
                        &mut store.health_metrics,
                        &store.events,
                        source.as_str(),
                        *cutoff,
                    );
                    proof {
                        old(store)@.health_metrics.lemma_filter_len(
                            detail_is_kept(old(store)@.events, source@, *cutoff as int),
                        );
                    }
                    before - store.health_metrics.len()
                },
                DetailTable::Workouts => {
                    let before = store.workouts.len();
                    remove_details_of_aged(
                        &mut store.workouts,
                        &store.events,
                        source.as_str(),
                        *cutoff,
                    );
                    proof {
                        old(store)@.workouts.lemma_filter_len(
                            detail_is_kept(old(store)@.events, source@, *cutoff as int),
                        );
                    }
                    before - store.workouts.len()
                },
                DetailTable::SleepSessions => {
                    let before = store.sleep_sessions.len();
                    remove_details_of_aged(
                        &mut store.sleep_sessions,
                        &store.events,
                        source.as_str(),
                        *cutoff,
                    );
                    proof {
                        old(store)@.sleep_sessions.lemma_filter_len(
                            detail_is_kept(old(store)@.events, source@, *cutoff as int),
                        );
                    }
                    before - store.sleep_sessions.len()
                },
            }
        },
        RetentionStep::DeleteEvents { source, cutoff } => remove_aged_events(
            &mut store.events,
            source.as_str(),
            *cutoff,
        ),
    }
}

} // verus!
