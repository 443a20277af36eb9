//! What holds of every retention pass.

use vstd::prelude::*;
use crate::retention::{
    after_delete, after_one, after_policies, after_policy, after_retention, after_summarize, aged,
    aggregate_position, belongs_to_aged, counted, cutoff_seconds, deleted_count, detail_is_kept, group_metadata,
    group_position, grouped, is_aged, is_kept, is_statistics_table, kept_details, merged,
    policy_result, result_of, results_of, same_group, single, summary_groups, summary_metadata,
    upsert, with_member, RetentionResult,
};
use crate::json::{lookup, Json};
use crate::store::{
    distinct_ids, health_source, Aggregate, DetailRow, DetailTable, EventRow, RetentionPolicy, Statistic,
    StoreModel,
};

verus! {

/// After the aged events of a source were deleted, the store holds no aged
/// event of that source.
pub proof fn delete_leaves_no_aged(m: StoreModel, source: Seq<char>, cutoff: int)
    ensures
        forall|i: int|
            0 <= i < after_delete(m, source, cutoff).events.len() ==> !aged(
                #[trigger] after_delete(m, source, cutoff).events[i],
                source,
                cutoff,
            ),
{
    let kept = m.events.filter(is_kept(source, cutoff));
    assert forall|i: int| 0 <= i < kept.len() implies !aged(#[trigger] kept[i], source, cutoff) by {
        m.events.lemma_filter_pred(is_kept(source, cutoff), i);
    }
}

/// Deleting the aged events of a source keeps every other event: those of
/// other sources, and those of the source that have not aged.
pub proof fn delete_keeps_the_rest(m: StoreModel, source: Seq<char>, cutoff: int, i: int)
    requires
        0 <= i < m.events.len(),
        !aged(m.events[i], source, cutoff),
    ensures
        after_delete(m, source, cutoff).events.contains(m.events[i]),
{
    m.events.lemma_filter_contains(is_kept(source, cutoff), i);
}

/// Deleting events drops rows and changes none: every event that is left
/// was there before.
pub proof fn delete_adds_nothing(m: StoreModel, source: Seq<char>, cutoff: int, i: int)
    requires
        0 <= i < after_delete(m, source, cutoff).events.len(),
    ensures
        m.events.contains(after_delete(m, source, cutoff).events[i]),
{
    let kept = m.events.filter(is_kept(source, cutoff));
    assert(kept.contains(kept[i]));
    m.events.lemma_filter_contains_rev(is_kept(source, cutoff), kept[i]);
}

/// When health events are deleted, their details go with them: no detail
/// row that is left belongs to a deleted event.
pub proof fn details_go_with_their_events(
    m: StoreModel,
    cutoff: int,
    table: DetailTable,
    i: int,
)
    requires
        0 <= i < after_delete(m, health_source(), cutoff).details(table).len(),
    ensures
        !belongs_to_aged(
            m.events,
            after_delete(m, health_source(), cutoff).details(table)[i].event_id,
            health_source(),
            cutoff,
        ),
{
    let keep = detail_is_kept(m.events, health_source(), cutoff);
    m.details(table).lemma_filter_pred(keep, i);
}

/// Deleting aged events never orphans a detail row: if every detail row
/// had its health event before, every detail row that is left has it after.
pub proof fn delete_keeps_references(m: StoreModel, source: Seq<char>, cutoff: int)
    requires
        m.references_intact(),
    ensures
        after_delete(m, source, cutoff).references_intact(),
{
    let after = after_delete(m, source, cutoff);
    let keep = detail_is_kept(m.events, source, cutoff);
    assert forall|table: DetailTable, i: int| 0 <= i < after.details(table).len() implies after.has_health_event(
        (#[trigger] after.details(table)[i]).event_id,
    ) by {
        let d = after.details(table)[i];
        if source == health_source() {
            assert(after.details(table) == m.details(table).filter(keep));
            m.details(table).lemma_filter_pred(keep, i);
            assert(after.details(table).contains(d));
            m.details(table).lemma_filter_contains_rev(keep, d);
        } else {
            assert(after.details(table) == m.details(table));
            assert(m.details(table).contains(d));
        }
        let j = choose|j: int| 0 <= j < m.details(table).len() && m.details(table)[j] == d;
        assert(m.has_health_event(m.details(table)[j].event_id));
        let k = choose|k: int|
            0 <= k < m.events.len() && (#[trigger] m.events[k]).id == d.event_id
                && m.events[k].source@ == health_source();
        assert(!aged(m.events[k], source, cutoff));
        m.events.lemma_filter_contains(is_kept(source, cutoff), k);
        let k2 = choose|k2: int| 0 <= k2 < after.events.len() && after.events[k2] == m.events[k];
        assert(after.events[k2].id == d.event_id);
    }
}

/// A retention run never orphans a detail row.
pub proof fn policies_keep_references(m: StoreModel, policies: Seq<RetentionPolicy>, now: i64, aggregates: Seq<Aggregate>)
    requires
        m.references_intact(),
    ensures
        after_policies(m, policies, now, aggregates).references_intact(),
    decreases policies.len(),
{
    if policies.len() > 0 {
        let earlier = after_policies(m, policies.drop_last(), now, aggregates);
        policies_keep_references(m, policies.drop_last(), now, aggregates);
        let p = policies.last();
        let cutoff = cutoff_seconds(now, p.retention_days);
        match p.table() {
            Some(table) => {
                let summarized = after_summarize(earlier, p.source@, cutoff, table, now, aggregates);
                assert(summarized.references_intact()) by {
                    assert(forall|t: DetailTable| summarized.details(t) == earlier.details(t));
                    assert(forall|id: i64|
                        earlier.has_health_event(id) ==> summarized.has_health_event(id));
                }
                delete_keeps_references(summarized, p.source@, cutoff);
            },
            None => {
                delete_keeps_references(earlier, p.source@, cutoff);
            },
        }
    }
}

/// A retention run never orphans a detail row.
pub proof fn retention_keeps_references(m: StoreModel, now: i64, aggregates: Seq<Aggregate>)
    requires
        m.references_intact(),
    ensures
        after_retention(m, now, aggregates).references_intact(),
{
    policies_keep_references(m, m.retention_policies, now, aggregates);
}

/// A filter that every element passes changes nothing.
pub proof fn filter_keeps_all<A>(s: Seq<A>, pred: spec_fn(A) -> bool)
    requires
        forall|i: int| 0 <= i < s.len() ==> pred(#[trigger] s[i]),
    ensures
        s.filter(pred) == s,
    decreases s.len(),
{
    reveal(Seq::filter);
    if s.len() > 0 {
        filter_keeps_all(s.drop_last(), pred);
        assert(s.drop_last().push(s.last()) =~= s);
    }
}

/// A filter that no element passes leaves nothing.
pub proof fn filter_drops_all<A>(s: Seq<A>, pred: spec_fn(A) -> bool)
    requires
        forall|i: int| 0 <= i < s.len() ==> !pred(#[trigger] s[i]),
    ensures
        s.filter(pred) == Seq::<A>::empty(),
    decreases s.len(),
{
    reveal(Seq::filter);
    if s.len() > 0 {
        filter_drops_all(s.drop_last(), pred);
    } else {
        assert(s =~= Seq::<A>::empty());
    }
}

/// Whether the store holds no aged event of `source`.
pub open spec fn settled(m: StoreModel, source: Seq<char>, cutoff: int) -> bool {
    forall|i: int| 0 <= i < m.events.len() ==> !aged(#[trigger] m.events[i], source, cutoff)
}

/// Whether a policy found nothing to do.
pub open spec fn is_idle(result: RetentionResult) -> bool {
    match result {
        RetentionResult::Deleted(deleted) => deleted == 0,
        RetentionResult::Summarized { summarized, deleted } => summarized == 0 && deleted == 0,
    }
}

/// Where the store holds no aged event of a source, applying a policy for
/// that source changes nothing and reports nothing.
pub proof fn settled_policy_is_idle(
    m: StoreModel,
    source: Seq<char>,
    cutoff: int,
    summary_table: Option<Seq<char>>,
    updated_at: i64,
    aggregates: Seq<Aggregate>,
)
    requires
        settled(m, source, cutoff),
    ensures
        after_policy(m, source, cutoff, summary_table, updated_at, aggregates) == m,
        is_idle(policy_result(m, source, cutoff, summary_table, updated_at, aggregates)),
{
    filter_keeps_all(m.events, is_kept(source, cutoff));
    filter_drops_all(m.events, is_aged(source, cutoff));
    let keep = detail_is_kept(m.events, source, cutoff);
    filter_keeps_all(m.health_metrics, keep);
    filter_keeps_all(m.workouts, keep);
    filter_keeps_all(m.sleep_sessions, keep);
    assert(after_delete(m, source, cutoff) == m);
    match summary_table {
        Some(table) => {
            assert(summary_groups(m, source, cutoff, table, updated_at, aggregates) =~= Seq::<
                Statistic,
            >::empty());
            assert(after_summarize(m, source, cutoff, table, updated_at, aggregates) == m);
        },
        None => {},
    }
}

/// Once a policy was applied, the store holds no aged event of its source.
pub proof fn policy_settles(
    m: StoreModel,
    source: Seq<char>,
    cutoff: int,
    summary_table: Option<Seq<char>>,
    updated_at: i64,
    aggregates: Seq<Aggregate>,
)
    ensures
        settled(after_policy(m, source, cutoff, summary_table, updated_at, aggregates), source, cutoff),
{
    match summary_table {
        Some(table) => {
            delete_leaves_no_aged(
                after_summarize(m, source, cutoff, table, updated_at, aggregates),
                source,
                cutoff,
            );
        },
        None => {
            delete_leaves_no_aged(m, source, cutoff);
        },
    }
}

/// Applying a policy does not unsettle another: where the store held no
/// aged event of `other`, it holds none after.
pub proof fn policy_keeps_settled(
    m: StoreModel,
    source: Seq<char>,
    cutoff: int,
    summary_table: Option<Seq<char>>,
    updated_at: i64,
    other: Seq<char>,
    other_cutoff: int,
    aggregates: Seq<Aggregate>,
)
    requires
        settled(m, other, other_cutoff),
    ensures
        settled(
            after_policy(m, source, cutoff, summary_table, updated_at, aggregates),
            other,
            other_cutoff,
        ),
{
    let after = after_policy(m, source, cutoff, summary_table, updated_at, aggregates);
    let base = match summary_table {
        Some(table) => after_summarize(m, source, cutoff, table, updated_at, aggregates),
        None => m,
    };
    assert(base.events == m.events);
    assert forall|i: int| 0 <= i < after.events.len() implies !aged(
        #[trigger] after.events[i],
        other,
        other_cutoff,
    ) by {
        delete_adds_nothing(base, source, cutoff, i);
        let j = choose|j: int| 0 <= j < m.events.len() && m.events[j] == after.events[i];
        assert(!aged(m.events[j], other, other_cutoff));
    }
}

/// Applying one policy twice at one time is applying it once: the second
/// pass changes nothing and reports nothing, whatever is aggregated for it.
pub proof fn policy_is_idempotent(
    m: StoreModel,
    policy: RetentionPolicy,
    now: i64,
    aggregates: Seq<Aggregate>,
    again: Seq<Aggregate>,
)
    ensures
        after_one(after_one(m, policy, now, aggregates), policy, now, again) == after_one(
            m,
            policy,
            now,
            aggregates,
        ),
        is_idle(result_of(after_one(m, policy, now, aggregates), policy, now, again)),
{
    let cutoff = cutoff_seconds(now, policy.retention_days);
    policy_settles(m, policy.source@, cutoff, policy.table(), now, aggregates);
    settled_policy_is_idle(
        after_one(m, policy, now, aggregates),
        policy.source@,
        cutoff,
        policy.table(),
        now,
        again,
    );
}

/// Whether the store holds no aged event for any of the policies.
pub open spec fn all_settled(m: StoreModel, policies: Seq<RetentionPolicy>, now: i64) -> bool {
    forall|j: int|
        0 <= j < policies.len() ==> settled(
            m,
            (#[trigger] policies[j]).source@,
            cutoff_seconds(now, policies[j].retention_days),
        )
}

/// After the policies were applied, the store holds no aged event for any of
/// them.
pub proof fn policies_settle(m: StoreModel, policies: Seq<RetentionPolicy>, now: i64, aggregates: Seq<Aggregate>)
    ensures
        all_settled(after_policies(m, policies, now, aggregates), policies, now),
    decreases policies.len(),
{
    if policies.len() > 0 {
        let front = policies.drop_last();
        let last = policies.last();
        let earlier = after_policies(m, front, now, aggregates);
        let cutoff = cutoff_seconds(now, last.retention_days);
        policies_settle(m, front, now, aggregates);
        policy_settles(earlier, last.source@, cutoff, last.table(), now, aggregates);
        assert forall|j: int| 0 <= j < policies.len() implies settled(
            after_policies(m, policies, now, aggregates),
            (#[trigger] policies[j]).source@,
            cutoff_seconds(now, policies[j].retention_days),
        ) by {
            if j < front.len() {
                assert(front[j] == policies[j]);
                policy_keeps_settled(
                    earlier,
                    last.source@,
                    cutoff,
                    last.table(),
                    now,
                    policies[j].source@,
                    cutoff_seconds(now, policies[j].retention_days),
                    aggregates,
                );
            }
        }
    }
}

/// Where the store holds no aged event for any of the policies, applying
/// them changes nothing, and each reports nothing.
pub proof fn settled_policies_are_idle(m: StoreModel, policies: Seq<RetentionPolicy>, now: i64, aggregates: Seq<Aggregate>)
    requires
        all_settled(m, policies, now),
    ensures
        after_policies(m, policies, now, aggregates) == m,
        results_of(m, policies, now, aggregates).len() == policies.len(),
        forall|j: int|
            0 <= j < policies.len() ==> is_idle(#[trigger] results_of(m, policies, now, aggregates)[j]),
    decreases policies.len(),
{
    if policies.len() > 0 {
        let front = policies.drop_last();
        let last = policies.last();
        assert(forall|j: int| 0 <= j < front.len() ==> front[j] == policies[j]);
        settled_policies_are_idle(m, front, now, aggregates);
        settled_policy_is_idle(
            m,
            last.source@,
            cutoff_seconds(now, last.retention_days),
            last.table(),
            now,
            aggregates,
        );
    }
}

/// Retention is idempotent: a second run at the same time, with no new
/// data, deletes nothing, writes no statistics and leaves the store, the
/// counts of its statistics among the rest, as the first run left it.
pub proof fn retention_is_idempotent(
    m: StoreModel,
    now: i64,
    aggregates: Seq<Aggregate>,
    again: Seq<Aggregate>,
)
    ensures
        after_retention(after_retention(m, now, aggregates), now, again) == after_retention(
            m,
            now,
            aggregates,
        ),
        forall|j: int|
            0 <= j < m.retention_policies.len() ==> is_idle(
                #[trigger] results_of(
                    after_retention(m, now, aggregates),
                    after_retention(m, now, aggregates).retention_policies,
                    now,
                    again,
                )[j],
            ),
{
    let first = after_retention(m, now, aggregates);
    crate::retention::policies_stay(m, m.retention_policies, now, aggregates);
    policies_settle(m, m.retention_policies, now, aggregates);
    settled_policies_are_idle(first, m.retention_policies, now, again);
}

/// Whether `after` holds every row of `before` at its place, for the same
/// day, source and event type, with a count that is no smaller.
pub open spec fn never_decreased(before: Seq<Statistic>, after: Seq<Statistic>) -> bool {
    &&& before.len() <= after.len()
    &&& forall|i: int|
        0 <= i < before.len() ==> {
            &&& (#[trigger] after[i]).day == before[i].day
            &&& after[i].source == before[i].source
            &&& after[i].event_type == before[i].event_type
            &&& after[i].count >= before[i].count
        }
}

/// The index that `group_position` gives is that of a row, or the number of
/// rows.
pub proof fn group_position_is_in_range(stats: Seq<Statistic>, group: Statistic, from: int)
    requires
        0 <= from,
    ensures
        from <= group_position(stats, group, from) <= stats.len() || stats.len()
            < from,
    decreases stats.len() - from,
{
    if from < stats.len() && !same_group(stats[from], group) {
        group_position_is_in_range(stats, group, from + 1);
    }
}

/// Writing a group with a count that is not negative removes no row and
/// lowers no count.
pub proof fn upsert_never_decreases(stats: Seq<Statistic>, group: Statistic)
    requires
        group.count >= 0,
    ensures
        never_decreased(stats, upsert(stats, group)),
{
    group_position_is_in_range(stats, group, 0);
}

/// Every group of events counts at least one event.
pub proof fn groups_are_not_empty(
    rows: Seq<EventRow>,
    updated_at: i64,
    aggregates: Seq<Aggregate>,
)
    ensures
        forall|i: int|
            0 <= i < grouped(rows, aggregates, updated_at).len() ==> (#[trigger] grouped(
                rows,
                aggregates,
                updated_at,
            )[i]).count >= 1,
    decreases rows.len(),
{
    if rows.len() > 0 {
        groups_are_not_empty(rows.drop_last(), updated_at, aggregates);
        let earlier = grouped(rows.drop_last(), aggregates, updated_at);
        let one = single(rows.last(), aggregates, updated_at);
        group_position_is_in_range(earlier, one, 0);
    }
}

/// Writing groups whose counts are not negative removes no row and lowers
/// no count.
pub proof fn merge_never_decreases(stats: Seq<Statistic>, groups: Seq<Statistic>)
    requires
        forall|i: int| 0 <= i < groups.len() ==> (#[trigger] groups[i]).count >= 0,
    ensures
        never_decreased(stats, merged(stats, groups)),
    decreases groups.len(),
{
    if groups.len() > 0 {
        let front = groups.drop_last();
        assert(forall|i: int| 0 <= i < front.len() ==> front[i] == groups[i]);
        merge_never_decreases(stats, front);
        upsert_never_decreases(merged(stats, front), groups.last());
    }
}

/// Applying a policy resets no statistic: every row stays, and its count
/// does not decrease.
pub proof fn policy_never_decreases_counts(m: StoreModel, policy: RetentionPolicy, now: i64, aggregates: Seq<Aggregate>)
    ensures
        never_decreased(m.event_statistics, after_one(m, policy, now, aggregates).event_statistics),
{
    let cutoff = cutoff_seconds(now, policy.retention_days);
    match policy.table() {
        Some(table) => {
            let groups = summary_groups(m, policy.source@, cutoff, table, now, aggregates);
            groups_are_not_empty(m.events.filter(is_aged(policy.source@, cutoff)), now, aggregates);
            merge_never_decreases(m.event_statistics, groups);
        },
        None => {},
    }
}

/// A retention run resets no statistic: every row stays, and its count does
/// not decrease.
pub proof fn policies_never_decrease_counts(
    m: StoreModel,
    policies: Seq<RetentionPolicy>,
    now: i64,
    aggregates: Seq<Aggregate>,
)
    ensures
        never_decreased(m.event_statistics, after_policies(m, policies, now, aggregates).event_statistics),
    decreases policies.len(),
{
    if policies.len() > 0 {
        policies_never_decrease_counts(m, policies.drop_last(), now, aggregates);
        policy_never_decreases_counts(
            after_policies(m, policies.drop_last(), now, aggregates),
            policies.last(),
            now,
            aggregates,
        );
    }
}

/// Where `group_position` finds no row, no row is in the group; where it
/// finds one, that row is in the group.
pub proof fn group_position_finds_the_group(
    stats: Seq<Statistic>,
    group: Statistic,
    from: int,
)
    requires
        0 <= from <= stats.len(),
    ensures
        ({
            let i = group_position(stats, group, from);
            &&& from <= i <= stats.len()
            &&& i < stats.len() ==> same_group(stats[i], group)
            &&& forall|j: int| from <= j < i ==> !same_group(#[trigger] stats[j], group)
        }),
    decreases stats.len() - from,
{
    if from < stats.len() && !same_group(stats[from], group) {
        group_position_finds_the_group(stats, group, from + 1);
    }
}

/// Whether no two rows count the same thing.
pub open spec fn groups_distinct(stats: Seq<Statistic>) -> bool {
    forall|i: int, j: int|
        0 <= i < j < stats.len() ==> !same_group(#[trigger] stats[i], #[trigger] stats[j])
}

/// Writing a group to statistics that hold one row for each group leaves
/// one row for each group.
pub proof fn upsert_keeps_groups_distinct(stats: Seq<Statistic>, group: Statistic)
    requires
        groups_distinct(stats),
    ensures
        groups_distinct(upsert(stats, group)),
{
    group_position_finds_the_group(stats, group, 0);
    let after = upsert(stats, group);
    let at = group_position(stats, group, 0);
    assert forall|i: int, j: int| 0 <= i < j < after.len() implies !same_group(
        #[trigger] after[i],
        #[trigger] after[j],
    ) by {
        if at < stats.len() {
            assert(same_group(after[i], stats[i]) || i == at);
            assert(!same_group(stats[i], stats[j]));
        } else if j < stats.len() {
            assert(!same_group(stats[i], stats[j]));
        } else {
            assert(!same_group(stats[i], group));
        }
    }
}

/// Counting an event among groups that hold one row for each group leaves
/// one row for each group.
pub proof fn counting_keeps_groups_distinct(groups: Seq<Statistic>, one: Statistic)
    requires
        groups_distinct(groups),
    ensures
        groups_distinct(counted(groups, one)),
{
    group_position_finds_the_group(groups, one, 0);
    let after = counted(groups, one);
    let at = group_position(groups, one, 0);
    assert forall|i: int, j: int| 0 <= i < j < after.len() implies !same_group(
        #[trigger] after[i],
        #[trigger] after[j],
    ) by {
        if at < groups.len() {
            assert(!same_group(groups[i], groups[j]));
        } else if j < groups.len() {
            assert(!same_group(groups[i], groups[j]));
        } else {
            assert(!same_group(groups[i], one));
        }
    }
}

/// Grouping gives one row for each day, source and event type.
pub proof fn grouping_gives_one_row_for_each_group(rows: Seq<EventRow>, updated_at: i64, aggregates: Seq<Aggregate>)
    ensures
        groups_distinct(grouped(rows, aggregates, updated_at)),
    decreases rows.len(),
{
    if rows.len() > 0 {
        grouping_gives_one_row_for_each_group(rows.drop_last(), updated_at, aggregates);
        counting_keeps_groups_distinct(
            grouped(rows.drop_last(), aggregates, updated_at),
            single(rows.last(), aggregates, updated_at),
        );
    }
}

/// Summarizing into statistics that hold one row for each group leaves one
/// row for each group.
pub proof fn merge_keeps_groups_distinct(stats: Seq<Statistic>, groups: Seq<Statistic>)
    requires
        groups_distinct(stats),
    ensures
        groups_distinct(merged(stats, groups)),
    decreases groups.len(),
{
    if groups.len() > 0 {
        merge_keeps_groups_distinct(stats, groups.drop_last());
        upsert_keeps_groups_distinct(merged(stats, groups.drop_last()), groups.last());
    }
}

/// The sum of the counts of the rows.
pub open spec fn total_count(stats: Seq<Statistic>) -> int
    decreases stats.len(),
{
    if stats.len() == 0 {
        0
    } else {
        total_count(stats.drop_last()) + stats.last().count
    }
}

/// Replacing one row changes the sum of the counts by the difference of
/// the row's counts.
pub proof fn total_after_update(stats: Seq<Statistic>, i: int, row: Statistic)
    requires
        0 <= i < stats.len(),
    ensures
        total_count(stats.update(i, row)) == total_count(stats) - stats[i].count + row.count,
    decreases stats.len(),
{
    let after = stats.update(i, row);
    if i == stats.len() - 1 {
        assert(after.drop_last() =~= stats.drop_last());
    } else {
        assert(after.drop_last() =~= stats.drop_last().update(i, row));
        total_after_update(stats.drop_last(), i, row);
    }
}

/// Where no count is negative, the sum of the counts is not negative.
pub proof fn total_is_not_negative(stats: Seq<Statistic>)
    requires
        forall|j: int| 0 <= j < stats.len() ==> (#[trigger] stats[j]).count >= 0,
    ensures
        total_count(stats) >= 0,
    decreases stats.len(),
{
    if stats.len() > 0 {
        let front = stats.drop_last();
        assert(forall|j: int| 0 <= j < front.len() ==> front[j] == stats[j]);
        total_is_not_negative(front);
    }
}

/// Where no count is negative, no count exceeds the sum of the counts.
pub proof fn count_is_at_most_total(stats: Seq<Statistic>, i: int)
    requires
        0 <= i < stats.len(),
        forall|j: int| 0 <= j < stats.len() ==> (#[trigger] stats[j]).count >= 0,
    ensures
        0 <= stats[i].count <= total_count(stats),
    decreases stats.len(),
{
    let front = stats.drop_last();
    assert(forall|j: int| 0 <= j < front.len() ==> front[j] == stats[j]);
    total_is_not_negative(front);
    if i < stats.len() - 1 {
        count_is_at_most_total(front, i);
    }
}

/// Grouping counts every event once: the counts of the groups add up to the
/// number of events.
pub proof fn grouping_counts_every_event(
    rows: Seq<EventRow>,
    updated_at: i64,
    aggregates: Seq<Aggregate>,
)
    requires
        rows.len() <= i64::MAX,
    ensures
        total_count(grouped(rows, aggregates, updated_at)) == rows.len(),
    decreases rows.len(),
{
    if rows.len() > 0 {
        let earlier = grouped(rows.drop_last(), aggregates, updated_at);
        let one = single(rows.last(), aggregates, updated_at);
        grouping_counts_every_event(rows.drop_last(), updated_at, aggregates);
        groups_are_not_empty(rows.drop_last(), updated_at, aggregates);
        group_position_finds_the_group(earlier, one, 0);
        let at = group_position(earlier, one, 0);
        if at < earlier.len() {
            count_is_at_most_total(earlier, at);
            total_after_update(earlier, at, counted(earlier, one)[at]);
        } else {
            assert(earlier.push(one).drop_last() =~= earlier);
        }
    }
}

/// A retention run keeps every event that has not aged under any policy.
pub proof fn policies_keep_the_rest(
    m: StoreModel,
    policies: Seq<RetentionPolicy>,
    now: i64,
    i: int,
    aggregates: Seq<Aggregate>,
)
    requires
        0 <= i < m.events.len(),
        forall|j: int|
            0 <= j < policies.len() ==> !aged(
                m.events[i],
                (#[trigger] policies[j]).source@,
                cutoff_seconds(now, policies[j].retention_days),
            ),
    ensures
        after_policies(m, policies, now, aggregates).events.contains(m.events[i]),
    decreases policies.len(),
{
    if policies.len() == 0 {
        assert(m.events[i] == m.events[i]);
    } else {
        let front = policies.drop_last();
        let last = policies.last();
        let cutoff = cutoff_seconds(now, last.retention_days);
        assert(forall|j: int| 0 <= j < front.len() ==> front[j] == policies[j]);
        policies_keep_the_rest(m, front, now, i, aggregates);
        let earlier = after_policies(m, front, now, aggregates);
        let k = choose|k: int| 0 <= k < earlier.events.len() && earlier.events[k] == m.events[i];
        let base = match last.table() {
            Some(table) => after_summarize(earlier, last.source@, cutoff, table, now, aggregates),
            None => earlier,
        };
        assert(base.events == earlier.events);
        delete_keeps_the_rest(base, last.source@, cutoff, k);
    }
}

/// A retention run keeps every event that has not aged under any policy of
/// the store.
pub proof fn retention_keeps_the_rest(m: StoreModel, now: i64, i: int, aggregates: Seq<Aggregate>)
    requires
        0 <= i < m.events.len(),
        forall|j: int|
            0 <= j < m.retention_policies.len() ==> !aged(
                m.events[i],
                (#[trigger] m.retention_policies[j]).source@,
                cutoff_seconds(now, m.retention_policies[j].retention_days),
            ),
    ensures
        after_retention(m, now, aggregates).events.contains(m.events[i]),
{
    policies_keep_the_rest(m, m.retention_policies, now, i, aggregates);
}

/// After a retention run the store holds no event that has aged under any
/// of its policies.
pub proof fn retention_leaves_no_aged(m: StoreModel, now: i64, aggregates: Seq<Aggregate>)
    ensures
        all_settled(after_retention(m, now, aggregates), m.retention_policies, now),
{
    policies_settle(m, m.retention_policies, now, aggregates);
}

/// What a filter keeps and what it drops make up the whole.
pub proof fn filter_splits<A>(s: Seq<A>, kept: spec_fn(A) -> bool, dropped: spec_fn(A) -> bool)
    requires
        forall|x: A| #[trigger] kept(x) == !dropped(x),
    ensures
        s.filter(kept).len() + s.filter(dropped).len() == s.len(),
    decreases s.len(),
{
    reveal(Seq::filter);
    if s.len() > 0 {
        filter_splits(s.drop_last(), kept, dropped);
    }
}

/// The events that a retention pass deletes are the aged events.
pub proof fn deleted_are_the_aged(m: StoreModel, source: Seq<char>, cutoff: int)
    ensures
        deleted_count(m, source, cutoff) == m.events.filter(is_aged(source, cutoff)).len(),
{
    filter_splits(m.events, is_kept(source, cutoff), is_aged(source, cutoff));
}

/// Whether no count is negative.
pub open spec fn counts_not_negative(stats: Seq<Statistic>) -> bool {
    forall|i: int| 0 <= i < stats.len() ==> (#[trigger] stats[i]).count >= 0
}

/// Writing a group adds its count to the sum of the counts, as long as the
/// sum stays in the range of a count.
pub proof fn upsert_adds_to_total(stats: Seq<Statistic>, group: Statistic)
    requires
        counts_not_negative(stats),
        group.count >= 0,
        total_count(stats) + group.count <= i64::MAX,
    ensures
        total_count(upsert(stats, group)) == total_count(stats) + group.count,
        counts_not_negative(upsert(stats, group)),
{
    group_position_finds_the_group(stats, group, 0);
    let at = group_position(stats, group, 0);
    if at < stats.len() {
        count_is_at_most_total(stats, at);
        total_after_update(stats, at, upsert(stats, group)[at]);
    } else {
        assert(stats.push(group).drop_last() =~= stats);
    }
}

/// Writing groups adds their counts to the sum of the counts, as long as
/// the sum stays in the range of a count.
pub proof fn merge_adds_to_total(stats: Seq<Statistic>, groups: Seq<Statistic>)
    requires
        counts_not_negative(stats),
        counts_not_negative(groups),
        total_count(stats) + total_count(groups) <= i64::MAX,
    ensures
        total_count(merged(stats, groups)) == total_count(stats) + total_count(groups),
        counts_not_negative(merged(stats, groups)),
    decreases groups.len(),
{
    if groups.len() > 0 {
        let front = groups.drop_last();
        assert(forall|i: int| 0 <= i < front.len() ==> front[i] == groups[i]);
        merge_adds_to_total(stats, front);
        upsert_adds_to_total(merged(stats, front), groups.last());
    }
}

/// Summarized events are counted, not lost: where a policy summarizes into
/// the statistics, the counts of the statistics grow by the number of events
/// that the policy deletes, as long as they stay in the range of a count.
pub proof fn summarized_events_are_counted(m: StoreModel, policy: RetentionPolicy, now: i64, aggregates: Seq<Aggregate>)
    requires
        policy.table() is Some,
        is_statistics_table(policy.table().unwrap()),
        counts_not_negative(m.event_statistics),
        total_count(m.event_statistics) + m.events.len() <= i64::MAX,
    ensures
        total_count(after_one(m, policy, now, aggregates).event_statistics) == total_count(
            m.event_statistics,
        ) + deleted_count(m, policy.source@, cutoff_seconds(now, policy.retention_days)),
{
    let cutoff = cutoff_seconds(now, policy.retention_days);
    let aged_rows = m.events.filter(is_aged(policy.source@, cutoff));
    let groups = grouped(aged_rows, aggregates, now);
    m.events.lemma_filter_len(is_aged(policy.source@, cutoff));
    total_is_not_negative(m.event_statistics);
    deleted_are_the_aged(m, policy.source@, cutoff);
    grouping_counts_every_event(aged_rows, now, aggregates);
    groups_are_not_empty(aged_rows, now, aggregates);
    merge_adds_to_total(m.event_statistics, groups);
}

/// Whether a statistic's metadata are an object with the members
/// `avg_duration` and `total_count`.
pub open spec fn has_summary_members(metadata: Json) -> bool {
    &&& metadata is Object
    &&& lookup(metadata->Object_0, "avg_duration"@) is Some
    &&& lookup(metadata->Object_0, "total_count"@) is Some
}

/// The metadata made from an aggregate have both members, and every member
/// of the aggregate is among them with its value.
pub proof fn summary_metadata_is_complete(aggregated: Json)
    ensures
        has_summary_members(summary_metadata(aggregated)),
        aggregated matches Json::Object(given) ==> forall|key: Seq<char>|
            lookup(given, key) is Some ==> #[trigger] lookup(
                summary_metadata(aggregated)->Object_0,
                key,
            ) == lookup(given, key),
{
    let given = match aggregated {
        Json::Object(entries) => entries,
        _ => Seq::empty(),
    };
    let first = with_member(given, "avg_duration"@);
    let second = with_member(first, "total_count"@);
    assert forall|key: Seq<char>| lookup(given, key) is Some implies #[trigger] lookup(first, key)
        == lookup(given, key) by {
        if lookup(given, "avg_duration"@) is None {
            crate::json::put_sets_the_member(
                given,
                crate::json::Entry { key: "avg_duration"@, value: Json::Null },
                key,
            );
        }
    }
    if lookup(given, "avg_duration"@) is None {
        crate::json::put_sets_the_member(
            given,
            crate::json::Entry { key: "avg_duration"@, value: Json::Null },
            "avg_duration"@,
        );
    }
    assert(lookup(first, "avg_duration"@) is Some);
    assert forall|key: Seq<char>| lookup(first, key) is Some implies #[trigger] lookup(second, key)
        == lookup(first, key) by {
        if lookup(first, "total_count"@) is None {
            crate::json::put_sets_the_member(
                first,
                crate::json::Entry { key: "total_count"@, value: Json::Null },
                key,
            );
        }
    }
    if lookup(first, "total_count"@) is None {
        crate::json::put_sets_the_member(
            first,
            crate::json::Entry { key: "total_count"@, value: Json::Null },
            "total_count"@,
        );
    }
}

/// Every group of events has metadata with `avg_duration` and `total_count`.
pub proof fn groups_have_summary_members(
    rows: Seq<EventRow>,
    updated_at: i64,
    aggregates: Seq<Aggregate>,
)
    ensures
        forall|i: int|
            0 <= i < grouped(rows, aggregates, updated_at).len() ==> has_summary_members(
                (#[trigger] grouped(rows, aggregates, updated_at)[i]).metadata,
            ),
    decreases rows.len(),
{
    if rows.len() > 0 {
        groups_have_summary_members(rows.drop_last(), updated_at, aggregates);
        let earlier = grouped(rows.drop_last(), aggregates, updated_at);
        let one = single(rows.last(), aggregates, updated_at);
        group_position_is_in_range(earlier, one, 0);
        let at = aggregate_position(aggregates, one.day, one.source, one.event_type, 0);
        if 0 <= at < aggregates.len() {
            summary_metadata_is_complete(aggregates[at].metadata);
        } else {
            summary_metadata_is_complete(Json::Null);
        }
    }
}

/// Writing a group to a row keeps the members that the row's metadata had
/// and gives them the group's values where the group has them: the later
/// values win.
pub proof fn upsert_merges_metadata(stats: Seq<Statistic>, group: Statistic, key: Seq<char>)
    requires
        group_position(stats, group, 0) < stats.len(),
        stats[group_position(stats, group, 0)].metadata is Object,
        group.metadata is Object,
    ensures
        ({
            let at = group_position(stats, group, 0);
            let before = stats[at].metadata->Object_0;
            let after = upsert(stats, group)[at].metadata;
            &&& after is Object
            &&& lookup(group.metadata->Object_0, key) is None ==> lookup(after->Object_0, key)
                == lookup(before, key)
            &&& lookup(group.metadata->Object_0, key) is Some ==> lookup(after->Object_0, key)
                is Some
        }),
{
    group_position_finds_the_group(stats, group, 0);
    let at = group_position(stats, group, 0);
    crate::json::merge_keeps_and_adds(stats[at].metadata->Object_0, group.metadata->Object_0, key);
}

/// Summarizing keeps `avg_duration` and `total_count` in the metadata of
/// every statistic that had them.
pub proof fn upsert_keeps_summary_members(stats: Seq<Statistic>, group: Statistic)
    requires
        forall|i: int| 0 <= i < stats.len() ==> has_summary_members((#[trigger] stats[i]).metadata),
        has_summary_members(group.metadata),
    ensures
        forall|i: int|
            0 <= i < upsert(stats, group).len() ==> has_summary_members(
                (#[trigger] upsert(stats, group)[i]).metadata,
            ),
{
    group_position_finds_the_group(stats, group, 0);
    let at = group_position(stats, group, 0);
    if at < stats.len() {
        crate::json::merge_keeps_and_adds(
            stats[at].metadata->Object_0,
            group.metadata->Object_0,
            "avg_duration"@,
        );
        crate::json::merge_keeps_and_adds(
            stats[at].metadata->Object_0,
            group.metadata->Object_0,
            "total_count"@,
        );
    }
}

/// Whether the metadata of every statistic have `avg_duration` and
/// `total_count`.
pub open spec fn all_have_summary_members(stats: Seq<Statistic>) -> bool {
    forall|i: int| 0 <= i < stats.len() ==> has_summary_members((#[trigger] stats[i]).metadata)
}

/// Writing groups whose metadata have both members to statistics whose
/// metadata have them leaves both members in the metadata of every row.
pub proof fn merge_keeps_summary_members(stats: Seq<Statistic>, groups: Seq<Statistic>)
    requires
        all_have_summary_members(stats),
        all_have_summary_members(groups),
    ensures
        all_have_summary_members(merged(stats, groups)),
    decreases groups.len(),
{
    if groups.len() > 0 {
        let front = groups.drop_last();
        assert(forall|i: int| 0 <= i < front.len() ==> front[i] == groups[i]);
        merge_keeps_summary_members(stats, front);
        upsert_keeps_summary_members(merged(stats, front), groups.last());
    }
}

/// After the aged events of a source were summarized, the metadata of every
/// statistic have `avg_duration` and `total_count`, where those of the
/// statistics that were there had them.
pub proof fn summaries_have_summary_members(
    m: StoreModel,
    source: Seq<char>,
    cutoff: int,
    table: Seq<char>,
    updated_at: i64,
    aggregates: Seq<Aggregate>,
)
    requires
        all_have_summary_members(m.event_statistics),
    ensures
        all_have_summary_members(
            after_summarize(m, source, cutoff, table, updated_at, aggregates).event_statistics,
        ),
{
    let groups = summary_groups(m, source, cutoff, table, updated_at, aggregates);
    if is_statistics_table(table) {
        groups_have_summary_members(m.events.filter(is_aged(source, cutoff)), updated_at, aggregates);
    }
    merge_keeps_summary_members(m.event_statistics, groups);
}

/// Dropping events leaves the ids of the others distinct.
pub proof fn filter_keeps_ids_distinct(events: Seq<EventRow>, keep: spec_fn(EventRow) -> bool)
    requires
        distinct_ids(events),
    ensures
        distinct_ids(events.filter(keep)),
    decreases events.len(),
{
    reveal(Seq::filter);
    if events.len() > 0 {
        let front = events.drop_last();
        let kept = front.filter(keep);
        assert(forall|i: int| 0 <= i < front.len() ==> front[i] == events[i]);
        filter_keeps_ids_distinct(front, keep);
        if keep(events.last()) {
            let after = kept.push(events.last());
            assert forall|i: int, j: int| 0 <= i < j < after.len() implies (#[trigger] after[i]).id
                != (#[trigger] after[j]).id by {
                if j == kept.len() {
                    assert(kept.contains(kept[i]));
                    front.lemma_filter_contains_rev(keep, kept[i]);
                    let k = choose|k: int| 0 <= k < front.len() && front[k] == kept[i];
                    assert(events[k].id != events[events.len() - 1].id);
                } else {
                    assert(kept[i].id != kept[j].id);
                }
            }
        }
    }
}

/// A retention pass keeps ids distinct and fresh: it only drops events.
pub proof fn delete_keeps_ids(m: StoreModel, source: Seq<char>, cutoff: int)
    requires
        m.ids_distinct(),
        m.ids_in_use(),
    ensures
        after_delete(m, source, cutoff).ids_distinct(),
        after_delete(m, source, cutoff).ids_in_use(),
{
    let after = after_delete(m, source, cutoff);
    filter_keeps_ids_distinct(m.events, is_kept(source, cutoff));
    assert forall|i: int| 0 <= i < after.events.len() implies (#[trigger] after.events[i]).id
        < after.next_event_id by {
        delete_adds_nothing(m, source, cutoff, i);
        let k = choose|k: int| 0 <= k < m.events.len() && m.events[k] == after.events[i];
        assert(m.events[k].id < m.next_event_id);
    }
}

/// A retention run keeps ids distinct and fresh.
pub proof fn policies_keep_ids(
    m: StoreModel,
    policies: Seq<RetentionPolicy>,
    now: i64,
    aggregates: Seq<Aggregate>,
)
    requires
        m.ids_distinct(),
        m.ids_in_use(),
    ensures
        after_policies(m, policies, now, aggregates).ids_distinct(),
        after_policies(m, policies, now, aggregates).ids_in_use(),
    decreases policies.len(),
{
    if policies.len() > 0 {
        let earlier = after_policies(m, policies.drop_last(), now, aggregates);
        policies_keep_ids(m, policies.drop_last(), now, aggregates);
        let p = policies.last();
        let cutoff = cutoff_seconds(now, p.retention_days);
        let base = match p.table() {
            Some(table) => after_summarize(earlier, p.source@, cutoff, table, now, aggregates),
            None => earlier,
        };
        assert(base.events == earlier.events && base.next_event_id == earlier.next_event_id);
        delete_keeps_ids(base, p.source@, cutoff);
    }
}

} // verus!
