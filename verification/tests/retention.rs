use aggregator::json::{merge_documents, JsonValue, Member};
use aggregator::retention::{
    add_counts, apply_retention_policy, apply_step, count_event, cutoff_for, cutoff_millis,
    day_number, delete_old_records, group_aged_events, group_metadata_of, has_aged,
    is_id_of_aged, lies_before, retention_steps, run_retention_policies, summarize_old_data,
    summary_metadata_of, upsert_statistic, RetentionResult, RetentionStep,
};
use aggregator::store::{
    DetailRow, DetailTable, EventRow, EventStatistic, GroupAggregate, RetentionPolicy, Store,
};
use aggregator::text::has_prefix;

const DAY_MS: i64 = 86_400_000;

fn insert_event(store: &mut Store, timestamp: i64, source: &str, event_type: &str, key: &str) {
    let id = store.next_event_id;
    store.events.push(EventRow {
        id,
        timestamp,
        source: source.to_string(),
        event_type: event_type.to_string(),
        metadata: JsonValue::Object(vec![]),
        inserted_at: timestamp / 1000,
        partition_key: key.to_string(),
    });
    store.next_event_id = id + 1;
}

fn policy(source: &str, retention_days: i64, summary_table: Option<&str>) -> RetentionPolicy {
    RetentionPolicy {
        source: source.to_string(),
        retention_days,
        summary_table: summary_table.map(|t| t.to_string()),
    }
}

fn num(text: &str) -> JsonValue {
    JsonValue::Number(text.to_string())
}

fn obj(members: Vec<(&str, JsonValue)>) -> JsonValue {
    JsonValue::Object(
        members.into_iter().map(|(k, v)| Member { key: k.to_string(), value: v }).collect(),
    )
}

/// The metadata of a group for which nothing was aggregated.
fn nothing() -> JsonValue {
    obj(vec![("avg_duration", JsonValue::Null), ("total_count", JsonValue::Null)])
}

fn none() -> Vec<GroupAggregate> {
    Vec::new()
}

fn aggregate(day: i64, source: &str, event_type: &str, metadata: JsonValue) -> GroupAggregate {
    GroupAggregate {
        day,
        source: source.to_string(),
        event_type: event_type.to_string(),
        metadata,
    }
}

fn stat(day: i64, source: &str, event_type: &str, count: i64, updated_at: i64) -> EventStatistic {
    EventStatistic {
        day,
        source: source.to_string(),
        event_type: event_type.to_string(),
        count,
        metadata: nothing(),
        updated_at,
    }
}

fn stats_of(store: &Store) -> Vec<(i64, String, String, i64, i64)> {
    store
        .event_statistics
        .iter()
        .map(|s| (s.day, s.source.clone(), s.event_type.clone(), s.count, s.updated_at))
        .collect()
}

#[test]
fn test_retention_policy() {
    let mut store = Store::new();

    let now = chrono::Utc::now().timestamp_millis();
    let old = now - (90 * 86400 * 1000);

    insert_event(&mut store, now, "test", "test_event", "2023_01");
    insert_event(&mut store, old, "test", "test_event", "2022_10");

    store.retention_policies.push(policy("test", 30, Some("event_statistics")));

    run_retention_policies(&mut store, now / 1000, &none());

    let count = store.events.iter().filter(|e| e.timestamp < now - (30 * 86400 * 1000)).count();
    assert_eq!(count, 0);

    let count = store.events.len();
    assert_eq!(count, 1);

    let count = store.event_statistics.len();
    assert_eq!(count, 1);
}

#[test]
fn old_event_is_summarized_and_deleted() {
    let now_ms = 1_700_000_000_000i64;
    let old = now_ms - 90 * DAY_MS;
    let mut store = Store::new();
    insert_event(&mut store, now_ms, "test", "test_event", "2023_11");
    insert_event(&mut store, old, "test", "test_event", "2023_08");
    store.retention_policies.push(policy("test", 30, Some("event_statistics")));

    let results = run_retention_policies(&mut store, now_ms / 1000, &none());

    assert_eq!(results, vec![RetentionResult::Summarized { summarized: 1, deleted: 1 }]);
    assert_eq!(store.events.len(), 1);
    assert_eq!(store.events[0].id, 1);
    assert_eq!(store.events[0].timestamp, now_ms);
    // 1_692_224_000 s is day 19_585.
    assert_eq!(
        stats_of(&store),
        vec![(19_585, "test".to_string(), "test_event".to_string(), 1, now_ms / 1000)]
    );
}

#[test]
fn without_a_summary_table_events_are_only_deleted() {
    let now_ms = 1_700_000_000_000i64;
    let mut store = Store::new();
    insert_event(&mut store, now_ms, "test", "a", "k");
    insert_event(&mut store, now_ms - 90 * DAY_MS, "test", "a", "k");
    insert_event(&mut store, now_ms - 31 * DAY_MS, "test", "b", "k");
    insert_event(&mut store, now_ms - 90 * DAY_MS, "other", "a", "k");
    store.retention_policies.push(policy("test", 30, None));

    let results = run_retention_policies(&mut store, now_ms / 1000, &none());

    assert_eq!(results, vec![RetentionResult::Deleted(2)]);
    let ids: Vec<i64> = store.events.iter().map(|e| e.id).collect();
    assert_eq!(ids, vec![1, 4]);
    assert!(store.event_statistics.is_empty());
}

#[test]
fn second_run_changes_nothing() {
    let now_ms = 1_700_000_000_000i64;
    let mut store = Store::new();
    for i in 0..10 {
        insert_event(&mut store, now_ms - i * 10 * DAY_MS, "test", "e", "k");
        insert_event(&mut store, now_ms - i * 7 * DAY_MS, "health", "sleep", "k");
    }
    store.retention_policies.push(policy("test", 30, Some("event_statistics")));
    store.retention_policies.push(policy("health", 14, Some("event_statistics_daily")));
    store.retention_policies.push(policy("test", 5, None));

    let first = run_retention_policies(&mut store, now_ms / 1000, &none());
    assert_eq!(
        first,
        vec![
            RetentionResult::Summarized { summarized: 6, deleted: 6 },
            RetentionResult::Summarized { summarized: 7, deleted: 7 },
            RetentionResult::Deleted(3),
        ]
    );
    let events: Vec<i64> = store.events.iter().map(|e| e.id).collect();
    let stats = stats_of(&store);

    let second = run_retention_policies(&mut store, now_ms / 1000, &none());
    assert_eq!(
        second,
        vec![
            RetentionResult::Summarized { summarized: 0, deleted: 0 },
            RetentionResult::Summarized { summarized: 0, deleted: 0 },
            RetentionResult::Deleted(0),
        ]
    );
    assert_eq!(store.events.iter().map(|e| e.id).collect::<Vec<i64>>(), events);
    assert_eq!(stats_of(&store), stats);
}

#[test]
fn statistics_accumulate_and_never_decrease() {
    let day = 19_000i64;
    let base = day * DAY_MS;
    let mut store = Store::new();
    store.event_statistics.push(stat(day, "test", "e", 5, 1));
    store.event_statistics.push(stat(day, "test", "other", 2, 1));
    insert_event(&mut store, base + 1_000, "test", "e", "k");
    insert_event(&mut store, base + 2_000, "test", "e", "k");
    insert_event(&mut store, base + DAY_MS, "test", "e", "k");
    insert_event(&mut store, base + 3_000, "test", "new", "k");

    let cutoff = cutoff_for(2_000_000_000, 0);
    let summarized = summarize_old_data(&mut store, "test", cutoff, "event_statistics", 99, &none());

    assert_eq!(summarized, 3);
    assert_eq!(
        stats_of(&store),
        vec![
            (day, "test".to_string(), "e".to_string(), 7, 99),
            (day, "test".to_string(), "other".to_string(), 2, 1),
            (day + 1, "test".to_string(), "e".to_string(), 1, 99),
            (day, "test".to_string(), "new".to_string(), 1, 99),
        ]
    );
    // Summarizing deletes nothing.
    assert_eq!(store.events.len(), 4);
}

#[test]
fn a_table_that_is_no_statistics_table_is_not_written() {
    let mut store = Store::new();
    insert_event(&mut store, 0, "test", "e", "k");
    let cutoff = cutoff_for(1_000_000, 0);
    assert_eq!(summarize_old_data(&mut store, "test", cutoff, "summaries", 1, &none()), 0);
    assert_eq!(summarize_old_data(&mut store, "test", cutoff, "event_statistic", 1, &none()), 0);
    assert_eq!(summarize_old_data(&mut store, "test", cutoff, "", 1, &none()), 0);
    assert!(store.event_statistics.is_empty());
    assert_eq!(summarize_old_data(&mut store, "test", cutoff, "event_statistics_v2", 1, &none()), 1);
    assert_eq!(store.event_statistics.len(), 1);

    let mut store = Store::new();
    insert_event(&mut store, 0, "test", "e", "k");
    store.retention_policies.push(policy("test", 0, Some("elsewhere")));
    let results = run_retention_policies(&mut store, 1_000_000, &none());
    assert_eq!(results, vec![RetentionResult::Summarized { summarized: 0, deleted: 1 }]);
    assert!(store.event_statistics.is_empty());
    assert!(store.events.is_empty());
}

#[test]
fn prefixes() {
    assert!(has_prefix("event_statistics", "event_statistics"));
    assert!(has_prefix("event_statistics_daily", "event_statistics"));
    assert!(!has_prefix("event_statistic", "event_statistics"));
    assert!(!has_prefix("xevent_statistics", "event_statistics"));
    assert!(has_prefix("anything", ""));
    assert!(has_prefix("", ""));
    assert!(!has_prefix("", "a"));
    assert!(has_prefix("éa", "é"));
    assert!(!has_prefix("ea", "é"));
}

#[test]
fn cutoff_is_whole_days_before_now() {
    assert_eq!(cutoff_for(1_700_000_000, 30), 1_700_000_000 - 30 * 86_400);
    assert_eq!(cutoff_for(1_700_000_000, 0), 1_700_000_000);
    assert_eq!(cutoff_for(0, 1), -86_400);
    assert_eq!(cutoff_for(100, -1), 86_500);
    assert_eq!(cutoff_for(i64::MAX, i64::MIN), i64::MAX as i128 + (1i128 << 63) * 86_400);
    assert_eq!(cutoff_for(i64::MIN, i64::MAX), i64::MIN as i128 - (i64::MAX as i128) * 86_400);
}

#[test]
fn events_age_at_the_cutoff() {
    // The cutoff is in seconds, timestamps are in milliseconds.
    assert!(lies_before(999_999, 1_000));
    assert!(!lies_before(1_000_000, 1_000));
    assert!(!lies_before(1_000_001, 1_000));
    assert!(lies_before(-1, 0));
    assert!(!lies_before(0, 0));
    assert!(lies_before(i64::MAX, i128::MAX));
    assert!(!lies_before(i64::MIN, i128::MIN));
    assert!(lies_before(i64::MAX, 9_223_372_036_854_776));
    assert!(!lies_before(i64::MAX, 9_223_372_036_854_775));
    assert!(!lies_before(i64::MIN, -9_223_372_036_854_776));
    assert!(lies_before(i64::MIN, -9_223_372_036_854_775));

    let mut store = Store::new();
    insert_event(&mut store, 999_999, "test", "e", "k");
    insert_event(&mut store, 1_000_000, "test", "e", "k");
    assert!(has_aged(&store.events[0], "test", 1_000));
    assert!(!has_aged(&store.events[1], "test", 1_000));
    assert!(!has_aged(&store.events[0], "other", 1_000));
    assert!(is_id_of_aged(&store.events, 1, "test", 1_000));
    assert!(!is_id_of_aged(&store.events, 2, "test", 1_000));
    assert!(!is_id_of_aged(&store.events, 3, "test", 1_000));
    assert_eq!(delete_old_records(&mut store, "test", 1_000), 1);
    assert_eq!(store.events.len(), 1);
    assert_eq!(store.events[0].id, 2);
}

#[test]
fn days_since_the_epoch() {
    assert_eq!(day_number(0), 0);
    assert_eq!(day_number(DAY_MS - 1), 0);
    assert_eq!(day_number(DAY_MS), 1);
    assert_eq!(day_number(-1), -1);
    assert_eq!(day_number(-999), -1);
    assert_eq!(day_number(-1_000), -1);
    assert_eq!(day_number(-DAY_MS), -1);
    assert_eq!(day_number(-DAY_MS - 1), -2);
    assert_eq!(day_number(-DAY_MS - 1_000), -2);
    assert_eq!(day_number(1_431_648_000_000), 16_570);
    assert_eq!(day_number(i64::MAX), 106_751_991_167);
    assert_eq!(day_number(i64::MIN), -106_751_991_168);
}

#[test]
fn counts_saturate() {
    assert_eq!(add_counts(1, 2), 3);
    assert_eq!(add_counts(-5, 2), -3);
    assert_eq!(add_counts(i64::MAX, 1), i64::MAX);
    assert_eq!(add_counts(i64::MAX - 1, 1), i64::MAX);
    assert_eq!(add_counts(i64::MIN, -1), i64::MIN);
    let mut stats = vec![stat(1, "s", "t", i64::MAX, 0)];
    upsert_statistic(&mut stats, stat(1, "s", "t", 3, 9));
    assert_eq!(stats[0].count, i64::MAX);
    assert_eq!(stats[0].updated_at, 9);
}

#[test]
fn upsert_adds_to_the_first_row_of_the_group_or_appends() {
    let mut stats = vec![stat(1, "s", "t", 1, 0), stat(2, "s", "t", 1, 0), stat(1, "s", "u", 1, 0)];
    upsert_statistic(&mut stats, stat(2, "s", "t", 4, 7));
    upsert_statistic(&mut stats, stat(1, "x", "t", 2, 8));
    let rows: Vec<(i64, &str, &str, i64, i64)> = stats
        .iter()
        .map(|s| (s.day, s.source.as_str(), s.event_type.as_str(), s.count, s.updated_at))
        .collect();
    assert_eq!(
        rows,
        vec![(1, "s", "t", 1, 0), (2, "s", "t", 5, 7), (1, "s", "u", 1, 0), (1, "x", "t", 2, 8)]
    );
}

#[test]
fn groups_stand_in_the_order_of_their_first_events() {
    let mut store = Store::new();
    insert_event(&mut store, 2 * DAY_MS, "s", "b", "k");
    insert_event(&mut store, 0, "s", "a", "k");
    insert_event(&mut store, 2 * DAY_MS + 5, "s", "b", "k");
    insert_event(&mut store, 10, "other", "a", "k");
    insert_event(&mut store, 20, "s", "a", "k");
    insert_event(&mut store, 9 * DAY_MS, "s", "a", "k");
    let groups = group_aged_events(&store.events, "s", 5 * 86_400, 42, &none());
    let rows: Vec<(i64, &str, i64, i64)> =
        groups.iter().map(|g| (g.day, g.event_type.as_str(), g.count, g.updated_at)).collect();
    assert_eq!(rows, vec![(2, "b", 2, 42), (0, "a", 2, 42)]);
}

#[test]
fn applying_a_policy() {
    let mut store = Store::new();
    insert_event(&mut store, 0, "s", "a", "k");
    insert_event(&mut store, 5_000_000, "s", "a", "k");
    assert_eq!(
        apply_retention_policy(&mut store, "s", 1_000, Some("event_statistics"), 7, &none()),
        RetentionResult::Summarized { summarized: 1, deleted: 1 }
    );
    assert_eq!(apply_retention_policy(&mut store, "s", 10_000, None, 8, &none()), RetentionResult::Deleted(1));
    assert!(store.events.is_empty());
    assert_eq!(stats_of(&store), vec![(0, "s".to_string(), "a".to_string(), 1, 7)]);
}

fn detail(event_id: i64) -> DetailRow {
    DetailRow { event_id, start_time: 0, end_time: 0, details: JsonValue::Null }
}

#[test]
fn steps_of_a_policy() {
    let steps = retention_steps(&policy("app", 30, None), 1_700_000_000);
    assert_eq!(steps.len(), 1);
    assert!(matches!(
        &steps[0],
        RetentionStep::DeleteEvents { source, cutoff } if source == "app" && *cutoff == 1_697_408_000
    ));

    let steps = retention_steps(&policy("app", 1, Some("event_statistics")), 86_400);
    assert_eq!(steps.len(), 2);
    assert!(matches!(
        &steps[0],
        RetentionStep::Summarize { source, cutoff: 0, updated_at: 86_400 } if source == "app"
    ));
    assert!(matches!(&steps[1], RetentionStep::DeleteEvents { cutoff: 0, .. }));

    let steps = retention_steps(&policy("app", 1, Some("elsewhere")), 86_400);
    assert_eq!(steps.len(), 1);

    let steps = retention_steps(&policy("health", 1, None), 86_400);
    assert_eq!(steps.len(), 4);
    assert!(matches!(
        &steps[0],
        RetentionStep::DeleteDetails { table: DetailTable::HealthMetrics, .. }
    ));
    assert!(matches!(&steps[1], RetentionStep::DeleteDetails { table: DetailTable::Workouts, .. }));
    assert!(matches!(
        &steps[2],
        RetentionStep::DeleteDetails { table: DetailTable::SleepSessions, .. }
    ));
    assert!(matches!(&steps[3], RetentionStep::DeleteEvents { .. }));
}

#[test]
fn steps_do_what_the_policy_does() {
    let build = || {
        let mut store = Store::new();
        insert_event(&mut store, 0, "health", "sleep", "k");
        insert_event(&mut store, 1_000, "health", "workout", "k");
        insert_event(&mut store, 90 * DAY_MS, "health", "sleep", "k");
        insert_event(&mut store, 5, "app", "click", "k");
        store.sleep_sessions.push(detail(1));
        store.workouts.push(detail(2));
        store.sleep_sessions.push(detail(3));
        store.health_metrics.push(detail(3));
        store
    };
    let p = policy("health", 30, Some("event_statistics"));
    let now = 100 * 86_400;

    let mut by_steps = build();
    let mut rows = Vec::new();
    for step in retention_steps(&p, now).iter() {
        rows.push(apply_step(&mut by_steps, step, &none()));
    }
    assert_eq!(rows, vec![2, 0, 1, 1, 2]);

    let mut at_once = build();
    at_once.retention_policies.push(p);
    let results = run_retention_policies(&mut at_once, now, &none());
    assert_eq!(results, vec![RetentionResult::Summarized { summarized: 2, deleted: 2 }]);

    let ids = |s: &Store| s.events.iter().map(|e| e.id).collect::<Vec<i64>>();
    assert_eq!(ids(&by_steps), vec![3, 4]);
    assert_eq!(ids(&by_steps), ids(&at_once));
    assert_eq!(stats_of(&by_steps), stats_of(&at_once));
    assert_eq!(by_steps.sleep_sessions.len(), 1);
    assert_eq!(by_steps.sleep_sessions[0].event_id, 3);
    assert!(by_steps.workouts.is_empty());
    assert_eq!(by_steps.health_metrics.len(), 1);
    assert_eq!(at_once.sleep_sessions.len(), 1);
    assert!(at_once.workouts.is_empty());
    assert_eq!(at_once.health_metrics.len(), 1);
}

#[test]
fn policies_are_applied_in_order() {
    let mut store = Store::new();
    insert_event(&mut store, 0, "a", "e", "k");
    insert_event(&mut store, 0, "b", "e", "k");
    insert_event(&mut store, 50 * DAY_MS, "a", "e", "k");
    store.retention_policies.push(policy("b", 1, None));
    store.retention_policies.push(policy("a", 60, None));
    store.retention_policies.push(policy("a", 10, Some("event_statistics")));
    store.retention_policies.push(policy("c", 10, None));
    let results = run_retention_policies(&mut store, 100 * 86_400, &none());
    assert_eq!(
        results,
        vec![
            RetentionResult::Deleted(1),
            RetentionResult::Deleted(1),
            RetentionResult::Summarized { summarized: 1, deleted: 1 },
            RetentionResult::Deleted(0),
        ]
    );
    assert!(store.events.is_empty());
    assert_eq!(store.retention_policies.len(), 4);
    assert_eq!(stats_of(&store), vec![(50, "a".to_string(), "e".to_string(), 1, 100 * 86_400)]);
}

#[test]
fn no_policies_no_changes() {
    let mut store = Store::new();
    insert_event(&mut store, 0, "a", "e", "k");
    assert!(run_retention_policies(&mut store, i64::MAX, &none()).is_empty());
    assert_eq!(store.events.len(), 1);
}

#[test]
fn days_before_the_epoch_are_negative() {
    let mut store = Store::new();
    insert_event(&mut store, -1, "s", "e", "k");
    insert_event(&mut store, 0, "s", "e", "k");
    let groups = group_aged_events(&store.events, "s", 10, 1, &none());
    let rows: Vec<(i64, i64)> = groups.iter().map(|g| (g.day, g.count)).collect();
    assert_eq!(rows, vec![(-1, 1), (0, 1)]);
}

#[test]
fn the_bound_in_milliseconds() {
    assert_eq!(cutoff_millis(0), 0);
    assert_eq!(cutoff_millis(1), 1_000);
    assert_eq!(cutoff_millis(-1), -1_000);
    assert_eq!(cutoff_millis(9_223_372_036_854_775), 9_223_372_036_854_775_000);
    assert_eq!(cutoff_millis(9_223_372_036_854_776), i64::MAX);
    assert_eq!(cutoff_millis(-9_223_372_036_854_776), i64::MIN);
    assert_eq!(cutoff_millis(i128::MAX), i64::MAX);
    assert_eq!(cutoff_millis(i128::MIN), i64::MIN);
}

#[test]
fn metadata_of_a_group_come_from_its_aggregate() {
    let given = vec![
        aggregate(1, "s", "a", obj(vec![("avg_duration", num("2.5")), ("total_count", num("7"))])),
        aggregate(2, "s", "a", obj(vec![("total_count", num("1")), ("extra", num("9"))])),
        aggregate(1, "s", "a", obj(vec![("avg_duration", num("0"))])),
        aggregate(3, "s", "a", num("5")),
    ];
    assert_eq!(
        group_metadata_of(&given, 1, "s", "a"),
        obj(vec![("avg_duration", num("2.5")), ("total_count", num("7"))])
    );
    assert_eq!(
        group_metadata_of(&given, 2, "s", "a"),
        obj(vec![("total_count", num("1")), ("extra", num("9")), ("avg_duration", JsonValue::Null)])
    );
    assert_eq!(group_metadata_of(&given, 3, "s", "a"), nothing());
    assert_eq!(group_metadata_of(&given, 1, "s", "b"), nothing());
    assert_eq!(group_metadata_of(&given, 1, "t", "a"), nothing());
    assert_eq!(group_metadata_of(&none(), 1, "s", "a"), nothing());
    assert_eq!(summary_metadata_of(&JsonValue::Null), nothing());
    assert_eq!(summary_metadata_of(&obj(vec![])), nothing());
    assert_eq!(
        summary_metadata_of(&obj(vec![("total_count", num("3"))])),
        obj(vec![("total_count", num("3")), ("avg_duration", JsonValue::Null)])
    );
}

#[test]
fn later_members_win_in_a_shallow_merge() {
    let earlier = obj(vec![
        ("avg_duration", num("2")),
        ("total_count", num("10")),
        ("nested", obj(vec![("a", num("1")), ("b", num("2"))])),
    ]);
    let later = obj(vec![
        ("total_count", num("4")),
        ("nested", obj(vec![("a", num("3"))])),
        ("new", JsonValue::Bool(true)),
    ]);
    assert_eq!(
        merge_documents(&earlier, &later),
        obj(vec![
            ("avg_duration", num("2")),
            ("total_count", num("4")),
            ("nested", obj(vec![("a", num("3"))])),
            ("new", JsonValue::Bool(true)),
        ])
    );
    assert_eq!(merge_documents(&earlier, &obj(vec![])), earlier);
    assert_eq!(merge_documents(&obj(vec![]), &later), later);
    assert_eq!(merge_documents(&earlier, &num("1")), num("1"));
    assert_eq!(merge_documents(&num("1"), &later), later);
    assert_eq!(
        merge_documents(&obj(vec![("a", num("1"))]), &obj(vec![("a", JsonValue::Null)])),
        obj(vec![("a", JsonValue::Null)])
    );
}

#[test]
fn summarizing_writes_and_merges_the_metadata() {
    let day = 19_000i64;
    let base = day * DAY_MS;
    let mut store = Store::new();
    let mut existing = stat(day, "test", "e", 5, 1);
    existing.metadata =
        obj(vec![("avg_duration", num("10")), ("total_count", num("50")), ("note", num("1"))]);
    store.event_statistics.push(existing);
    insert_event(&mut store, base + 1_000, "test", "e", "k");
    insert_event(&mut store, base + 2_000, "test", "e", "k");
    insert_event(&mut store, base + 3_000, "test", "new", "k");
    insert_event(&mut store, base + 4_000, "test", "bare", "k");
    let given = vec![
        aggregate(day, "test", "e", obj(vec![("avg_duration", num("1.5")), ("total_count", num("3"))])),
        aggregate(day, "test", "new", obj(vec![("avg_duration", num("7")), ("total_count", num("2"))])),
    ];

    let cutoff = cutoff_for(2_000_000_000, 0);
    let summarized = summarize_old_data(&mut store, "test", cutoff, "event_statistics", 99, &given);

    assert_eq!(summarized, 3);
    assert_eq!(store.event_statistics.len(), 3);
    let e = &store.event_statistics[0];
    assert_eq!((e.count, e.updated_at), (7, 99));
    assert_eq!(
        e.metadata,
        obj(vec![("avg_duration", num("1.5")), ("total_count", num("3")), ("note", num("1"))])
    );
    let new = &store.event_statistics[1];
    assert_eq!((new.event_type.as_str(), new.count), ("new", 1));
    assert_eq!(new.metadata, obj(vec![("avg_duration", num("7")), ("total_count", num("2"))]));
    let bare = &store.event_statistics[2];
    assert_eq!((bare.event_type.as_str(), bare.count), ("bare", 1));
    assert_eq!(bare.metadata, nothing());
}

#[test]
fn counting_an_event_leaves_the_metadata_of_its_group() {
    let mut groups = Vec::new();
    let mut first = stat(1, "s", "t", 1, 5);
    first.metadata = obj(vec![("avg_duration", num("3")), ("total_count", num("4"))]);
    count_event(&mut groups, first.clone());
    count_event(&mut groups, stat(1, "s", "t", 1, 6));
    count_event(&mut groups, stat(2, "s", "t", 1, 6));
    assert_eq!(groups.len(), 2);
    assert_eq!((groups[0].count, groups[0].updated_at), (2, 5));
    assert_eq!(groups[0].metadata, first.metadata);
    assert_eq!((groups[1].day, groups[1].count), (2, 1));
}
