use arch_manwarn::cache::{
    absorb_candidates, check_new_entries, days_to_seconds, feed_contact, find_title,
    get_cache_path, load_cache,
    prune, reconcile, CacheFile, CachedEntry, FeedContact, Reconciliation, CACHE_VERSION,
    SECONDS_PER_DAY,
};
use arch_manwarn::config::Config;
use arch_manwarn::rss::{ManualInterventionResult, NewsEntry};

const DAY: u64 = 86400;

fn news(title: &str) -> NewsEntry {
    NewsEntry {
        title: title.to_string(),
        summary: format!("summary of {title}"),
        link: format!("https://example.org/{title}"),
    }
}

fn cached(title: &str, first_seen: u64, last_seen: u64) -> CachedEntry {
    CachedEntry {
        title: title.to_string(),
        summary: format!("summary of {title}"),
        link: format!("https://example.org/{title}"),
        first_seen,
        last_seen,
    }
}

fn titles(entries: &[CachedEntry]) -> Vec<String> {
    entries.iter().map(|e| e.title.clone()).collect()
}

fn stamps(entries: &[CachedEntry]) -> Vec<(String, u64, u64)> {
    entries
        .iter()
        .map(|e| (e.title.clone(), e.first_seen, e.last_seen))
        .collect()
}

fn cache_of(entries: Vec<CachedEntry>) -> CacheFile {
    CacheFile {
        entries,
        cache_version: CACHE_VERSION,
        last_successful_request: None,
    }
}

fn run(
    candidates: &[&str],
    now: u64,
    force: bool,
    auto: bool,
    existing: CacheFile,
    first_run: bool,
) -> Reconciliation {
    reconcile(
        candidates.iter().map(|t| news(t)).collect(),
        true,
        now,
        force,
        auto,
        30 * DAY,
        60 * DAY,
        existing,
        first_run,
    )
}

#[test]
fn default_cache_is_empty_with_current_version() {
    let cache = CacheFile::default();
    assert!(cache.entries.is_empty());
    assert_eq!(cache.cache_version, 1);
    assert_eq!(cache.last_successful_request, None);
    assert_eq!(CACHE_VERSION, 1);
    assert_eq!(SECONDS_PER_DAY, 86400);
}

#[test]
fn load_cache_falls_back_to_the_empty_record() {
    let cache = load_cache(None);
    assert!(cache.entries.is_empty());
    assert_eq!(cache.cache_version, CACHE_VERSION);
    assert_eq!(cache.last_successful_request, None);

    let stored = CacheFile {
        entries: vec![cached("A", 1, 2)],
        cache_version: 7,
        last_successful_request: Some(9),
    };
    let cache = load_cache(Some(stored));
    assert_eq!(stamps(&cache.entries), vec![("A".to_string(), 1, 2)]);
    assert_eq!(cache.cache_version, 7);
    assert_eq!(cache.last_successful_request, Some(9));
}

#[test]
fn first_run_reports_nothing_and_records_the_baseline() {
    let first = run(&["A", "B", "C"], 0, false, true, CacheFile::default(), true);
    assert!(first.new_entries.is_empty());
    assert!(first.changed);
    assert_eq!(titles(&first.updated_cache.entries), vec!["A", "B", "C"]);

    let second = run(&["A", "B", "C", "D"], 100, false, true, first.updated_cache, false);
    assert_eq!(stamps(&second.new_entries), vec![("D".to_string(), 100, 100)]);
    assert_eq!(
        stamps(&second.updated_cache.entries),
        vec![
            ("A".to_string(), 0, 100),
            ("B".to_string(), 0, 100),
            ("C".to_string(), 0, 100),
            ("D".to_string(), 100, 100),
        ]
    );
    assert!(second.changed);
}

#[test]
fn new_entry_carries_the_candidate() {
    let outcome = run(&["A"], 42, false, true, CacheFile::default(), false);
    assert_eq!(outcome.new_entries.len(), 1);
    let entry = &outcome.new_entries[0];
    assert_eq!(entry.title, "A");
    assert_eq!(entry.summary, "summary of A");
    assert_eq!(entry.link, "https://example.org/A");
    assert_eq!(entry.first_seen, 42);
    assert_eq!(entry.last_seen, 42);
    let kept = &outcome.updated_cache.entries[0];
    assert_eq!(kept.summary, "summary of A");
    assert_eq!(kept.link, "https://example.org/A");
}

#[test]
fn reconciling_twice_changes_nothing_the_second_time() {
    let existing = cache_of(vec![cached("A", 10, 20), cached("Z", 5, 6)]);
    let first = run(&["A", "B"], 1000, false, true, existing, false);
    assert_eq!(titles(&first.new_entries), vec!["B"]);
    let after_first = stamps(&first.updated_cache.entries);
    let last_first = first.updated_cache.last_successful_request;

    let second = run(&["A", "B"], 1000, false, true, first.updated_cache, false);
    assert!(second.new_entries.is_empty());
    assert_eq!(stamps(&second.updated_cache.entries), after_first);
    assert_eq!(second.updated_cache.last_successful_request, last_first);
    assert_eq!(second.updated_cache.cache_version, CACHE_VERSION);
}

#[test]
fn timestamps_stay_ordered() {
    let existing = cache_of(vec![cached("A", 10, 20), cached("B", 30, 30)]);
    let outcome = run(&["A", "C"], 50, false, true, existing, false);
    for entry in outcome.updated_cache.entries.iter().chain(outcome.new_entries.iter()) {
        assert!(entry.first_seen <= entry.last_seen);
    }
    assert_eq!(
        stamps(&outcome.updated_cache.entries),
        vec![
            ("A".to_string(), 10, 50),
            ("B".to_string(), 30, 30),
            ("C".to_string(), 50, 50),
        ]
    );
}

#[test]
fn clock_behind_first_sighting_breaks_the_order() {
    let existing = cache_of(vec![cached("A", 100, 100)]);
    let outcome = run(&["A"], 50, false, true, existing, false);
    assert_eq!(
        stamps(&outcome.updated_cache.entries),
        vec![("A".to_string(), 100, 50)]
    );
}

#[test]
fn pruning_needs_both_thresholds() {
    let now = 1000 * DAY;
    let existing = cache_of(vec![
        cached("old and gone", now - 90 * DAY, now - 40 * DAY),
        cached("young and gone", now - 10 * DAY, now - 40 * DAY),
        cached("old and here", now - 90 * DAY, now - 5 * DAY),
    ]);
    let outcome = run(&[], now, false, true, existing, false);
    assert_eq!(
        titles(&outcome.updated_cache.entries),
        vec!["young and gone", "old and here"]
    );
    assert!(outcome.changed);
    assert!(outcome.new_entries.is_empty());
}

#[test]
fn pruning_thresholds_are_strict() {
    let now = 1000 * DAY;
    let kept = prune(
        &vec![
            cached("at both", now - 60 * DAY, now - 30 * DAY),
            cached("just past both", now - 60 * DAY - 1, now - 30 * DAY - 1),
            cached("past missing only", now - 60 * DAY, now - 30 * DAY - 1),
        ],
        now - 30 * DAY,
        now - 60 * DAY,
    );
    assert_eq!(titles(&kept), vec!["at both", "past missing only"]);
}

#[test]
fn thresholds_stop_at_the_epoch() {
    let existing = cache_of(vec![cached("A", 0, 0)]);
    let outcome = reconcile(vec![], false, 10, false, true, 30 * DAY, 60 * DAY, existing, false);
    assert_eq!(titles(&outcome.updated_cache.entries), vec!["A"]);
    assert!(!outcome.changed);
}

#[test]
fn nothing_to_do_leaves_the_record_unchanged() {
    let existing = CacheFile {
        entries: vec![cached("A", 10, 20)],
        cache_version: CACHE_VERSION,
        last_successful_request: Some(15),
    };
    let outcome = reconcile(vec![], false, 100, false, true, 30 * DAY, 60 * DAY, existing, false);
    assert!(!outcome.changed);
    assert!(outcome.new_entries.is_empty());
    assert_eq!(stamps(&outcome.updated_cache.entries), vec![("A".to_string(), 10, 20)]);
    assert_eq!(outcome.updated_cache.last_successful_request, Some(15));
}

#[test]
fn successful_fetch_is_recorded() {
    let existing = CacheFile {
        entries: vec![],
        cache_version: CACHE_VERSION,
        last_successful_request: Some(15),
    };
    let outcome = reconcile(vec![], true, 100, false, true, 30 * DAY, 60 * DAY, existing, false);
    assert_eq!(outcome.updated_cache.last_successful_request, Some(100));
    assert!(outcome.changed);
}

#[test]
fn first_successful_fetch_is_written_out() {
    let outcome = reconcile(
        vec![],
        true,
        100,
        false,
        true,
        30 * DAY,
        60 * DAY,
        CacheFile::default(),
        false,
    );
    assert_eq!(outcome.updated_cache.last_successful_request, Some(100));
    assert!(outcome.changed);
    assert!(outcome.new_entries.is_empty());
    assert!(outcome.updated_cache.entries.is_empty());
}

#[test]
fn fetch_at_the_recorded_time_changes_nothing() {
    let existing = CacheFile {
        entries: vec![cached("A", 10, 20)],
        cache_version: CACHE_VERSION,
        last_successful_request: Some(100),
    };
    let outcome = reconcile(vec![], true, 100, false, true, 30 * DAY, 60 * DAY, existing, false);
    assert_eq!(outcome.updated_cache.last_successful_request, Some(100));
    assert!(!outcome.changed);
    assert_eq!(stamps(&outcome.updated_cache.entries), vec![("A".to_string(), 10, 20)]);
}

#[test]
fn first_run_without_candidates_writes_the_baseline() {
    let outcome = reconcile(
        vec![],
        false,
        100,
        false,
        true,
        30 * DAY,
        60 * DAY,
        CacheFile::default(),
        true,
    );
    assert!(outcome.changed);
    assert!(outcome.new_entries.is_empty());
    assert!(outcome.updated_cache.entries.is_empty());
    assert_eq!(outcome.updated_cache.cache_version, CACHE_VERSION);
    assert_eq!(outcome.updated_cache.last_successful_request, None);

    let second = run(&["A"], 200, false, true, outcome.updated_cache, false);
    assert_eq!(titles(&second.new_entries), vec!["A"]);
}

#[test]
fn deferred_entries_are_reported_until_marked() {
    let first = run(&["A"], 10, false, false, CacheFile::default(), false);
    assert_eq!(titles(&first.new_entries), vec!["A"]);
    assert!(first.updated_cache.entries.is_empty());
    assert!(first.changed);

    let second = run(&["A"], 20, false, false, first.updated_cache, false);
    assert_eq!(stamps(&second.new_entries), vec![("A".to_string(), 20, 20)]);
    assert!(second.updated_cache.entries.is_empty());

    let third = run(&["A"], 30, true, false, second.updated_cache, false);
    assert_eq!(stamps(&third.new_entries), vec![("A".to_string(), 30, 30)]);
    assert_eq!(
        stamps(&third.updated_cache.entries),
        vec![("A".to_string(), 30, 30)]
    );

    let fourth = run(&["A"], 40, false, false, third.updated_cache, false);
    assert!(fourth.new_entries.is_empty());
    assert_eq!(
        stamps(&fourth.updated_cache.entries),
        vec![("A".to_string(), 30, 40)]
    );
}

#[test]
fn deferred_duplicates_are_each_reported() {
    let outcome = run(&["A", "A"], 10, false, false, CacheFile::default(), false);
    assert_eq!(titles(&outcome.new_entries), vec!["A", "A"]);
    let outcome = run(&["A", "A"], 10, false, true, CacheFile::default(), false);
    assert_eq!(titles(&outcome.new_entries), vec!["A"]);
    assert_eq!(titles(&outcome.updated_cache.entries), vec!["A"]);
}

#[test]
fn version_mismatch_resets_the_record() {
    let existing = CacheFile {
        entries: vec![cached("A", 10, 20), cached("B", 10, 20)],
        cache_version: 0,
        last_successful_request: Some(15),
    };
    let outcome = reconcile(
        vec![news("A"), news("C")],
        false,
        100,
        false,
        true,
        30 * DAY,
        60 * DAY,
        existing,
        false,
    );
    assert!(outcome.new_entries.is_empty());
    assert!(outcome.changed);
    assert_eq!(outcome.updated_cache.cache_version, 1);
    assert_eq!(outcome.updated_cache.last_successful_request, None);
    assert_eq!(
        stamps(&outcome.updated_cache.entries),
        vec![("A".to_string(), 100, 100), ("C".to_string(), 100, 100)]
    );
}

#[test]
fn version_mismatch_without_candidates_still_changes_the_record() {
    let existing = CacheFile {
        entries: vec![cached("A", 10, 20)],
        cache_version: 2,
        last_successful_request: None,
    };
    let outcome = reconcile(vec![], false, 100, false, true, 30 * DAY, 60 * DAY, existing, false);
    assert!(outcome.changed);
    assert!(outcome.updated_cache.entries.is_empty());
    assert_eq!(outcome.updated_cache.cache_version, CACHE_VERSION);
}

#[test]
fn only_the_first_of_equal_titles_is_refreshed() {
    let existing = cache_of(vec![cached("A", 1, 2), cached("A", 3, 4)]);
    let outcome = run(&["A"], 10, false, true, existing, false);
    assert_eq!(
        stamps(&outcome.updated_cache.entries),
        vec![("A".to_string(), 1, 10), ("A".to_string(), 3, 4)]
    );
}

#[test]
fn find_title_gives_the_first_index() {
    let entries = vec![cached("A", 1, 2), cached("B", 1, 2), cached("B", 3, 4)];
    assert_eq!(find_title(&entries, &"A".to_string()), Some(0));
    assert_eq!(find_title(&entries, &"B".to_string()), Some(1));
    assert_eq!(find_title(&entries, &"b".to_string()), None);
    assert_eq!(find_title(&vec![], &"A".to_string()), None);
}

#[test]
fn absorb_candidates_splits_known_from_new() {
    let mut entries = vec![cached("A", 1, 2)];
    let fresh = absorb_candidates(&mut entries, &vec![news("B"), news("A")], 9, true);
    assert_eq!(stamps(&fresh), vec![("B".to_string(), 9, 9)]);
    assert_eq!(
        stamps(&entries),
        vec![("A".to_string(), 1, 9), ("B".to_string(), 9, 9)]
    );

    let mut entries = vec![cached("A", 1, 2)];
    let fresh = absorb_candidates(&mut entries, &vec![news("B"), news("A")], 9, false);
    assert_eq!(stamps(&fresh), vec![("B".to_string(), 9, 9)]);
    assert_eq!(stamps(&entries), vec![("A".to_string(), 1, 9)]);
}

#[test]
fn days_become_seconds() {
    assert_eq!(days_to_seconds(0), 0);
    assert_eq!(days_to_seconds(1), 86400);
    assert_eq!(days_to_seconds(30), 2_592_000);
    assert_eq!(days_to_seconds(60), 5_184_000);
    assert_eq!(days_to_seconds(u64::MAX / 86400), (u64::MAX / 86400) * 86400);
    assert_eq!(days_to_seconds(u64::MAX / 86400 + 1), u64::MAX);
    assert_eq!(days_to_seconds(u64::MAX), u64::MAX);
}

#[test]
fn feed_contact_tells_recent_from_stale() {
    assert_eq!(feed_contact(true, None, 100), FeedContact::Recent);
    assert_eq!(feed_contact(true, Some(0), 10 * DAY), FeedContact::Recent);
    assert_eq!(feed_contact(false, None, 100), FeedContact::Never);
    assert_eq!(feed_contact(false, Some(100), 100 + DAY), FeedContact::Recent);
    assert_eq!(
        feed_contact(false, Some(100), 101 + DAY),
        FeedContact::Stale { seconds: DAY + 1 }
    );
    assert_eq!(feed_contact(false, Some(200), 100), FeedContact::Recent);
}

#[test]
fn check_new_entries_follows_the_settings() {
    let now = 1000 * DAY;
    let config = Config {
        mark_as_read_automatically: false,
        prune_missing_days: 30,
        prune_age_days: 60,
        ..Default::default()
    };
    let existing = cache_of(vec![
        cached("old and gone", now - 90 * DAY, now - 40 * DAY),
        cached("known", now - 90 * DAY, now - DAY),
    ]);
    let result = ManualInterventionResult {
        entries: vec![news("known"), news("fresh")],
        last_successful_request: Some(now - 3),
    };
    let (contact, outcome) = check_new_entries(result, existing, false, now, &config, false);
    assert_eq!(contact, FeedContact::Recent);
    assert_eq!(stamps(&outcome.new_entries), vec![("fresh".to_string(), now, now)]);
    assert_eq!(
        stamps(&outcome.updated_cache.entries),
        vec![("known".to_string(), now - 90 * DAY, now)]
    );
    assert_eq!(outcome.updated_cache.last_successful_request, Some(now));
    assert!(outcome.changed);

    let result = ManualInterventionResult {
        entries: vec![news("fresh")],
        last_successful_request: None,
    };
    let (contact, outcome) =
        check_new_entries(result, outcome.updated_cache, false, now + 2 * DAY, &config, true);
    assert_eq!(contact, FeedContact::Stale { seconds: 2 * DAY });
    assert_eq!(titles(&outcome.new_entries), vec!["fresh"]);
    assert_eq!(titles(&outcome.updated_cache.entries), vec!["known", "fresh"]);
    assert_eq!(outcome.updated_cache.last_successful_request, Some(now));
}

#[test]
fn check_new_entries_on_first_run() {
    let config = Config::default();
    let result = ManualInterventionResult {
        entries: vec![news("A")],
        last_successful_request: Some(5),
    };
    let (contact, outcome) = check_new_entries(result, CacheFile::default(), true, 7, &config, false);
    assert_eq!(contact, FeedContact::Recent);
    assert!(outcome.new_entries.is_empty());
    assert_eq!(stamps(&outcome.updated_cache.entries), vec![("A".to_string(), 7, 7)]);
    assert!(outcome.changed);
}

#[test]
fn cached_entry_clone_keeps_every_field() {
    let entry = cached("A", 3, 4);
    let copy = entry.clone();
    assert_eq!(copy.title, entry.title);
    assert_eq!(copy.summary, entry.summary);
    assert_eq!(copy.link, entry.link);
    assert_eq!(copy.first_seen, 3);
    assert_eq!(copy.last_seen, 4);
}

#[test]
fn cache_path_comes_from_the_settings_unless_overridden() {
    let config = Config::default();
    assert_eq!(get_cache_path(&config, None), "/var/cache/arch-manwarn.json");
    assert_eq!(
        get_cache_path(&config, Some("/tmp/dev.json".to_string())),
        "/tmp/dev.json"
    );
}

#[test]
fn check_new_entries_tells_when_the_feeds_were_never_read() {
    let config = Config::default();
    let result = ManualInterventionResult {
        entries: vec![],
        last_successful_request: None,
    };
    let (contact, outcome) = check_new_entries(result, CacheFile::default(), true, 7, &config, false);
    assert_eq!(contact, FeedContact::Never);
    assert!(outcome.changed);
    assert_eq!(outcome.updated_cache.last_successful_request, None);

    let stale = CacheFile {
        entries: vec![],
        cache_version: 0,
        last_successful_request: Some(6),
    };
    let result = ManualInterventionResult {
        entries: vec![],
        last_successful_request: None,
    };
    let (contact, outcome) = check_new_entries(result, stale, false, 7, &config, false);
    assert_eq!(contact, FeedContact::Never);
    assert!(outcome.changed);
}
