//! The record of entries already seen, and how one run changes it.

use vstd::prelude::*;
use crate::cache_lemmas::{lemma_timestamps_stay_ordered, lemma_titles_stay_distinct};
use crate::config::Config;
use crate::rss::{news_views, ManualInterventionResult, NewsEntry, NewsEntryView};
use std::time::{Duration, SystemTime, UNIX_EPOCH};

verus! {

/// The layout version of the record that this library reads and writes.
pub const CACHE_VERSION: u32 = 1;

/// The length of a day in seconds.
pub const SECONDS_PER_DAY: u64 = 86400;

/// An entry that was reported once, with the times of its first and its
/// latest appearance in the feed, in seconds since the epoch.
#[derive(Debug)]
pub struct CachedEntry {
    pub title: String,
    pub summary: String,
    pub link: String,
    pub first_seen: u64,
    pub last_seen: u64,
}

/// What a `CachedEntry` holds, as plain text and numbers.
pub struct CachedEntryView {
    pub title: Seq<char>,
    pub summary: Seq<char>,
    pub link: Seq<char>,
    pub first_seen: u64,
    pub last_seen: u64,
}

impl View for CachedEntry {
    type V = CachedEntryView;

    open spec fn view(&self) -> CachedEntryView {
        CachedEntryView {
            title: self.title@,
            summary: self.summary@,
            link: self.link@,
            first_seen: self.first_seen,
            last_seen: self.last_seen,
        }
    }
}

impl Clone for CachedEntry {
    fn clone(&self) -> (copy: Self)
        ensures
            copy@ == self@,
    {
        CachedEntry {
            title: self.title.clone(),
            summary: self.summary.clone(),
            link: self.link.clone(),
            first_seen: self.first_seen,
            last_seen: self.last_seen,
        }
    }
}

/// The views of a list of recorded entries, in order.
pub open spec fn entry_views(entries: Seq<CachedEntry>) -> Seq<CachedEntryView> {
    Seq::new(entries.len(), |i: int| entries[i]@)
}

/// The record kept between runs.
#[derive(Debug)]
pub struct CacheFile {
    pub entries: Vec<CachedEntry>,
    pub cache_version: u32,
    /// When a reading of the feeds last brought at least one entry, in seconds
    /// since the epoch; `None` if none ever did.
    pub last_successful_request: Option<u64>,
}

/// What a `CacheFile` holds.
pub struct CacheFileView {
    pub entries: Seq<CachedEntryView>,
    pub cache_version: u32,
    pub last_successful_request: Option<u64>,
}

impl View for CacheFile {
    type V = CacheFileView;

    open spec fn view(&self) -> CacheFileView {
        CacheFileView {
            entries: entry_views(self.entries@),
            cache_version: self.cache_version,
            last_successful_request: self.last_successful_request,
        }
    }
}

/// The record of an installation that has seen nothing yet.
pub open spec fn empty_cache() -> CacheFileView {
    CacheFileView {
        entries: Seq::empty(),
        cache_version: CACHE_VERSION,
        last_successful_request: None,
    }
}

impl Default for CacheFile {
    fn default() -> (cache: Self)
        ensures
            cache@ == empty_cache(),
            well_timed(cache@.entries),
            distinct_titles(cache@.entries),
    {
        let cache = CacheFile {
            entries: Vec::new(),
            cache_version: CACHE_VERSION,
            last_successful_request: None,
        };
        assert(cache@.entries =~= Seq::empty());
        cache
    }
}

/// Some entry of `entries` bears `title`.
pub open spec fn knows_title(entries: Seq<CachedEntryView>, title: Seq<char>) -> bool {
    exists|i: int| 0 <= i < entries.len() && entries[i].title == title
}

/// `at` is the index of the first entry of `entries` that bears `title`.
pub open spec fn is_first_with_title(
    entries: Seq<CachedEntryView>,
    title: Seq<char>,
    at: int,
) -> bool {
    &&& 0 <= at < entries.len()
    &&& entries[at].title == title
    &&& forall|j: int| 0 <= j < at ==> entries[j].title != title
}

/// `entries` after `title` has shown up in the feed at time `now`: the first
/// entry that bears the title is last seen at `now`, the others are as before.
pub open spec fn seen_again(
    entries: Seq<CachedEntryView>,
    title: Seq<char>,
    now: u64,
) -> Seq<CachedEntryView> {
    Seq::new(
        entries.len(),
        |i: int|
            if is_first_with_title(entries, title, i) {
                CachedEntryView { last_seen: now, ..entries[i] }
            } else {
                entries[i]
            },
    )
}

/// No entry was last seen before it was first seen.
pub open spec fn well_timed(entries: Seq<CachedEntryView>) -> bool {
    forall|i: int| 0 <= i < entries.len() ==> (#[trigger] entries[i]).first_seen <= entries[i].last_seen
}

/// No two entries bear the same title.
pub open spec fn distinct_titles(entries: Seq<CachedEntryView>) -> bool {
    forall|i: int, j: int|
        0 <= i < j < entries.len() ==> (#[trigger] entries[i]).title != (#[trigger] entries[j]).title
}

/// Some candidate bears `title`.
pub open spec fn offers_title(candidates: Seq<NewsEntryView>, title: Seq<char>) -> bool {
    exists|k: int| 0 <= k < candidates.len() && (#[trigger] candidates[k]).title == title
}

/// The entry at `at` is one that the candidates refresh: it is the first to
/// bear its title, and some candidate bears that title.
pub open spec fn is_refreshed(
    entries: Seq<CachedEntryView>,
    candidates: Seq<NewsEntryView>,
    at: int,
) -> bool {
    &&& 0 <= at < entries.len()
    &&& is_first_with_title(entries, entries[at].title, at)
    &&& offers_title(candidates, entries[at].title)
}

/// No entry that the candidates refresh was first seen after `now`.
pub open spec fn clock_not_behind(
    entries: Seq<CachedEntryView>,
    candidates: Seq<NewsEntryView>,
    now: u64,
) -> bool {
    forall|i: int| is_refreshed(entries, candidates, i) ==> (#[trigger] entries[i]).first_seen <= now
}

/// The entry recorded for a candidate that shows up for the first time at
/// time `now`.
pub open spec fn fresh_entry(candidate: NewsEntryView, now: u64) -> CachedEntryView {
    CachedEntryView {
        title: candidate.title,
        summary: candidate.summary,
        link: candidate.link,
        first_seen: now,
        last_seen: now,
    }
}

/// The recorded entries and the entries found new, while candidates are
/// taken in.
pub struct Intake {
    pub entries: Seq<CachedEntryView>,
    pub fresh: Seq<CachedEntryView>,
}

/// Takes one candidate in. A candidate whose title is recorded refreshes that
/// entry. Any other is new; it joins the record only where `persist` is set.
pub open spec fn take_in(state: Intake, candidate: NewsEntryView, now: u64, persist: bool) -> Intake {
    if knows_title(state.entries, candidate.title) {
        Intake { entries: seen_again(state.entries, candidate.title, now), fresh: state.fresh }
    } else {
        Intake {
            entries: if persist {
                state.entries.push(fresh_entry(candidate, now))
            } else {
                state.entries
            },
            fresh: state.fresh.push(fresh_entry(candidate, now)),
        }
    }
}

/// Takes the candidates in, one after the other, starting from the recorded
/// `entries` and nothing new.
pub open spec fn absorb(
    entries: Seq<CachedEntryView>,
    candidates: Seq<NewsEntryView>,
    now: u64,
    persist: bool,
) -> Intake
    decreases candidates.len(),
{
    if candidates.len() == 0 {
        Intake { entries, fresh: Seq::empty() }
    } else {
        take_in(absorb(entries, candidates.drop_last(), now, persist), candidates.last(), now, persist)
    }
}

/// The index of the first entry that bears `title`, if there is one.
pub fn find_title(entries: &Vec<CachedEntry>, title: &String) -> (found: Option<usize>)
    ensures
        match found {
            Some(at) => is_first_with_title(entry_views(entries@), title@, at as int),
            None => !knows_title(entry_views(entries@), title@),
        },
{
    let mut i: usize = 0;
    while i < entries.len()
        invariant
            i <= entries.len(),
            forall|j: int| 0 <= j < i ==> entry_views(entries@)[j].title != title@,
        decreases entries.len() - i,
    {
        if entries[i].title == *title {
            return Some(i);
        }
        i += 1;
    }
    None
}

/// Takes the candidates in: refreshes the recorded entries that show up
/// again, and returns the entries that are new, in the candidates' order.
pub fn absorb_candidates(
    entries: &mut Vec<CachedEntry>,
    candidates: &Vec<NewsEntry>,
    now: u64,
    persist: bool,
) -> (fresh: Vec<CachedEntry>)
    ensures
        (Intake { entries: entry_views(final(entries)@), fresh: entry_views(fresh@) }) == absorb(
            entry_views(old(entries)@),
            news_views(candidates@),
            now,
            persist,
        ),
{
    let mut fresh: Vec<CachedEntry> = Vec::new();
    let mut k: usize = 0;
    assert(news_views(candidates@).take(0) =~= Seq::empty());
    assert(entry_views(fresh@) =~= Seq::empty());
    while k < candidates.len()
        invariant
            k <= candidates.len(),
            (Intake { entries: entry_views(entries@), fresh: entry_views(fresh@) }) == absorb(
                entry_views(old(entries)@),
                news_views(candidates@).take(k as int),
                now,
                persist,
            ),
        decreases candidates.len() - k,
    {
        let ghost before = Intake { entries: entry_views(entries@), fresh: entry_views(fresh@) };
        let ghost taken = news_views(candidates@).take(k as int + 1);
        assert(taken.drop_last() =~= news_views(candidates@).take(k as int));
        assert(taken.last() == candidates@[k as int]@);
        let candidate = &candidates[k];
        match find_title(entries, &candidate.title) {
            Some(at) => {
                entries[at].last_seen = now;
                assert(entry_views(entries@) =~= seen_again(before.entries, candidate.title@, now));
            },
            None => {
                let entry = CachedEntry {
                    title: candidate.title.clone(),
                    summary: candidate.summary.clone(),
                    link: candidate.link.clone(),
                    first_seen: now,
                    last_seen: now,
                };
                if persist {
                    entries.push(entry.clone());
                    assert(entry_views(entries@) =~= before.entries.push(fresh_entry(candidate@, now)));
                }
                fresh.push(entry);
                assert(entry_views(fresh@) =~= before.fresh.push(fresh_entry(candidate@, now)));
            },
        }
        k += 1;
    }
    assert(news_views(candidates@).take(k as int) =~= news_views(candidates@));
    fresh
}

/// An entry is stale once it has been absent from the feed since before
/// `missing_threshold` and has been on record since before `age_threshold`.
pub open spec fn is_stale(entry: CachedEntryView, missing_threshold: u64, age_threshold: u64) -> bool {
    entry.last_seen < missing_threshold && entry.first_seen < age_threshold
}

/// The test that tells the entries to keep from the stale ones.
pub open spec fn keeps(missing_threshold: u64, age_threshold: u64) -> spec_fn(CachedEntryView) -> bool {
    |entry: CachedEntryView| !is_stale(entry, missing_threshold, age_threshold)
}

/// `entries` without the stale ones, the others in their order.
pub open spec fn retained(
    entries: Seq<CachedEntryView>,
    missing_threshold: u64,
    age_threshold: u64,
) -> Seq<CachedEntryView> {
    entries.filter(keeps(missing_threshold, age_threshold))
}

/// The time that lies `span` seconds before `now`, or the epoch if `now` is
/// not that far from it.
pub open spec fn threshold(now: u64, span: u64) -> u64 {
    if span >= now {
        0
    } else {
        (now - span) as u64
    }
}

/// Forgets the stale entries and keeps the others in their order.
pub fn prune(entries: &Vec<CachedEntry>, missing_threshold: u64, age_threshold: u64) -> (kept: Vec<
    CachedEntry,
>)
    ensures
        entry_views(kept@) == retained(entry_views(entries@), missing_threshold, age_threshold),
{
    let ghost all = entry_views(entries@);
    let ghost keep = keeps(missing_threshold, age_threshold);
    let mut kept: Vec<CachedEntry> = Vec::new();
    let mut i: usize = 0;
    assert(all.take(0) =~= Seq::empty());
    assert(entry_views(kept@) =~= all.take(0).filter(keep));
    while i < entries.len()
        invariant
            i <= entries.len(),
            all == entry_views(entries@),
            keep == keeps(missing_threshold, age_threshold),
            entry_views(kept@) == all.take(i as int).filter(keep),
        decreases entries.len() - i,
    {
        let entry = &entries[i];
        proof {
            assert(all.take(i as int + 1) =~= all.take(i as int).push(entry@));
            all.take(i as int).lemma_filter_push(entry@, keep);
        }
        if !(entry.last_seen < missing_threshold && entry.first_seen < age_threshold) {
            let ghost before = entry_views(kept@);
            kept.push(entry.clone());
            assert(entry_views(kept@) =~= before.push(entry@));
        }
        i += 1;
    }
    assert(all.take(i as int) =~= all);
    kept
}

/// What one run hands back: the entries to report, the record as it stands
/// after the run, and whether the record is to be written out.
#[derive(Debug)]
pub struct Reconciliation {
    pub new_entries: Vec<CachedEntry>,
    pub updated_cache: CacheFile,
    pub changed: bool,
}

/// What a `Reconciliation` holds.
pub struct ReconciliationView {
    pub new_entries: Seq<CachedEntryView>,
    pub updated_cache: CacheFileView,
    pub changed: bool,
}

impl View for Reconciliation {
    type V = ReconciliationView;

    open spec fn view(&self) -> ReconciliationView {
        ReconciliationView {
            new_entries: entry_views(self.new_entries@),
            updated_cache: self.updated_cache@,
            changed: self.changed,
        }
    }
}

/// The record that a run starts from: the one handed in where it has the
/// current layout version, the empty one where it has not.
pub open spec fn guarded(existing: CacheFileView) -> CacheFileView {
    if existing.cache_version == CACHE_VERSION {
        existing
    } else {
        empty_cache()
    }
}

/// A run counts as the first where no record was there before it, or where
/// the record's layout version is not the current one.
pub open spec fn counts_as_first_run(existing: CacheFileView, was_first_run: bool) -> bool {
    was_first_run || existing.cache_version != CACHE_VERSION
}

/// The recorded entries after the candidates were taken in and before the
/// stale entries are forgotten, with the entries found new.
pub open spec fn intake_of(
    candidates: Seq<NewsEntryView>,
    now: u64,
    force_mark_seen: bool,
    auto_mark_seen: bool,
    existing: CacheFileView,
) -> Intake {
    absorb(guarded(existing).entries, candidates, now, force_mark_seen || auto_mark_seen)
}

/// What one run makes of the candidates and the record.
///
/// The record's time of the last successful reading becomes `now` where the
/// reading succeeded. The candidates are taken in, then the stale entries
/// are forgotten. The first run reports nothing. The record counts as
/// changed, and is to be written out, where the run counts as the first,
/// where there was any candidate, where an entry was forgotten, or where
/// the time of the last successful reading moved.
pub open spec fn reconciled(
    candidates: Seq<NewsEntryView>,
    fetch_succeeded: bool,
    now: u64,
    force_mark_seen: bool,
    auto_mark_seen: bool,
    prune_missing_after: u64,
    prune_age_after: u64,
    existing: CacheFileView,
    was_first_run: bool,
) -> ReconciliationView {
    let intake = intake_of(candidates, now, force_mark_seen, auto_mark_seen, existing);
    let kept = retained(
        intake.entries,
        threshold(now, prune_missing_after),
        threshold(now, prune_age_after),
    );
    ReconciliationView {
        new_entries: if counts_as_first_run(existing, was_first_run) {
            Seq::empty()
        } else {
            intake.fresh
        },
        updated_cache: CacheFileView {
            entries: kept,
            cache_version: CACHE_VERSION,
            last_successful_request: if fetch_succeeded {
                Some(now)
            } else {
                guarded(existing).last_successful_request
            },
        },
        changed: {
            ||| counts_as_first_run(existing, was_first_run)
            ||| candidates.len() > 0
            ||| kept.len() != intake.entries.len()
            ||| (fetch_succeeded && guarded(existing).last_successful_request != Some(now))
        },
    }
}

/// Reconciles the candidates of one reading of the feeds with the record of
/// the runs before: finds the entries that are new, refreshes those that
/// show up again, and forgets the stale ones.
pub fn reconcile(
    candidates: Vec<NewsEntry>,
    fetch_succeeded: bool,
    now: u64,
    force_mark_seen: bool,
    auto_mark_seen: bool,
    prune_missing_after: u64,
    prune_age_after: u64,
    existing: CacheFile,
    was_first_run: bool,
) -> (outcome: Reconciliation)
    ensures
        outcome@ == reconciled(
            news_views(candidates@),
            fetch_succeeded,
            now,
            force_mark_seen,
            auto_mark_seen,
            prune_missing_after,
            prune_age_after,
            existing@,
            was_first_run,
        ),
        well_timed(guarded(existing@).entries) && clock_not_behind(
            guarded(existing@).entries,
            news_views(candidates@),
            now,
        ) ==> well_timed(outcome@.updated_cache.entries) && well_timed(outcome@.new_entries),
        distinct_titles(guarded(existing@).entries) ==> distinct_titles(
            outcome@.updated_cache.entries,
        ),
{
    proof {
        if distinct_titles(guarded(existing@).entries) {
            lemma_titles_stay_distinct(
                news_views(candidates@),
                fetch_succeeded,
                now,
                force_mark_seen,
                auto_mark_seen,
                prune_missing_after,
                prune_age_after,
                existing@,
                was_first_run,
            );
        }
        if well_timed(guarded(existing@).entries) && clock_not_behind(
            guarded(existing@).entries,
            news_views(candidates@),
            now,
        ) {
            lemma_timestamps_stay_ordered(
                news_views(candidates@),
                fetch_succeeded,
                now,
                force_mark_seen,
                auto_mark_seen,
                prune_missing_after,
                prune_age_after,
                existing@,
                was_first_run,
            );
        }
    }
    let reset = existing.cache_version != CACHE_VERSION;
    let mut cache = if reset {
        CacheFile::default()
    } else {
        existing
    };
    assert(cache@ == guarded(existing@));
    let stamp_moved = fetch_succeeded && match cache.last_successful_request {
        Some(last) => last != now,
        None => true,
    };
    if fetch_succeeded {
        cache.last_successful_request = Some(now);
    }
    let mut entries = cache.entries;
    let fresh = absorb_candidates(&mut entries, &candidates, now, force_mark_seen || auto_mark_seen);
    let kept = prune(
        &entries,
        now.saturating_sub(prune_missing_after),
        now.saturating_sub(prune_age_after),
    );
    let changed = reset || was_first_run || candidates.len() > 0 || kept.len() != entries.len()
        || stamp_moved;
    let new_entries = if was_first_run || reset {
        Vec::new()
    } else {
        fresh
    };
    assert(news_views(candidates@).len() == candidates@.len());
    assert(entry_views(kept@).len() == kept@.len());
    assert(entry_views(entries@).len() == entries@.len());
    assert(was_first_run || reset ==> entry_views(new_entries@) =~= Seq::empty());
    Reconciliation {
        new_entries,
        updated_cache: CacheFile {
            entries: kept,
            cache_version: CACHE_VERSION,
            last_successful_request: cache.last_successful_request,
        },
        changed,
    }
}

/// The seconds in `days` days, or the largest number there is where they
/// are more than that.
pub open spec fn retention_seconds(days: u64) -> u64 {
    if days * SECONDS_PER_DAY > u64::MAX {
        u64::MAX
    } else {
        (days * SECONDS_PER_DAY) as u64
    }
}

/// The length of `days` days in seconds, as far as a `u64` can hold it.
pub fn days_to_seconds(days: u64) -> (seconds: u64)
    ensures
        seconds == retention_seconds(days),
{
    match days.checked_mul(SECONDS_PER_DAY) {
        Some(seconds) => seconds,
        None => u64::MAX,
    }
}

/// How the feeds stand with this installation.
#[derive(Debug, Clone, Copy, PartialEq, Eq, Structural)]
pub enum FeedContact {
    /// The feeds were read by this run, or within a day of it.
    Recent,
    /// The feeds were last read `seconds` seconds ago, which is more than a
    /// day.
    Stale { seconds: u64 },
    /// The feeds were never read.
    Never,
}

/// What there is to say about the contact with the feeds, given whether this
/// run read them and when an earlier run last did.
pub open spec fn contact_of(fetch_succeeded: bool, last_success: Option<u64>, now: u64) -> FeedContact {
    if fetch_succeeded {
        FeedContact::Recent
    } else {
        match last_success {
            None => FeedContact::Never,
            Some(last) => if now - last > SECONDS_PER_DAY {
                FeedContact::Stale { seconds: (now - last) as u64 }
            } else {
                FeedContact::Recent
            },
        }
    }
}

/// Tells whether the user is owed a warning about the contact with the
/// feeds.
pub fn feed_contact(fetch_succeeded: bool, last_success: Option<u64>, now: u64) -> (contact:
    FeedContact)
    ensures
        contact == contact_of(fetch_succeeded, last_success, now),
{
    if fetch_succeeded {
        return FeedContact::Recent;
    }
    match last_success {
        None => FeedContact::Never,
        Some(last) => {
            if now > last && now - last > SECONDS_PER_DAY {
                FeedContact::Stale { seconds: now - last }
            } else {
                FeedContact::Recent
            }
        },
    }
}

/// Where the record is kept: at `development_path` where one is given, else
/// where `config` says.
pub fn get_cache_path(config: &Config, development_path: Option<String>) -> (path: String)
    ensures
        path@ == match development_path {
            Some(given) => given@,
            None => config.cache_path@,
        },
{
    match development_path {
        Some(given) => given,
        None => config.cache_path.clone(),
    }
}

/// The record to work on: the one read from disk, or the empty one where
/// none could be read.
pub fn load_cache(stored: Option<CacheFile>) -> (cache: CacheFile)
    ensures
        cache@ == match stored {
            Some(found) => found@,
            None => empty_cache(),
        },
{
    match stored {
        Some(found) => found,
        None => CacheFile::default(),
    }
}

/// One run of the check: tells how the feeds stand, and reconciles what
/// they brought with the record, under the settings in `config`.
///
/// `first_run` says that no record was on disk before this run. The feeds
/// count as read by this run where `result` holds the time of a successful
/// reading; else the record says when they last were, unless it is of
/// another layout version.
pub fn check_new_entries(
    result: ManualInterventionResult,
    existing: CacheFile,
    first_run: bool,
    now: u64,
    config: &Config,
    force_mark_as_read: bool,
) -> (outcome: (FeedContact, Reconciliation))
    ensures
        outcome.0 == contact_of(
            result.last_successful_request is Some,
            guarded(existing@).last_successful_request,
            now,
        ),
        outcome.1@ == reconciled(
            news_views(result.entries@),
            result.last_successful_request is Some,
            now,
            force_mark_as_read,
            config.mark_as_read_automatically,
            retention_seconds(config.prune_missing_days),
            retention_seconds(config.prune_age_days),
            existing@,
            first_run,
        ),
{
    let fetch_succeeded = result.last_successful_request.is_some();
    let last_success = if existing.cache_version == CACHE_VERSION {
        existing.last_successful_request
    } else {
        None
    };
    let contact = feed_contact(fetch_succeeded, last_success, now);
    let reconciliation = reconcile(
        result.entries,
        fetch_succeeded,
        now,
        force_mark_as_read,
        config.mark_as_read_automatically,
        days_to_seconds(config.prune_missing_days),
        days_to_seconds(config.prune_age_days),
        existing,
        first_run,
    );
    (contact, reconciliation)
}

/// Declares `std::time::SystemTime`, a reading of the system clock. Nothing
/// inside it is read but through the functions below.
#[verifier::external_type_specification]
#[verifier::external_body]
pub struct ExSystemTime(SystemTime);

/// Trusted: `SystemTime::now`, the reading of the system clock. Nothing is
/// claimed of the time it gives.
#[verifier::external_body]
fn system_time_now() -> SystemTime {
    SystemTime::now()
}

/// Trusted: `SystemTime::duration_since`, asked for the time since the epoch.
/// It fails where the time lies before the epoch; nothing more is claimed.
#[verifier::external_body]
fn since_epoch(time: &SystemTime) -> Option<Duration> {
    time.duration_since(UNIX_EPOCH).ok()
}

/// Trusted: `Duration::as_secs`, the whole seconds of a span of time. Nothing
/// is claimed of their number.
#[verifier::external_body]
fn whole_seconds(span: &Duration) -> u64 {
    span.as_secs()
}

/// The system clock's time in seconds since the epoch, or `None` where the
/// clock stands before the epoch.
pub fn current_unix_time() -> Option<u64> {
    let time = system_time_now();
    match since_epoch(&time) {
        Some(span) => Some(whole_seconds(&span)),
        None => None,
    }
}

} // verus!
