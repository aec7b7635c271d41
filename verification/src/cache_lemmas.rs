//! What holds of every reconciliation, proved from its definition.

use vstd::prelude::*;
use crate::cache::{
    absorb, clock_not_behind, counts_as_first_run, distinct_titles, empty_cache, fresh_entry,
    guarded, intake_of, is_first_with_title, is_refreshed, keeps, knows_title, offers_title,
    reconciled, retained, seen_again, take_in, threshold, well_timed, CacheFileView,
    CachedEntryView, CACHE_VERSION,
};
use crate::rss::NewsEntryView;

verus! {

/// A title that the candidates but the last bear, or that the last bears, is
/// one that the candidates bear.
proof fn lemma_offers_longer(candidates: Seq<NewsEntryView>, title: Seq<char>)
    requires
        candidates.len() > 0,
        offers_title(candidates.drop_last(), title) || candidates.last().title == title,
    ensures
        offers_title(candidates, title),
{
    if offers_title(candidates.drop_last(), title) {
        let k = choose|k: int|
            0 <= k < candidates.drop_last().len() && (#[trigger] candidates.drop_last()[k]).title
                == title;
        assert(candidates[k].title == title);
    } else {
        assert(candidates[candidates.len() - 1].title == title);
    }
}

/// How taking candidates in shapes the record: the entries that were there
/// stay in place, each as it was or refreshed; what comes after them was
/// first and last seen at `now`, and so was every entry found new.
proof fn lemma_absorb_shape(
    base: Seq<CachedEntryView>,
    candidates: Seq<NewsEntryView>,
    now: u64,
    persist: bool,
)
    ensures
        base.len() <= absorb(base, candidates, now, persist).entries.len(),
        !persist ==> absorb(base, candidates, now, persist).entries.len() == base.len(),
        forall|i: int|
            0 <= i < base.len() ==> {
                let after = #[trigger] absorb(base, candidates, now, persist).entries[i];
                ||| after == base[i]
                ||| (after == CachedEntryView { last_seen: now, ..base[i] } && is_refreshed(
                    base,
                    candidates,
                    i,
                ))
            },
        forall|i: int|
            base.len() <= i < absorb(base, candidates, now, persist).entries.len() ==> {
                let after = #[trigger] absorb(base, candidates, now, persist).entries[i];
                after.first_seen == now && after.last_seen == now
            },
        forall|j: int|
            0 <= j < absorb(base, candidates, now, persist).fresh.len() ==> {
                let found = #[trigger] absorb(base, candidates, now, persist).fresh[j];
                found.first_seen == now && found.last_seen == now
            },
    decreases candidates.len(),
{
    if candidates.len() > 0 {
        let shorter = candidates.drop_last();
        let candidate = candidates.last();
        lemma_absorb_shape(base, shorter, now, persist);
        let prev = absorb(base, shorter, now, persist);
        let next = take_in(prev, candidate, now, persist);
        assert(next == absorb(base, candidates, now, persist));
        assert forall|i: int| 0 <= i < base.len() implies {
            let after = #[trigger] next.entries[i];
            ||| after == base[i]
            ||| (after == CachedEntryView { last_seen: now, ..base[i] } && is_refreshed(
                base,
                candidates,
                i,
            ))
        } by {
            let before = prev.entries[i];
            assert(before.title == base[i].title);
            if is_refreshed(base, shorter, i) {
                lemma_offers_longer(candidates, base[i].title);
            }
            if knows_title(prev.entries, candidate.title) && is_first_with_title(
                prev.entries,
                candidate.title,
                i,
            ) {
                assert forall|j: int| 0 <= j < i implies base[j].title != candidate.title by {
                    assert(prev.entries[j].title == base[j].title);
                }
                lemma_offers_longer(candidates, base[i].title);
            }
        }
    }
}

/// Forgetting stale entries brings in no entry that was not there.
proof fn lemma_retained_from(
    entries: Seq<CachedEntryView>,
    missing_threshold: u64,
    age_threshold: u64,
    i: int,
) -> (from: int)
    requires
        0 <= i < retained(entries, missing_threshold, age_threshold).len(),
    ensures
        0 <= from < entries.len(),
        entries[from] == retained(entries, missing_threshold, age_threshold)[i],
        keeps(missing_threshold, age_threshold)(entries[from]),
{
    let keep = keeps(missing_threshold, age_threshold);
    let kept = entries.filter(keep);
    entries.lemma_filter_pred(keep, i);
    assert(kept.contains(kept[i]));
    entries.lemma_filter_contains_rev(keep, kept[i]);
    choose|from: int| 0 <= from < entries.len() && entries[from] == kept[i]
}

/// After a reconciliation no entry of the record, and no entry reported, was
/// last seen before it was first seen, provided that this held of the record
/// before and that the clock has not gone back behind the first sighting of
/// an entry that shows up again.
///
/// Where the clock has gone back so, the entry that shows up again is last
/// seen at `now`, before it was first seen.
pub proof fn lemma_timestamps_stay_ordered(
    candidates: Seq<NewsEntryView>,
    fetch_succeeded: bool,
    now: u64,
    force_mark_seen: bool,
    auto_mark_seen: bool,
    prune_missing_after: u64,
    prune_age_after: u64,
    existing: CacheFileView,
    was_first_run: bool,
)
    requires
        well_timed(guarded(existing).entries),
        clock_not_behind(guarded(existing).entries, candidates, now),
    ensures
        well_timed(
            reconciled(
                candidates,
                fetch_succeeded,
                now,
                force_mark_seen,
                auto_mark_seen,
                prune_missing_after,
                prune_age_after,
                existing,
                was_first_run,
            ).updated_cache.entries,
        ),
        well_timed(
            reconciled(
                candidates,
                fetch_succeeded,
                now,
                force_mark_seen,
                auto_mark_seen,
                prune_missing_after,
                prune_age_after,
                existing,
                was_first_run,
            ).new_entries,
        ),
{
    let base = guarded(existing).entries;
    let persist = force_mark_seen || auto_mark_seen;
    let intake = intake_of(candidates, now, force_mark_seen, auto_mark_seen, existing);
    lemma_absorb_shape(base, candidates, now, persist);
    assert forall|i: int| 0 <= i < intake.entries.len() implies (#[trigger] intake.entries[i]).first_seen
        <= intake.entries[i].last_seen by {
        if i < base.len() {
            assert(base[i].first_seen <= base[i].last_seen);
        }
    }
    let missing_threshold = threshold(now, prune_missing_after);
    let age_threshold = threshold(now, prune_age_after);
    let kept = retained(intake.entries, missing_threshold, age_threshold);
    assert forall|i: int| 0 <= i < kept.len() implies (#[trigger] kept[i]).first_seen
        <= kept[i].last_seen by {
        let from = lemma_retained_from(intake.entries, missing_threshold, age_threshold, i);
        assert(intake.entries[from].first_seen <= intake.entries[from].last_seen);
    }
}

/// The first entry that bears `title` was last seen at `now`.
pub open spec fn refreshed_at(entries: Seq<CachedEntryView>, title: Seq<char>, now: u64) -> bool {
    exists|i: int| is_first_with_title(entries, title, i) && (#[trigger] entries[i]).last_seen == now
}

/// Every candidate's title is on record, and the first entry that bears it
/// was last seen at `now`.
pub open spec fn settled(
    entries: Seq<CachedEntryView>,
    candidates: Seq<NewsEntryView>,
    now: u64,
) -> bool {
    forall|k: int|
        0 <= k < candidates.len() ==> refreshed_at(entries, (#[trigger] candidates[k]).title, now)
}

/// Among the entries up to `witness`, which bears `title`, one is the first
/// to bear it.
proof fn lemma_first_with_title(entries: Seq<CachedEntryView>, title: Seq<char>, witness: int) -> (first:
    int)
    requires
        0 <= witness < entries.len(),
        entries[witness].title == title,
    ensures
        is_first_with_title(entries, title, first),
        first <= witness,
    decreases witness,
{
    if exists|j: int| 0 <= j < witness && entries[j].title == title {
        let earlier = choose|j: int| 0 <= j < witness && entries[j].title == title;
        lemma_first_with_title(entries, title, earlier)
    } else {
        witness
    }
}

/// Candidates that a record is settled for leave it as it is, and none of
/// them is found new.
proof fn lemma_settled_absorbs_nothing(
    entries: Seq<CachedEntryView>,
    candidates: Seq<NewsEntryView>,
    now: u64,
    persist: bool,
)
    requires
        settled(entries, candidates, now),
    ensures
        absorb(entries, candidates, now, persist).entries == entries,
        absorb(entries, candidates, now, persist).fresh == Seq::<CachedEntryView>::empty(),
    decreases candidates.len(),
{
    if candidates.len() > 0 {
        let shorter = candidates.drop_last();
        let candidate = candidates.last();
        assert forall|k: int| 0 <= k < shorter.len() implies refreshed_at(
            entries,
            (#[trigger] shorter[k]).title,
            now,
        ) by {
            assert(shorter[k] == candidates[k]);
        }
        lemma_settled_absorbs_nothing(entries, shorter, now, persist);
        assert(candidate == candidates[candidates.len() - 1]);
        assert(refreshed_at(entries, candidate.title, now));
        let first = choose|i: int|
            is_first_with_title(entries, candidate.title, i) && (#[trigger] entries[i]).last_seen
                == now;
        assert(knows_title(entries, candidate.title));
        assert forall|j: int| 0 <= j < entries.len() && is_first_with_title(
            entries,
            candidate.title,
            j,
        ) implies j == first by {
            if j < first {
                assert(entries[j].title != candidate.title);
            }
            if first < j {
                assert(entries[first].title != candidate.title);
            }
        }
        assert(seen_again(entries, candidate.title, now) =~= entries);
    }
}

/// Once the candidates are taken in, the record is settled for them,
/// provided that the entries found new join the record or that there is
/// none.
proof fn lemma_absorb_settles(
    base: Seq<CachedEntryView>,
    candidates: Seq<NewsEntryView>,
    now: u64,
    persist: bool,
)
    requires
        persist || absorb(base, candidates, now, persist).fresh.len() == 0,
    ensures
        settled(absorb(base, candidates, now, persist).entries, candidates, now),
    decreases candidates.len(),
{
    if candidates.len() > 0 {
        let shorter = candidates.drop_last();
        let candidate = candidates.last();
        let prev = absorb(base, shorter, now, persist);
        let next = take_in(prev, candidate, now, persist);
        assert(next == absorb(base, candidates, now, persist));
        lemma_absorb_settles(base, shorter, now, persist);
        let known = knows_title(prev.entries, candidate.title);
        assert(known || persist);
        assert forall|k: int| 0 <= k < candidates.len() implies refreshed_at(
            next.entries,
            (#[trigger] candidates[k]).title,
            now,
        ) by {
            let title = candidates[k].title;
            if k < shorter.len() {
                assert(shorter[k] == candidates[k]);
                assert(refreshed_at(prev.entries, shorter[k].title, now));
                let i = choose|i: int|
                    is_first_with_title(prev.entries, title, i) && (#[trigger] prev.entries[i]).last_seen
                        == now;
                assert(is_first_with_title(next.entries, title, i));
                assert(next.entries[i].last_seen == now);
            } else if known {
                let w = choose|i: int| 0 <= i < prev.entries.len() && prev.entries[i].title == title;
                let i = lemma_first_with_title(prev.entries, title, w);
                assert(is_first_with_title(next.entries, title, i));
                assert(next.entries[i].last_seen == now);
            } else {
                let i = prev.entries.len() as int;
                assert(is_first_with_title(next.entries, title, i));
                assert(next.entries[i].last_seen == now);
            }
        }
    }
}

/// The first entry to bear a title, if it is kept, is still the first to
/// bear it once the stale entries are forgotten.
proof fn lemma_retained_keeps_first(
    entries: Seq<CachedEntryView>,
    missing_threshold: u64,
    age_threshold: u64,
    title: Seq<char>,
    first: int,
) -> (at: int)
    requires
        is_first_with_title(entries, title, first),
        keeps(missing_threshold, age_threshold)(entries[first]),
    ensures
        is_first_with_title(retained(entries, missing_threshold, age_threshold), title, at),
        retained(entries, missing_threshold, age_threshold)[at] == entries[first],
    decreases entries.len(),
{
    let keep = keeps(missing_threshold, age_threshold);
    let rest = entries.drop_last();
    let last = entries.last();
    assert(entries =~= rest.push(last));
    rest.lemma_filter_push(last, keep);
    let kept_rest = retained(rest, missing_threshold, age_threshold);
    let kept = retained(entries, missing_threshold, age_threshold);
    if first < rest.len() {
        assert forall|j: int| 0 <= j < first implies rest[j].title != title by {
            assert(rest[j] == entries[j]);
        }
        let at = lemma_retained_keeps_first(rest, missing_threshold, age_threshold, title, first);
        assert(kept[at] == kept_rest[at]);
        assert forall|j: int| 0 <= j < at implies kept[j].title != title by {
            assert(kept[j] == kept_rest[j]);
        }
        at
    } else {
        assert(kept == kept_rest.push(last));
        assert forall|j: int| 0 <= j < kept_rest.len() implies kept[j].title != title by {
            let from = lemma_retained_from(rest, missing_threshold, age_threshold, j);
            assert(rest[from] == entries[from]);
            assert(kept[j] == kept_rest[j]);
        }
        kept_rest.len() as int
    }
}

/// Forgetting the stale entries a second time forgets nothing more.
proof fn lemma_retained_twice(
    entries: Seq<CachedEntryView>,
    missing_threshold: u64,
    age_threshold: u64,
)
    ensures
        retained(
            retained(entries, missing_threshold, age_threshold),
            missing_threshold,
            age_threshold,
        ) == retained(entries, missing_threshold, age_threshold),
    decreases entries.len(),
{
    let keep = keeps(missing_threshold, age_threshold);
    let kept = entries.filter(keep);
    if entries.len() == 0 {
        entries.lemma_filter_len(keep);
        kept.lemma_filter_len(keep);
        assert(kept.filter(keep) =~= kept);
    } else {
        let rest = entries.drop_last();
        let last = entries.last();
        assert(entries =~= rest.push(last));
        lemma_retained_twice(rest, missing_threshold, age_threshold);
        rest.lemma_filter_push(last, keep);
        if keep(last) {
            rest.filter(keep).lemma_filter_push(last, keep);
        }
    }
}

/// Reconciling the same candidates a second time at the same `now`, with
/// the record that the first time left, reports nothing and leaves that
/// record as it is, provided that the first time the entries found new
/// joined the record or that there was none.
///
/// Where an entry is found new and does not join the record, the second
/// time finds it new again.
pub proof fn lemma_reconcile_again_changes_nothing(
    candidates: Seq<NewsEntryView>,
    fetch_succeeded: bool,
    now: u64,
    force_mark_seen: bool,
    auto_mark_seen: bool,
    prune_missing_after: u64,
    prune_age_after: u64,
    existing: CacheFileView,
    was_first_run: bool,
    again_first_run: bool,
)
    requires
        force_mark_seen || auto_mark_seen || intake_of(
            candidates,
            now,
            force_mark_seen,
            auto_mark_seen,
            existing,
        ).fresh.len() == 0,
    ensures
        ({
            let first = reconciled(
                candidates,
                fetch_succeeded,
                now,
                force_mark_seen,
                auto_mark_seen,
                prune_missing_after,
                prune_age_after,
                existing,
                was_first_run,
            );
            let second = reconciled(
                candidates,
                fetch_succeeded,
                now,
                force_mark_seen,
                auto_mark_seen,
                prune_missing_after,
                prune_age_after,
                first.updated_cache,
                again_first_run,
            );
            &&& second.new_entries == Seq::<CachedEntryView>::empty()
            &&& second.updated_cache == first.updated_cache
        }),
{
    let persist = force_mark_seen || auto_mark_seen;
    let base = guarded(existing).entries;
    let intake = intake_of(candidates, now, force_mark_seen, auto_mark_seen, existing);
    let missing_threshold = threshold(now, prune_missing_after);
    let age_threshold = threshold(now, prune_age_after);
    let kept = retained(intake.entries, missing_threshold, age_threshold);
    lemma_absorb_settles(base, candidates, now, persist);
    assert forall|k: int| 0 <= k < candidates.len() implies refreshed_at(
        kept,
        (#[trigger] candidates[k]).title,
        now,
    ) by {
        let title = candidates[k].title;
        let i = choose|i: int|
            is_first_with_title(intake.entries, title, i) && (#[trigger] intake.entries[i]).last_seen
                == now;
        let at = lemma_retained_keeps_first(intake.entries, missing_threshold, age_threshold, title, i);
        assert(kept[at].last_seen == now);
    }
    lemma_settled_absorbs_nothing(kept, candidates, now, persist);
    lemma_retained_twice(intake.entries, missing_threshold, age_threshold);
}

/// A first run reports nothing, whatever the candidates are.
pub proof fn lemma_first_run_reports_nothing(
    candidates: Seq<NewsEntryView>,
    fetch_succeeded: bool,
    now: u64,
    force_mark_seen: bool,
    auto_mark_seen: bool,
    prune_missing_after: u64,
    prune_age_after: u64,
    existing: CacheFileView,
)
    ensures
        reconciled(
            candidates,
            fetch_succeeded,
            now,
            force_mark_seen,
            auto_mark_seen,
            prune_missing_after,
            prune_age_after,
            existing,
            true,
        ).new_entries == Seq::<CachedEntryView>::empty(),
{
}

/// A record of another layout version counts for nothing: the run reports
/// nothing, leaves the record that a first run from the empty record would
/// leave, and marks it as changed.
pub proof fn lemma_version_mismatch_starts_over(
    candidates: Seq<NewsEntryView>,
    fetch_succeeded: bool,
    now: u64,
    force_mark_seen: bool,
    auto_mark_seen: bool,
    prune_missing_after: u64,
    prune_age_after: u64,
    existing: CacheFileView,
    was_first_run: bool,
)
    requires
        existing.cache_version != CACHE_VERSION,
    ensures
        ({
            let outcome = reconciled(
                candidates,
                fetch_succeeded,
                now,
                force_mark_seen,
                auto_mark_seen,
                prune_missing_after,
                prune_age_after,
                existing,
                was_first_run,
            );
            let afresh = reconciled(
                candidates,
                fetch_succeeded,
                now,
                force_mark_seen,
                auto_mark_seen,
                prune_missing_after,
                prune_age_after,
                empty_cache(),
                true,
            );
            &&& outcome.new_entries == Seq::<CachedEntryView>::empty()
            &&& outcome.updated_cache == afresh.updated_cache
            &&& outcome.changed
        }),
{
}

/// An entry is on record after the stale ones are forgotten exactly if it
/// was on record before and is not both long absent and long known.
pub proof fn lemma_forgotten_are_the_stale(
    entries: Seq<CachedEntryView>,
    now: u64,
    prune_missing_after: u64,
    prune_age_after: u64,
    entry: CachedEntryView,
)
    ensures
        retained(
            entries,
            threshold(now, prune_missing_after),
            threshold(now, prune_age_after),
        ).contains(entry) <==> entries.contains(entry) && !(entry.last_seen + prune_missing_after
            < now && entry.first_seen + prune_age_after < now),
{
    let missing_threshold = threshold(now, prune_missing_after);
    let age_threshold = threshold(now, prune_age_after);
    let keep = keeps(missing_threshold, age_threshold);
    let kept = entries.filter(keep);
    if kept.contains(entry) {
        let i = choose|i: int| 0 <= i < kept.len() && kept[i] == entry;
        entries.lemma_filter_pred(keep, i);
        entries.lemma_filter_contains_rev(keep, entry);
    }
    if entries.contains(entry) && keep(entry) {
        let i = choose|i: int| 0 <= i < entries.len() && entries[i] == entry;
        entries.lemma_filter_contains(keep, i);
    }
}

/// `entry` is the entry made at `now` from a candidate whose title is not
/// among `known`.
pub open spec fn made_from_unknown(
    entry: CachedEntryView,
    candidates: Seq<NewsEntryView>,
    known: Seq<CachedEntryView>,
    now: u64,
) -> bool {
    exists|k: int|
        0 <= k < candidates.len() && entry == fresh_entry(#[trigger] candidates[k], now)
            && !knows_title(known, candidates[k].title)
}

/// Which entries are found new while candidates are taken in: each is made
/// from a candidate whose title was not on record; each such candidate has
/// an entry of its title among them, and its very entry where the entries
/// found new stay out of the record. What joins the record is among the
/// entries found new, and where they join the record, each of them is in
/// it.
proof fn lemma_absorb_fresh(
    base: Seq<CachedEntryView>,
    candidates: Seq<NewsEntryView>,
    now: u64,
    persist: bool,
)
    ensures
        forall|j: int|
            0 <= j < absorb(base, candidates, now, persist).fresh.len() ==> made_from_unknown(
                #[trigger] absorb(base, candidates, now, persist).fresh[j],
                candidates,
                base,
                now,
            ),
        forall|k: int|
            0 <= k < candidates.len() && !knows_title(base, (#[trigger] candidates[k]).title)
                ==> knows_title(absorb(base, candidates, now, persist).fresh, candidates[k].title),
        !persist ==> forall|k: int|
            0 <= k < candidates.len() && !knows_title(base, (#[trigger] candidates[k]).title)
                ==> absorb(base, candidates, now, persist).fresh.contains(
                fresh_entry(candidates[k], now),
            ),
        forall|i: int|
            base.len() <= i < absorb(base, candidates, now, persist).entries.len() ==> absorb(
                base,
                candidates,
                now,
                persist,
            ).fresh.contains(#[trigger] absorb(base, candidates, now, persist).entries[i]),
        persist ==> forall|j: int|
            0 <= j < absorb(base, candidates, now, persist).fresh.len() ==> absorb(
                base,
                candidates,
                now,
                persist,
            ).entries.contains(#[trigger] absorb(base, candidates, now, persist).fresh[j]),
    decreases candidates.len(),
{
    if candidates.len() > 0 {
        let shorter = candidates.drop_last();
        let candidate = candidates.last();
        let last = candidates.len() - 1;
        lemma_absorb_fresh(base, shorter, now, persist);
        lemma_absorb_shape(base, shorter, now, persist);
        let prev = absorb(base, shorter, now, persist);
        let next = take_in(prev, candidate, now, persist);
        assert(next == absorb(base, candidates, now, persist));
        let known = knows_title(prev.entries, candidate.title);
        let made = fresh_entry(candidate, now);
        assert(candidates[last] == candidate);
        if !known && knows_title(base, candidate.title) {
            let w = choose|i: int| 0 <= i < base.len() && base[i].title == candidate.title;
            assert(prev.entries[w].title == base[w].title);
        }
        assert forall|j: int| 0 <= j < next.fresh.len() implies made_from_unknown(
            #[trigger] next.fresh[j],
            candidates,
            base,
            now,
        ) by {
            if j < prev.fresh.len() {
                assert(made_from_unknown(prev.fresh[j], shorter, base, now));
                let k = choose|k: int|
                    0 <= k < shorter.len() && prev.fresh[j] == fresh_entry(#[trigger] shorter[k], now)
                        && !knows_title(base, shorter[k].title);
                assert(candidates[k] == shorter[k]);
            } else {
                assert(next.fresh[j] == fresh_entry(candidates[last], now));
            }
        }
        assert forall|k: int|
            0 <= k < candidates.len() && !knows_title(
                base,
                (#[trigger] candidates[k]).title,
            ) implies knows_title(next.fresh, candidates[k].title) && (!persist
            ==> next.fresh.contains(fresh_entry(candidates[k], now))) by {
            if k < shorter.len() {
                assert(candidates[k] == shorter[k]);
                assert(knows_title(prev.fresh, shorter[k].title));
                let j = choose|j: int|
                    0 <= j < prev.fresh.len() && prev.fresh[j].title == shorter[k].title;
                assert(next.fresh[j] == prev.fresh[j]);
                if !persist {
                    assert(prev.fresh.contains(fresh_entry(shorter[k], now)));
                    let j2 = choose|j: int|
                        0 <= j < prev.fresh.len() && prev.fresh[j] == fresh_entry(shorter[k], now);
                    assert(next.fresh[j2] == prev.fresh[j2]);
                }
            } else if known {
                let w = choose|i: int|
                    0 <= i < prev.entries.len() && prev.entries[i].title == candidate.title;
                if w < base.len() {
                    assert(prev.entries[w].title == base[w].title);
                }
                assert(prev.fresh.contains(prev.entries[w]));
                let j = choose|j: int| 0 <= j < prev.fresh.len() && prev.fresh[j] == prev.entries[w];
                assert(next.fresh[j].title == candidates[k].title);
            } else {
                assert(next.fresh[prev.fresh.len() as int] == made);
            }
        }
        assert forall|i: int| base.len() <= i < next.entries.len() implies next.fresh.contains(
            #[trigger] next.entries[i],
        ) by {
            if i < prev.entries.len() {
                assert(prev.entries[i].last_seen == now);
                assert(next.entries[i] == prev.entries[i]);
                assert(prev.fresh.contains(prev.entries[i]));
                let j = choose|j: int| 0 <= j < prev.fresh.len() && prev.fresh[j] == prev.entries[i];
                assert(next.fresh[j] == next.entries[i]);
            } else {
                assert(next.fresh[prev.fresh.len() as int] == next.entries[i]);
            }
        }
        if persist {
            assert forall|j: int| 0 <= j < next.fresh.len() implies next.entries.contains(
                #[trigger] next.fresh[j],
            ) by {
                if j < prev.fresh.len() {
                    assert(prev.entries.contains(prev.fresh[j]));
                    let i = choose|i: int|
                        0 <= i < prev.entries.len() && prev.entries[i] == prev.fresh[j];
                    assert(prev.fresh[j].last_seen == now);
                    assert(next.entries[i] == next.fresh[j]);
                } else {
                    assert(next.entries[prev.entries.len() as int] == next.fresh[j]);
                }
            }
        }
    }
}

/// After the first run, the entries reported are those of the candidates
/// whose title was not on record: each entry reported is made from such a
/// candidate, first and last seen at `now`, and each such candidate has an
/// entry of its title among those reported.
pub proof fn lemma_reported_are_the_unknown(
    candidates: Seq<NewsEntryView>,
    fetch_succeeded: bool,
    now: u64,
    force_mark_seen: bool,
    auto_mark_seen: bool,
    prune_missing_after: u64,
    prune_age_after: u64,
    existing: CacheFileView,
)
    requires
        existing.cache_version == CACHE_VERSION,
    ensures
        ({
            let reported = reconciled(
                candidates,
                fetch_succeeded,
                now,
                force_mark_seen,
                auto_mark_seen,
                prune_missing_after,
                prune_age_after,
                existing,
                false,
            ).new_entries;
            &&& forall|j: int|
                0 <= j < reported.len() ==> made_from_unknown(
                    #[trigger] reported[j],
                    candidates,
                    existing.entries,
                    now,
                )
            &&& forall|k: int|
                0 <= k < candidates.len() && !knows_title(
                    existing.entries,
                    (#[trigger] candidates[k]).title,
                ) ==> knows_title(reported, candidates[k].title)
        }),
{
    lemma_absorb_fresh(existing.entries, candidates, now, force_mark_seen || auto_mark_seen);
}

/// Where entries found new are not marked as seen, they stay out of the
/// record: the record holds no title after the run that it did not hold
/// before. After the first run each candidate that was not on record is
/// reported as it was found.
pub proof fn lemma_deferred_stay_out(
    candidates: Seq<NewsEntryView>,
    fetch_succeeded: bool,
    now: u64,
    prune_missing_after: u64,
    prune_age_after: u64,
    existing: CacheFileView,
    was_first_run: bool,
)
    ensures
        ({
            let outcome = reconciled(
                candidates,
                fetch_succeeded,
                now,
                false,
                false,
                prune_missing_after,
                prune_age_after,
                existing,
                was_first_run,
            );
            &&& forall|title: Seq<char>|
                knows_title(outcome.updated_cache.entries, title) ==> knows_title(
                    guarded(existing).entries,
                    title,
                )
            &&& !counts_as_first_run(existing, was_first_run) ==> forall|k: int|
                0 <= k < candidates.len() && !knows_title(
                    existing.entries,
                    (#[trigger] candidates[k]).title,
                ) ==> outcome.new_entries.contains(fresh_entry(candidates[k], now))
        }),
{
    let base = guarded(existing).entries;
    let intake = intake_of(candidates, now, false, false, existing);
    let missing_threshold = threshold(now, prune_missing_after);
    let age_threshold = threshold(now, prune_age_after);
    let kept = retained(intake.entries, missing_threshold, age_threshold);
    lemma_absorb_shape(base, candidates, now, false);
    lemma_absorb_fresh(base, candidates, now, false);
    assert forall|title: Seq<char>| knows_title(kept, title) implies knows_title(base, title) by {
        let i = choose|i: int| 0 <= i < kept.len() && kept[i].title == title;
        let from = lemma_retained_from(intake.entries, missing_threshold, age_threshold, i);
        assert(intake.entries[from].title == base[from].title);
    }
}

/// Where entries found new are marked as seen, every candidate's title is
/// on record after the run, and every entry reported is in the record.
pub proof fn lemma_marked_are_recorded(
    candidates: Seq<NewsEntryView>,
    fetch_succeeded: bool,
    now: u64,
    force_mark_seen: bool,
    auto_mark_seen: bool,
    prune_missing_after: u64,
    prune_age_after: u64,
    existing: CacheFileView,
    was_first_run: bool,
)
    requires
        force_mark_seen || auto_mark_seen,
    ensures
        ({
            let outcome = reconciled(
                candidates,
                fetch_succeeded,
                now,
                force_mark_seen,
                auto_mark_seen,
                prune_missing_after,
                prune_age_after,
                existing,
                was_first_run,
            );
            &&& forall|k: int|
                0 <= k < candidates.len() ==> knows_title(
                    outcome.updated_cache.entries,
                    (#[trigger] candidates[k]).title,
                )
            &&& forall|j: int|
                0 <= j < outcome.new_entries.len() ==> outcome.updated_cache.entries.contains(
                    #[trigger] outcome.new_entries[j],
                )
        }),
{
    let base = guarded(existing).entries;
    let intake = intake_of(candidates, now, force_mark_seen, auto_mark_seen, existing);
    let missing_threshold = threshold(now, prune_missing_after);
    let age_threshold = threshold(now, prune_age_after);
    let keep = keeps(missing_threshold, age_threshold);
    let kept = retained(intake.entries, missing_threshold, age_threshold);
    lemma_absorb_settles(base, candidates, now, true);
    lemma_absorb_fresh(base, candidates, now, true);
    lemma_absorb_shape(base, candidates, now, true);
    assert forall|k: int| 0 <= k < candidates.len() implies knows_title(
        kept,
        (#[trigger] candidates[k]).title,
    ) by {
        let title = candidates[k].title;
        let i = choose|i: int|
            is_first_with_title(intake.entries, title, i) && (#[trigger] intake.entries[i]).last_seen
                == now;
        let at = lemma_retained_keeps_first(intake.entries, missing_threshold, age_threshold, title, i);
        assert(kept[at].title == title);
    }
    let outcome = reconciled(
        candidates,
        fetch_succeeded,
        now,
        force_mark_seen,
        auto_mark_seen,
        prune_missing_after,
        prune_age_after,
        existing,
        was_first_run,
    );
    assert forall|j: int| 0 <= j < outcome.new_entries.len() implies kept.contains(
        #[trigger] outcome.new_entries[j],
    ) by {
        assert(outcome.new_entries[j] == intake.fresh[j]);
        assert(intake.entries.contains(intake.fresh[j]));
        let i = choose|i: int| 0 <= i < intake.entries.len() && intake.entries[i] == intake.fresh[j];
        assert(intake.fresh[j].last_seen == now);
        intake.entries.lemma_filter_contains(keep, i);
    }
}

/// Taking candidates in leaves no two entries with the same title, where
/// there were none before.
proof fn lemma_absorb_distinct(
    base: Seq<CachedEntryView>,
    candidates: Seq<NewsEntryView>,
    now: u64,
    persist: bool,
)
    requires
        distinct_titles(base),
    ensures
        distinct_titles(absorb(base, candidates, now, persist).entries),
    decreases candidates.len(),
{
    if candidates.len() > 0 {
        let candidate = candidates.last();
        lemma_absorb_distinct(base, candidates.drop_last(), now, persist);
        let prev = absorb(base, candidates.drop_last(), now, persist);
        let next = take_in(prev, candidate, now, persist);
        assert(next == absorb(base, candidates, now, persist));
        assert forall|i: int, j: int| 0 <= i < j < next.entries.len() implies (
        #[trigger] next.entries[i]).title != (#[trigger] next.entries[j]).title by {
            if knows_title(prev.entries, candidate.title) {
                assert(next.entries[i].title == prev.entries[i].title);
                assert(next.entries[j].title == prev.entries[j].title);
            } else if j < prev.entries.len() {
                assert(next.entries[i] == prev.entries[i]);
                assert(next.entries[j] == prev.entries[j]);
            } else {
                assert(next.entries[i] == prev.entries[i]);
            }
        }
    }
}

/// Forgetting stale entries leaves no two entries with the same title,
/// where there were none before.
proof fn lemma_retained_distinct(
    entries: Seq<CachedEntryView>,
    missing_threshold: u64,
    age_threshold: u64,
)
    requires
        distinct_titles(entries),
    ensures
        distinct_titles(retained(entries, missing_threshold, age_threshold)),
    decreases entries.len(),
{
    let keep = keeps(missing_threshold, age_threshold);
    let kept = retained(entries, missing_threshold, age_threshold);
    if entries.len() == 0 {
        entries.lemma_filter_len(keep);
    } else {
        let rest = entries.drop_last();
        let last = entries.last();
        assert(entries =~= rest.push(last));
        assert forall|i: int, j: int| 0 <= i < j < rest.len() implies (#[trigger] rest[i]).title != (
        #[trigger] rest[j]).title by {
            assert(rest[i] == entries[i]);
            assert(rest[j] == entries[j]);
        }
        lemma_retained_distinct(rest, missing_threshold, age_threshold);
        rest.lemma_filter_push(last, keep);
        let kept_rest = retained(rest, missing_threshold, age_threshold);
        assert forall|i: int, j: int| 0 <= i < j < kept.len() implies (#[trigger] kept[i]).title != (
        #[trigger] kept[j]).title by {
            if j < kept_rest.len() {
                assert(kept[i] == kept_rest[i]);
                assert(kept[j] == kept_rest[j]);
            } else {
                let from = lemma_retained_from(rest, missing_threshold, age_threshold, i);
                assert(kept[i] == kept_rest[i]);
                assert(rest[from] == entries[from]);
                assert(kept[j] == entries[entries.len() - 1]);
            }
        }
    }
}

/// A record in which no two entries bear the same title is still such a
/// record after a reconciliation.
pub proof fn lemma_titles_stay_distinct(
    candidates: Seq<NewsEntryView>,
    fetch_succeeded: bool,
    now: u64,
    force_mark_seen: bool,
    auto_mark_seen: bool,
    prune_missing_after: u64,
    prune_age_after: u64,
    existing: CacheFileView,
    was_first_run: bool,
)
    requires
        distinct_titles(guarded(existing).entries),
    ensures
        distinct_titles(
            reconciled(
                candidates,
                fetch_succeeded,
                now,
                force_mark_seen,
                auto_mark_seen,
                prune_missing_after,
                prune_age_after,
                existing,
                was_first_run,
            ).updated_cache.entries,
        ),
{
    let persist = force_mark_seen || auto_mark_seen;
    lemma_absorb_distinct(guarded(existing).entries, candidates, now, persist);
    lemma_retained_distinct(
        intake_of(candidates, now, force_mark_seen, auto_mark_seen, existing).entries,
        threshold(now, prune_missing_after),
        threshold(now, prune_age_after),
    );
}

/// Where forgetting the stale entries leaves as many entries as there
/// were, it leaves them all.
proof fn lemma_retained_all(
    entries: Seq<CachedEntryView>,
    missing_threshold: u64,
    age_threshold: u64,
)
    requires
        retained(entries, missing_threshold, age_threshold).len() == entries.len(),
    ensures
        retained(entries, missing_threshold, age_threshold) == entries,
    decreases entries.len(),
{
    let keep = keeps(missing_threshold, age_threshold);
    entries.lemma_filter_len(keep);
    if entries.len() > 0 {
        let rest = entries.drop_last();
        let last = entries.last();
        assert(entries =~= rest.push(last));
        rest.lemma_filter_push(last, keep);
        rest.lemma_filter_len(keep);
        lemma_retained_all(rest, missing_threshold, age_threshold);
    } else {
        assert(entries.filter(keep) =~= entries);
    }
}

/// A run that does not mark the record as changed has left it as it was:
/// whatever a run changes in the record, it marks for writing out.
pub proof fn lemma_unchanged_record_is_the_same(
    candidates: Seq<NewsEntryView>,
    fetch_succeeded: bool,
    now: u64,
    force_mark_seen: bool,
    auto_mark_seen: bool,
    prune_missing_after: u64,
    prune_age_after: u64,
    existing: CacheFileView,
    was_first_run: bool,
)
    requires
        !reconciled(
            candidates,
            fetch_succeeded,
            now,
            force_mark_seen,
            auto_mark_seen,
            prune_missing_after,
            prune_age_after,
            existing,
            was_first_run,
        ).changed,
    ensures
        reconciled(
            candidates,
            fetch_succeeded,
            now,
            force_mark_seen,
            auto_mark_seen,
            prune_missing_after,
            prune_age_after,
            existing,
            was_first_run,
        ).updated_cache == existing,
{
    let intake = intake_of(candidates, now, force_mark_seen, auto_mark_seen, existing);
    assert(intake.entries == existing.entries);
    lemma_retained_all(
        existing.entries,
        threshold(now, prune_missing_after),
        threshold(now, prune_age_after),
    );
}

/// A run that moves the time of the last successful reading marks the
/// record as changed, whatever else it does.
pub proof fn lemma_moved_stamp_is_written(
    candidates: Seq<NewsEntryView>,
    now: u64,
    force_mark_seen: bool,
    auto_mark_seen: bool,
    prune_missing_after: u64,
    prune_age_after: u64,
    existing: CacheFileView,
    was_first_run: bool,
)
    requires
        guarded(existing).last_successful_request != Some(now),
    ensures
        reconciled(
            candidates,
            true,
            now,
            force_mark_seen,
            auto_mark_seen,
            prune_missing_after,
            prune_age_after,
            existing,
            was_first_run,
        ).changed,
{
}

/// A first run marks the record as changed, so that the baseline is
/// written out even where there is no candidate.
pub proof fn lemma_first_run_is_written(
    candidates: Seq<NewsEntryView>,
    fetch_succeeded: bool,
    now: u64,
    force_mark_seen: bool,
    auto_mark_seen: bool,
    prune_missing_after: u64,
    prune_age_after: u64,
    existing: CacheFileView,
)
    ensures
        reconciled(
            candidates,
            fetch_succeeded,
            now,
            force_mark_seen,
            auto_mark_seen,
            prune_missing_after,
            prune_age_after,
            existing,
            true,
        ).changed,
{
}

} // verus!
