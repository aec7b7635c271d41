//! The check on headlines alone: no settings and a fixed list of keywords.

use vstd::prelude::*;
use crate::text::{is_substring, lowercase_of, str_contains, str_to_lowercase, text_of};

verus! {

/// One entry of a news feed, by title and summary.
#[derive(Debug, PartialEq)]
pub struct NewsEntry {
    pub title: String,
    pub summary: String,
}

/// What a `NewsEntry` holds, as plain text.
pub struct NewsEntryView {
    pub title: Seq<char>,
    pub summary: Seq<char>,
}

impl View for NewsEntry {
    type V = NewsEntryView;

    open spec fn view(&self) -> NewsEntryView {
        NewsEntryView { title: self.title@, summary: self.summary@ }
    }
}

impl Clone for NewsEntry {
    fn clone(&self) -> (copy: Self)
        ensures
            copy@ == self@,
    {
        NewsEntry { title: self.title.clone(), summary: self.summary.clone() }
    }
}

/// The views of a list of entries, in order.
pub open spec fn news_views(entries: Seq<NewsEntry>) -> Seq<NewsEntryView> {
    Seq::new(entries.len(), |i: int| entries[i]@)
}

/// The entries that call for the user's attention, and whether there is any.
#[derive(Debug)]
pub struct ManualInterventionResult {
    pub found: bool,
    pub entries: Vec<NewsEntry>,
}

/// One of the fixed keywords occurs in `lowered`, a title in lower case.
pub open spec fn is_alarming(lowered: Seq<char>) -> bool {
    ||| is_substring(lowered, "manual intervention"@)
    ||| is_substring(lowered, "action required"@)
    ||| is_substring(lowered, "attention"@)
    ||| is_substring(lowered, "intervention"@)
}

/// The entry's title, in lower case, holds one of the fixed keywords.
pub open spec fn calls_for_attention(entry: NewsEntryView) -> bool {
    is_alarming(lowercase_of(entry.title))
}

/// The test that picks the entries that call for attention.
pub open spec fn attention_test() -> spec_fn(NewsEntryView) -> bool {
    |entry: NewsEntryView| calls_for_attention(entry)
}

/// Tells whether one of the fixed keywords occurs in `lowered`, a title in
/// lower case.
pub fn mentions_keyword(lowered: &str) -> (hit: bool)
    ensures
        hit == is_alarming(lowered@),
{
    str_contains(lowered, "manual intervention") || str_contains(lowered, "action required")
        || str_contains(lowered, "attention") || str_contains(lowered, "intervention")
}

/// Picks the entries whose title holds one of the fixed keywords, whatever
/// its case, and tells whether there is any.
pub fn check_for_manual_intervention(entries: &Vec<NewsEntry>) -> (result: ManualInterventionResult)
    ensures
        news_views(result.entries@) == news_views(entries@).filter(attention_test()),
        result.found == (result.entries@.len() > 0),
{
    let ghost all = news_views(entries@);
    let ghost test = attention_test();
    let mut found_entries: Vec<NewsEntry> = Vec::new();
    let mut i: usize = 0;
    assert(all.take(0) =~= Seq::empty());
    assert(news_views(found_entries@) =~= all.take(0).filter(test));
    while i < entries.len()
        invariant
            i <= entries.len(),
            all == news_views(entries@),
            test == attention_test(),
            news_views(found_entries@) == all.take(i as int).filter(test),
        decreases entries.len() - i,
    {
        let entry = &entries[i];
        proof {
            assert(all.take(i as int + 1) =~= all.take(i as int).push(entry@));
            all.take(i as int).lemma_filter_push(entry@, test);
        }
        let text = str_to_lowercase(entry.title.as_str());
        if mentions_keyword(text.as_str()) {
            let ghost before = news_views(found_entries@);
            found_entries.push(entry.clone());
            assert(news_views(found_entries@) =~= before.push(entry@));
        }
        i += 1;
    }
    assert(all.take(i as int) =~= all);
    let found = found_entries.len() > 0;
    ManualInterventionResult { found, entries: found_entries }
}

/// The title and the summary of one entry of a feed, each if it is there.
pub struct Headline {
    pub title: Option<String>,
    pub summary: Option<String>,
}

/// What a `Headline` holds, as plain text.
pub struct HeadlineView {
    pub title: Option<Seq<char>>,
    pub summary: Option<Seq<char>>,
}

impl View for Headline {
    type V = HeadlineView;

    open spec fn view(&self) -> HeadlineView {
        HeadlineView { title: text_of(self.title), summary: text_of(self.summary) }
    }
}

/// The views of a list of headlines, in order.
pub open spec fn headline_views(headlines: Seq<Headline>) -> Seq<HeadlineView> {
    Seq::new(headlines.len(), |i: int| headlines[i]@)
}

/// The entry that a headline stands for, with a placeholder for each part
/// that is missing.
pub open spec fn entry_of(headline: HeadlineView) -> NewsEntryView {
    NewsEntryView {
        title: match headline.title {
            Some(text) => text,
            None => "[No title provided]"@,
        },
        summary: match headline.summary {
            Some(text) => text,
            None => "[No summary provided]"@,
        },
    }
}

/// The entries that the headlines stand for, in order.
pub open spec fn entries_of(headlines: Seq<HeadlineView>) -> Seq<NewsEntryView> {
    Seq::new(headlines.len(), |i: int| entry_of(headlines[i]))
}

/// Turns a headline into an entry.
pub fn entry_from_headline(headline: Headline) -> (entry: NewsEntry)
    ensures
        entry@ == entry_of(headline@),
{
    let title = match headline.title {
        Some(text) => text,
        None => "[No title provided]".to_owned(),
    };
    let summary = match headline.summary {
        Some(text) => text,
        None => "[No summary provided]".to_owned(),
    };
    NewsEntry { title, summary }
}

/// Turns headlines into entries, in order.
pub fn entries_from_headlines(headlines: Vec<Headline>) -> (entries: Vec<NewsEntry>)
    ensures
        news_views(entries@) == entries_of(headline_views(headlines@)),
{
    let ghost all = headlines@;
    let ghost wanted = entries_of(headline_views(all));
    let mut entries: Vec<NewsEntry> = Vec::new();
    for headline in iter: headlines
        invariant
            iter.seq() == all,
            wanted == entries_of(headline_views(all)),
            news_views(entries@) =~= wanted.take(iter.index() as int),
    {
        let ghost before = news_views(entries@);
        let entry = entry_from_headline(headline);
        entries.push(entry);
        assert(news_views(entries@) =~= before.push(entry@));
    }
    assert(news_views(entries@) =~= wanted);
    entries
}

} // verus!
