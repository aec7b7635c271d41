//! Feed entries and the keyword matcher.

use vstd::prelude::*;
use vstd::utf8::encode_utf8;
use crate::config::{Config, ConfigView};
use crate::text::{
    ascii_lower, is_substring, str_contains, str_to_ascii_lowercase, text_of, views_of,
};

verus! {

/// One entry of a news feed.
#[derive(Debug, PartialEq)]
pub struct NewsEntry {
    pub title: String,
    pub summary: String,
    pub link: String,
}

/// What a `NewsEntry` holds, as plain text.
pub struct NewsEntryView {
    pub title: Seq<char>,
    pub summary: Seq<char>,
    pub link: Seq<char>,
}

impl View for NewsEntry {
    type V = NewsEntryView;

    open spec fn view(&self) -> NewsEntryView {
        NewsEntryView { title: self.title@, summary: self.summary@, link: self.link@ }
    }
}

impl Clone for NewsEntry {
    fn clone(&self) -> (copy: Self)
        ensures
            copy@ == self@,
    {
        NewsEntry {
            title: self.title.clone(),
            summary: self.summary.clone(),
            link: self.link.clone(),
        }
    }
}

/// The views of a list of feed entries, in order.
pub open spec fn news_views(entries: Seq<NewsEntry>) -> Seq<NewsEntryView> {
    Seq::new(entries.len(), |i: int| entries[i]@)
}

/// The entries of one reading of the feeds that matter to the user, and the
/// time of that reading if it brought any entry at all.
#[derive(Debug)]
pub struct ManualInterventionResult {
    pub entries: Vec<NewsEntry>,
    pub last_successful_request: Option<u64>,
}

/// `text` as keywords are compared with it: as it stands where case counts,
/// with its ASCII capitals lowered where it does not.
pub open spec fn folded(text: Seq<char>, case_sensitive: bool) -> Seq<char> {
    if case_sensitive {
        text
    } else {
        ascii_lower(text)
    }
}

/// Some keyword, taken as it stands, occurs in `text` once folded.
pub open spec fn any_keyword_in(keywords: Seq<Seq<char>>, text: Seq<char>, case_sensitive: bool) -> bool {
    exists|i: int|
        0 <= i < keywords.len() && is_substring(folded(text, case_sensitive), #[trigger] keywords[i])
}

/// The keywords, each folded.
pub open spec fn folded_keywords(keywords: Seq<Seq<char>>, case_sensitive: bool) -> Seq<Seq<char>> {
    Seq::new(keywords.len(), |i: int| folded(keywords[i], case_sensitive))
}

/// Some keyword occurs in the entry's title, or in its summary where the
/// summary is searched too, keywords and text both folded.
pub open spec fn entry_hits(
    keywords: Seq<Seq<char>>,
    entry: NewsEntryView,
    case_sensitive: bool,
    include_summary: bool,
) -> bool {
    let keywords = folded_keywords(keywords, case_sensitive);
    any_keyword_in(keywords, entry.title, case_sensitive) || (include_summary && any_keyword_in(
        keywords,
        entry.summary,
        case_sensitive,
    ))
}

/// The entry matters under `config`: no ignored keyword occurs in it, and
/// either every entry is wanted or some keyword occurs in it.
pub open spec fn is_candidate(entry: NewsEntryView, config: ConfigView) -> bool {
    &&& !entry_hits(
        config.ignored_keywords,
        entry,
        config.case_sensitive,
        config.include_summary_in_query,
    )
    &&& (config.match_all_entries || entry_hits(
        config.keywords,
        entry,
        config.case_sensitive,
        config.include_summary_in_query,
    ))
}

/// The test that picks the entries that matter under `config`.
pub open spec fn candidate_test(config: ConfigView) -> spec_fn(NewsEntryView) -> bool {
    |entry: NewsEntryView| is_candidate(entry, config)
}

/// An entry in which an ignored keyword occurs is no candidate, whatever
/// the keywords are and whether or not every entry is wanted.
pub proof fn lemma_ignored_keywords_win(entry: NewsEntryView, config: ConfigView)
    requires
        entry_hits(
            config.ignored_keywords,
            entry,
            config.case_sensitive,
            config.include_summary_in_query,
        ),
    ensures
        !is_candidate(entry, config),
{
}

/// Every entry that is picked is a candidate and stood among the entries
/// offered.
pub proof fn lemma_picked_are_candidates(
    entries: Seq<NewsEntryView>,
    config: ConfigView,
    picked: NewsEntryView,
)
    requires
        entries.filter(candidate_test(config)).contains(picked),
    ensures
        is_candidate(picked, config),
        entries.contains(picked),
{
    let test = candidate_test(config);
    let found = entries.filter(test);
    let i = choose|i: int| 0 <= i < found.len() && found[i] == picked;
    entries.lemma_filter_pred(test, i);
    entries.lemma_filter_contains_rev(test, picked);
}

/// Tells whether one of the keywords, taken as they stand, occurs in `strs`
/// once folded.
pub fn match_kw(kws: &[String], strs: &str, case_sensitive: bool) -> (hit: bool)
    ensures
        hit == any_keyword_in(views_of(kws@), strs@, case_sensitive),
{
    let text = if case_sensitive {
        strs.to_owned()
    } else {
        str_to_ascii_lowercase(strs)
    };
    let mut i: usize = 0;
    while i < kws.len()
        invariant
            i <= kws.len(),
            text@ == folded(strs@, case_sensitive),
            forall|j: int| 0 <= j < i ==> !is_substring(text@, #[trigger] views_of(kws@)[j]),
        decreases kws.len() - i,
    {
        if str_contains(text.as_str(), kws[i].as_str()) {
            assert(is_substring(text@, views_of(kws@)[i as int]));
            return true;
        }
        i += 1;
    }
    false
}

/// Tells whether one of the keywords occurs in the entry's title, or in its
/// summary where `config` has the summary searched.
pub fn match_kw_all(kws: &[String], entry: &NewsEntry, config: &Config) -> (hit: bool)
    ensures
        hit == entry_hits(
            views_of(kws@),
            entry@,
            config.case_sensitive,
            config.include_summary_in_query,
        ),
{
    let ghost wanted = folded_keywords(views_of(kws@), config.case_sensitive);
    let mut folded_kws: Vec<String> = Vec::new();
    let mut i: usize = 0;
    while i < kws.len()
        invariant
            i <= kws.len(),
            wanted == folded_keywords(views_of(kws@), config.case_sensitive),
            views_of(folded_kws@) =~= wanted.take(i as int),
        decreases kws.len() - i,
    {
        let kw = if config.case_sensitive {
            kws[i].clone()
        } else {
            str_to_ascii_lowercase(kws[i].as_str())
        };
        assert(kw@ == wanted[i as int]) by {
            assert(views_of(kws@)[i as int] == kws@[i as int]@);
        }
        let ghost before = views_of(folded_kws@);
        folded_kws.push(kw);
        assert(views_of(folded_kws@) =~= before.push(kw@));
        i += 1;
    }
    assert(views_of(folded_kws@) =~= wanted);
    let in_title = match_kw(folded_kws.as_slice(), entry.title.as_str(), config.case_sensitive);
    in_title || (config.include_summary_in_query && match_kw(
        folded_kws.as_slice(),
        entry.summary.as_str(),
        config.case_sensitive,
    ))
}

/// Picks the entries that matter under `config`, in their order: first
/// those with an ignored keyword are dropped, then all are kept or those
/// with a keyword.
pub fn matches(entries: Vec<NewsEntry>, config: &Config) -> (found: Vec<NewsEntry>)
    ensures
        news_views(found@) == news_views(entries@).filter(candidate_test(config@)),
{
    let ghost all = news_views(entries@);
    let ghost test = candidate_test(config@);
    let mut found: Vec<NewsEntry> = Vec::new();
    let mut i: usize = 0;
    assert(all.take(0) =~= Seq::empty());
    assert(news_views(found@) =~= all.take(0).filter(test));
    while i < entries.len()
        invariant
            i <= entries.len(),
            all == news_views(entries@),
            test == candidate_test(config@),
            news_views(found@) == all.take(i as int).filter(test),
        decreases entries.len() - i,
    {
        let entry = &entries[i];
        proof {
            assert(all.take(i as int + 1) =~= all.take(i as int).push(entry@));
            all.take(i as int).lemma_filter_push(entry@, test);
        }
        let ignored = match_kw_all(config.ignored_keywords.as_slice(), entry, config);
        if !ignored && (config.match_all_entries || match_kw_all(
            config.keywords.as_slice(),
            entry,
            config,
        )) {
            let ghost before = news_views(found@);
            found.push(entry.clone());
            assert(news_views(found@) =~= before.push(entry@));
        }
        i += 1;
    }
    assert(all.take(i as int) =~= all);
    found
}

/// Sums up one reading of the feeds: the entries that matter under
/// `config`, and `start_time` as the time of the last successful reading
/// where the feeds brought any entry at all.
pub fn check_for_manual_intervention(entries: Vec<NewsEntry>, start_time: u64, config: &Config) -> (result:
    ManualInterventionResult)
    ensures
        news_views(result.entries@) == news_views(entries@).filter(candidate_test(config@)),
        result.last_successful_request == if entries@.len() > 0 {
            Some(start_time)
        } else {
            None
        },
{
    let last_successful_request = if entries.len() > 0 {
        Some(start_time)
    } else {
        None
    };
    let found_entries = matches(entries, config);
    ManualInterventionResult { entries: found_entries, last_successful_request }
}

/// One item of a feed as the feed holds it: each part may be missing, and
/// the texts may hold markup.
#[derive(Debug)]
pub struct FeedItem {
    pub title: Option<String>,
    pub content: Option<String>,
    pub description: Option<String>,
    pub link: Option<String>,
}

/// What a `FeedItem` holds, as plain text.
pub struct FeedItemView {
    pub title: Option<Seq<char>>,
    pub content: Option<Seq<char>>,
    pub description: Option<Seq<char>>,
    pub link: Option<Seq<char>>,
}

impl View for FeedItem {
    type V = FeedItemView;

    open spec fn view(&self) -> FeedItemView {
        FeedItemView {
            title: text_of(self.title),
            content: text_of(self.content),
            description: text_of(self.description),
            link: text_of(self.link),
        }
    }
}

/// The views of a list of feed items, in order.
pub open spec fn item_views(items: Seq<FeedItem>) -> Seq<FeedItemView> {
    Seq::new(items.len(), |i: int| items[i]@)
}

/// The part of an item if it is there, `placeholder` if it is not.
pub open spec fn part_or(part: Option<Seq<char>>, placeholder: Seq<char>) -> Seq<char> {
    match part {
        Some(text) => text,
        None => placeholder,
    }
}

/// The length in bytes of a text in UTF-8, as its string reports it.
pub open spec fn byte_length(text: Seq<char>) -> usize {
    encode_utf8(text).len() as usize
}

/// The text that an item's summary is made from: its content where that is
/// longer in bytes than its description, else its description; the one
/// that is there where only one is; a placeholder where neither is.
pub open spec fn summary_source(content: Option<Seq<char>>, description: Option<Seq<char>>) -> Seq<
    char,
> {
    match (content, description) {
        (None, None) => "[No summary provided]"@,
        (Some(c), Some(d)) => if byte_length(c) > byte_length(d) {
            c
        } else {
            d
        },
        (None, Some(d)) => d,
        (Some(c), None) => c,
    }
}

/// The plain text that `nanohtml2text::html2text` makes of a piece of HTML.
pub uninterp spec fn html_as_text(html: Seq<char>) -> Seq<char>;

/// The feed entry that an item stands for: its title and link, or a
/// placeholder for each that is missing, and its summary as plain text.
pub open spec fn entry_of(item: FeedItemView) -> NewsEntryView {
    NewsEntryView {
        title: part_or(item.title, "[No title provided]"@),
        summary: html_as_text(summary_source(item.content, item.description)),
        link: part_or(item.link, "[No link provided]"@),
    }
}

/// The feed entries that the items stand for, in order.
pub open spec fn entries_of(items: Seq<FeedItemView>) -> Seq<NewsEntryView> {
    Seq::new(items.len(), |i: int| entry_of(items[i]))
}

/// Trusted: `nanohtml2text::html2text`, which strips the markup from a piece
/// of HTML. Its result depends on the text alone and is only given a name.
#[verifier::external_body]
fn html_to_text(html: &str) -> (text: String)
    ensures
        text@ == html_as_text(html@),
{
    nanohtml2text::html2text(html)
}

/// Picks the text that an item's summary is made from.
pub fn pick_summary(content: Option<String>, description: Option<String>) -> (source: String)
    ensures
        source@ == summary_source(text_of(content), text_of(description)),
{
    match (content, description) {
        (None, None) => "[No summary provided]".to_owned(),
        (Some(c), Some(d)) => {
            if c.as_str().len() > d.as_str().len() {
                c
            } else {
                d
            }
        },
        (None, Some(d)) => d,
        (Some(c), None) => c,
    }
}

/// Puts a feed entry together from an item's title and link, with a
/// placeholder for each that is missing, and from its summary as it is to
/// be shown.
pub fn assemble_entry(title: Option<String>, summary: String, link: Option<String>) -> (entry:
    NewsEntry)
    ensures
        entry@ == (NewsEntryView {
            title: part_or(text_of(title), "[No title provided]"@),
            summary: summary@,
            link: part_or(text_of(link), "[No link provided]"@),
        }),
{
    let title = match title {
        Some(text) => text,
        None => "[No title provided]".to_owned(),
    };
    let link = match link {
        Some(text) => text,
        None => "[No link provided]".to_owned(),
    };
    NewsEntry { title, summary, link }
}

/// Turns one item of a feed into a feed entry.
pub fn entry_from_item(item: FeedItem) -> (entry: NewsEntry)
    ensures
        entry@ == entry_of(item@),
{
    let source = pick_summary(item.content, item.description);
    let summary = html_to_text(source.as_str());
    assemble_entry(item.title, summary, item.link)
}

/// Turns the items of a feed into feed entries, in order.
pub fn entries_from_items(items: Vec<FeedItem>) -> (entries: Vec<NewsEntry>)
    ensures
        news_views(entries@) == entries_of(item_views(items@)),
{
    let ghost all = items@;
    let ghost wanted = entries_of(item_views(all));
    let mut entries: Vec<NewsEntry> = Vec::new();
    for item in iter: items
        invariant
            iter.seq() == all,
            wanted == entries_of(item_views(all)),
            news_views(entries@) =~= wanted.take(iter.index() as int),
    {
        let ghost before = news_views(entries@);
        let entry = entry_from_item(item);
        entries.push(entry);
        assert(news_views(entries@) =~= before.push(entry@));
    }
    assert(news_views(entries@) =~= wanted);
    entries
}

/// Declares `rss::Error`, the error of a document that is no feed. It is
/// carried from the parser to `error_text` and not looked into.
#[verifier::external_type_specification]
#[verifier::external_body]
pub struct ExChannelError(::rss::Error);

/// The items that `rss::Channel::read_from` finds in a document, in the
/// order in which it gives them, or `None` where it turns the document
/// down.
pub uninterp spec fn channel_items(document: Seq<u8>) -> Option<Seq<FeedItemView>>;

/// Trusted: `rss::Channel::read_from` on a document held in memory. What it
/// makes of a document depends on the bytes alone and is only given a name;
/// of each item the title, content, description and link are handed on.
#[verifier::external_body]
fn read_channel(document: &[u8]) -> (parsed: Result<Vec<FeedItem>, ::rss::Error>)
    ensures
        match parsed {
            Ok(items) => channel_items(document@) == Some(item_views(items@)),
            Err(_) => channel_items(document@) is None,
        },
{
    match ::rss::Channel::read_from(document) {
        Ok(channel) => Ok(
            channel.items.into_iter().map(
                |item|
                    FeedItem {
                        title: item.title,
                        content: item.content,
                        description: item.description,
                        link: item.link,
                    },
            ).collect(),
        ),
        Err(error) => Err(error),
    }
}

/// Trusted: the `Display` form of an `rss::Error`. Nothing is claimed of the
/// text.
#[verifier::external_body]
fn error_text(error: &::rss::Error) -> String {
    format!("{error}")
}

/// A document that is no feed, with the parser's words for what is wrong.
#[derive(Debug)]
pub struct FeedError {
    pub reason: String,
}

/// Reads the entries out of a feed document: the items that the parser
/// finds, in its order, each turned into a feed entry. A document that the parser turns down is an
/// error.
pub fn parse_feed(document: &[u8]) -> (parsed: Result<Vec<NewsEntry>, FeedError>)
    ensures
        match parsed {
            Ok(entries) => match channel_items(document@) {
                Some(items) => news_views(entries@) == entries_of(items),
                None => false,
            },
            Err(_) => channel_items(document@) is None,
        },
{
    match read_channel(document) {
        Ok(items) => Ok(entries_from_items(items)),
        Err(error) => Err(FeedError { reason: error_text(&error) }),
    }
}

} // verus!
