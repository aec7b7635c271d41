//! The settings that steer matching, retention and reporting, and how they
//! are made up from what a configuration file gives.

use vstd::prelude::*;
use vstd::string::StringExecFns;
use crate::text::{text_of, views_of};

verus! {

/// The settings of one installation.
#[derive(Debug)]
pub struct Config {
    /// Keywords to search for in news entries.
    pub keywords: Vec<String>,
    /// Whether every news entry is of interest, not just those with a keyword.
    pub match_all_entries: bool,
    /// Keywords that rule an entry out, whatever else it holds.
    pub ignored_keywords: Vec<String>,
    /// Whether keywords are compared with their case.
    pub case_sensitive: bool,
    /// Whether keywords are looked for in the summary as well as in the title.
    pub include_summary_in_query: bool,
    /// Days an entry may be absent from the feed before it can be forgotten.
    pub prune_missing_days: u64,
    /// Days an entry is remembered at the least.
    pub prune_age_days: u64,
    /// Addresses of the feeds to read.
    pub rss_feed_urls: Vec<String>,
    /// Whether the summary is shown with each reported entry.
    pub show_summary: bool,
    /// Whether a reported entry is recorded as seen at once.
    pub mark_as_read_automatically: bool,
    /// Whether to warn only, without stopping the upgrade.
    pub warn_only: bool,
    /// Where the record of seen entries is kept.
    pub cache_path: String,
}

/// What a `Config` holds, as plain text, numbers and flags.
pub struct ConfigView {
    pub keywords: Seq<Seq<char>>,
    pub match_all_entries: bool,
    pub ignored_keywords: Seq<Seq<char>>,
    pub case_sensitive: bool,
    pub include_summary_in_query: bool,
    pub prune_missing_days: u64,
    pub prune_age_days: u64,
    pub rss_feed_urls: Seq<Seq<char>>,
    pub show_summary: bool,
    pub mark_as_read_automatically: bool,
    pub warn_only: bool,
    pub cache_path: Seq<char>,
}

impl View for Config {
    type V = ConfigView;

    open spec fn view(&self) -> ConfigView {
        ConfigView {
            keywords: views_of(self.keywords@),
            match_all_entries: self.match_all_entries,
            ignored_keywords: views_of(self.ignored_keywords@),
            case_sensitive: self.case_sensitive,
            include_summary_in_query: self.include_summary_in_query,
            prune_missing_days: self.prune_missing_days,
            prune_age_days: self.prune_age_days,
            rss_feed_urls: views_of(self.rss_feed_urls@),
            show_summary: self.show_summary,
            mark_as_read_automatically: self.mark_as_read_automatically,
            warn_only: self.warn_only,
            cache_path: self.cache_path@,
        }
    }
}

/// The settings of an installation that has set nothing.
pub open spec fn default_settings() -> ConfigView {
    ConfigView {
        keywords: seq!["manual intervention"@],
        match_all_entries: false,
        ignored_keywords: Seq::empty(),
        case_sensitive: false,
        include_summary_in_query: true,
        prune_missing_days: 30,
        prune_age_days: 60,
        rss_feed_urls: seq!["https://archlinux.org/feeds/news/"@],
        show_summary: false,
        mark_as_read_automatically: true,
        warn_only: false,
        cache_path: "/var/cache/arch-manwarn.json"@,
    }
}

fn one_string(text: &str) -> (list: Vec<String>)
    ensures
        views_of(list@) == seq![text@],
{
    let mut list: Vec<String> = Vec::new();
    list.push(text.to_owned());
    assert(views_of(list@) =~= seq![text@]);
    list
}

impl Default for Config {
    fn default() -> (config: Self)
        ensures
            config@ == default_settings(),
    {
        let config = Config {
            cache_path: "/var/cache/arch-manwarn.json".to_owned(),
            rss_feed_urls: one_string("https://archlinux.org/feeds/news/"),
            keywords: one_string("manual intervention"),
            ignored_keywords: Vec::new(),
            case_sensitive: false,
            include_summary_in_query: true,
            prune_missing_days: 30,
            prune_age_days: 60,
            match_all_entries: false,
            show_summary: false,
            mark_as_read_automatically: true,
            warn_only: false,
        };
        assert(views_of(config.ignored_keywords@) =~= Seq::empty());
        config
    }
}

/// Where the configuration file is looked for: at `development_path` where
/// one is given, else at its fixed place.
pub fn config_path(development_path: Option<String>) -> (path: String)
    ensures
        path@ == match development_path {
            Some(given) => given@,
            None => "/etc/arch-manwarn/config.toml"@,
        },
{
    match development_path {
        Some(given) => given,
        None => "/etc/arch-manwarn/config.toml".to_owned(),
    }
}

/// What a configuration file gives for one setting.
#[derive(Debug, PartialEq, Eq)]
pub enum Given<T> {
    /// Nothing, or a value of another type than the setting's.
    Missing,
    /// A value of the setting's type that the setting cannot hold: a
    /// negative count, or a list with a member that is no string.
    Unusable,
    /// This value.
    Value(T),
}

/// The settings that a configuration file gives.
#[derive(Debug)]
pub struct FileSettings {
    pub keywords: Given<Vec<String>>,
    pub match_all_entries: Given<bool>,
    pub ignored_keywords: Given<Vec<String>>,
    pub case_sensitive: Given<bool>,
    pub include_summary_in_query: Given<bool>,
    pub prune_missing_days: Given<u64>,
    pub prune_age_days: Given<u64>,
    pub rss_feed_urls: Given<Vec<String>>,
    pub show_summary: Given<bool>,
    pub mark_as_read_automatically: Given<bool>,
    pub warn_only: Given<bool>,
    pub cache_path: Given<String>,
}

/// What `FileSettings` hold, as plain text, numbers and flags.
pub struct FileSettingsView {
    pub keywords: Given<Seq<Seq<char>>>,
    pub match_all_entries: Given<bool>,
    pub ignored_keywords: Given<Seq<Seq<char>>>,
    pub case_sensitive: Given<bool>,
    pub include_summary_in_query: Given<bool>,
    pub prune_missing_days: Given<u64>,
    pub prune_age_days: Given<u64>,
    pub rss_feed_urls: Given<Seq<Seq<char>>>,
    pub show_summary: Given<bool>,
    pub mark_as_read_automatically: Given<bool>,
    pub warn_only: Given<bool>,
    pub cache_path: Given<Seq<char>>,
}

/// The texts of a list of strings that a file may give.
pub open spec fn list_of(found: Given<Vec<String>>) -> Given<Seq<Seq<char>>> {
    match found {
        Given::Value(list) => Given::Value(views_of(list@)),
        Given::Unusable => Given::Unusable,
        Given::Missing => Given::Missing,
    }
}

/// The text of a string that a file may give.
pub open spec fn string_of(found: Given<String>) -> Given<Seq<char>> {
    match found {
        Given::Value(text) => Given::Value(text@),
        Given::Unusable => Given::Unusable,
        Given::Missing => Given::Missing,
    }
}

impl View for FileSettings {
    type V = FileSettingsView;

    open spec fn view(&self) -> FileSettingsView {
        FileSettingsView {
            keywords: list_of(self.keywords),
            match_all_entries: self.match_all_entries,
            ignored_keywords: list_of(self.ignored_keywords),
            case_sensitive: self.case_sensitive,
            include_summary_in_query: self.include_summary_in_query,
            prune_missing_days: self.prune_missing_days,
            prune_age_days: self.prune_age_days,
            rss_feed_urls: list_of(self.rss_feed_urls),
            show_summary: self.show_summary,
            mark_as_read_automatically: self.mark_as_read_automatically,
            warn_only: self.warn_only,
            cache_path: string_of(self.cache_path),
        }
    }
}

/// What a file gives for a setting, or `fallback` where it gives no value.
pub open spec fn given_or<T>(found: Given<T>, fallback: T) -> T {
    match found {
        Given::Value(value) => value,
        _ => fallback,
    }
}

/// The file gives a value for every setting.
pub open spec fn is_complete(found: FileSettingsView) -> bool {
    &&& found.keywords is Value
    &&& found.match_all_entries is Value
    &&& found.ignored_keywords is Value
    &&& found.case_sensitive is Value
    &&& found.include_summary_in_query is Value
    &&& found.prune_missing_days is Value
    &&& found.prune_age_days is Value
    &&& found.rss_feed_urls is Value
    &&& found.show_summary is Value
    &&& found.mark_as_read_automatically is Value
    &&& found.warn_only is Value
    &&& found.cache_path is Value
}

/// The file lacks some setting, so that a default has to stand in for it.
pub open spec fn lacks_any(found: FileSettingsView) -> bool {
    ||| found.keywords is Missing
    ||| found.match_all_entries is Missing
    ||| found.ignored_keywords is Missing
    ||| found.case_sensitive is Missing
    ||| found.include_summary_in_query is Missing
    ||| found.prune_missing_days is Missing
    ||| found.prune_age_days is Missing
    ||| found.rss_feed_urls is Missing
    ||| found.show_summary is Missing
    ||| found.mark_as_read_automatically is Missing
    ||| found.warn_only is Missing
    ||| found.cache_path is Missing
}

/// The name of the first setting, in the order of `Config`, for which the
/// file gives a value that cannot be used; `None` where there is none.
pub open spec fn unusable_setting(found: FileSettingsView) -> Option<Seq<char>> {
    if found.keywords is Unusable {
        Some("keywords"@)
    } else if found.match_all_entries is Unusable {
        Some("match_all_entries"@)
    } else if found.ignored_keywords is Unusable {
        Some("ignored_keywords"@)
    } else if found.case_sensitive is Unusable {
        Some("case_sensitive"@)
    } else if found.include_summary_in_query is Unusable {
        Some("include_summary_in_query"@)
    } else if found.prune_missing_days is Unusable {
        Some("prune_missing_days"@)
    } else if found.prune_age_days is Unusable {
        Some("prune_age_days"@)
    } else if found.rss_feed_urls is Unusable {
        Some("rss_feed_urls"@)
    } else if found.show_summary is Unusable {
        Some("show_summary"@)
    } else if found.mark_as_read_automatically is Unusable {
        Some("mark_as_read_automatically"@)
    } else if found.warn_only is Unusable {
        Some("warn_only"@)
    } else if found.cache_path is Unusable {
        Some("cache_path"@)
    } else {
        None
    }
}

/// The settings in force under a configuration file: what the file gives,
/// and the default for each setting that it does not give.
pub open spec fn merged_settings(found: FileSettingsView) -> ConfigView {
    let fallback = default_settings();
    ConfigView {
        keywords: given_or(found.keywords, fallback.keywords),
        match_all_entries: given_or(found.match_all_entries, fallback.match_all_entries),
        ignored_keywords: given_or(found.ignored_keywords, fallback.ignored_keywords),
        case_sensitive: given_or(found.case_sensitive, fallback.case_sensitive),
        include_summary_in_query: given_or(
            found.include_summary_in_query,
            fallback.include_summary_in_query,
        ),
        prune_missing_days: given_or(found.prune_missing_days, fallback.prune_missing_days),
        prune_age_days: given_or(found.prune_age_days, fallback.prune_age_days),
        rss_feed_urls: given_or(found.rss_feed_urls, fallback.rss_feed_urls),
        show_summary: given_or(found.show_summary, fallback.show_summary),
        mark_as_read_automatically: given_or(
            found.mark_as_read_automatically,
            fallback.mark_as_read_automatically,
        ),
        warn_only: given_or(found.warn_only, fallback.warn_only),
        cache_path: given_or(found.cache_path, fallback.cache_path),
    }
}

/// Settings made up from a file, and whether a default had to stand in for
/// a setting that the file does not give.
#[derive(Debug)]
pub struct Merged {
    pub config: Config,
    pub filled_in: bool,
}

/// A configuration file that cannot be used, with the reason.
#[derive(Debug)]
pub struct ConfigError {
    pub reason: String,
}

/// Why a file with an unusable setting is turned down: the named setting
/// cannot be read, out of the file as it stands or, where the file lacks
/// some setting, out of the file with the defaults filled in.
pub open spec fn unusable_reason(filled_in: bool, setting: Seq<char>) -> Seq<char> {
    if filled_in {
        "Failed to deserialize merged config: "@ + setting
    } else {
        "Failed to deserialize original config: "@ + setting
    }
}

/// What merging makes of the settings that a file gives: an error that
/// names the first unusable setting where there is one; else the settings
/// in force, and whether any default had to stand in.
pub open spec fn merges_to(found: FileSettingsView, merged: Result<Merged, ConfigError>) -> bool {
    match unusable_setting(found) {
        Some(setting) => {
            &&& merged matches Err(error)
            &&& error.reason@ == unusable_reason(lacks_any(found), setting)
        },
        None => {
            &&& merged matches Ok(made)
            &&& made.config@ == merged_settings(found)
            &&& made.filled_in == !is_complete(found)
        },
    }
}

fn list_or(found: Given<Vec<String>>, fallback: Vec<String>) -> (list: Vec<String>)
    ensures
        views_of(list@) == given_or(list_of(found), views_of(fallback@)),
{
    match found {
        Given::Value(list) => list,
        _ => fallback,
    }
}

fn string_or(found: Given<String>, fallback: String) -> (text: String)
    ensures
        text@ == given_or(string_of(found), fallback@),
{
    match found {
        Given::Value(text) => text,
        _ => fallback,
    }
}

fn flag_or(found: Given<bool>, fallback: bool) -> (flag: bool)
    ensures
        flag == given_or(found, fallback),
{
    match found {
        Given::Value(flag) => flag,
        _ => fallback,
    }
}

fn number_or(found: Given<u64>, fallback: u64) -> (number: u64)
    ensures
        number == given_or(found, fallback),
{
    match found {
        Given::Value(number) => number,
        _ => fallback,
    }
}

fn is_missing<T>(found: &Given<T>) -> (missing: bool)
    ensures
        missing == (*found is Missing),
{
    match found {
        Given::Missing => true,
        _ => false,
    }
}

fn is_unusable<T>(found: &Given<T>) -> (unusable: bool)
    ensures
        unusable == (*found is Unusable),
{
    match found {
        Given::Unusable => true,
        _ => false,
    }
}

/// Tells whether the file lacks some setting.
fn lacks_setting(found: &FileSettings) -> (lacking: bool)
    ensures
        lacking == lacks_any(found@),
{
    is_missing(&found.keywords) || is_missing(&found.match_all_entries) || is_missing(
        &found.ignored_keywords,
    ) || is_missing(&found.case_sensitive) || is_missing(&found.include_summary_in_query)
        || is_missing(&found.prune_missing_days) || is_missing(&found.prune_age_days)
        || is_missing(&found.rss_feed_urls) || is_missing(&found.show_summary) || is_missing(
        &found.mark_as_read_automatically,
    ) || is_missing(&found.warn_only) || is_missing(&found.cache_path)
}

/// Names the first setting for which the file gives an unusable value.
fn first_unusable(found: &FileSettings) -> (setting: Option<&'static str>)
    ensures
        match setting {
            Some(name) => unusable_setting(found@) == Some(name@),
            None => unusable_setting(found@) is None,
        },
{
    if is_unusable(&found.keywords) {
        Some("keywords")
    } else if is_unusable(&found.match_all_entries) {
        Some("match_all_entries")
    } else if is_unusable(&found.ignored_keywords) {
        Some("ignored_keywords")
    } else if is_unusable(&found.case_sensitive) {
        Some("case_sensitive")
    } else if is_unusable(&found.include_summary_in_query) {
        Some("include_summary_in_query")
    } else if is_unusable(&found.prune_missing_days) {
        Some("prune_missing_days")
    } else if is_unusable(&found.prune_age_days) {
        Some("prune_age_days")
    } else if is_unusable(&found.rss_feed_urls) {
        Some("rss_feed_urls")
    } else if is_unusable(&found.show_summary) {
        Some("show_summary")
    } else if is_unusable(&found.mark_as_read_automatically) {
        Some("mark_as_read_automatically")
    } else if is_unusable(&found.warn_only) {
        Some("warn_only")
    } else if is_unusable(&found.cache_path) {
        Some("cache_path")
    } else {
        None
    }
}

/// Words the reason for turning down a file with an unusable setting.
pub fn unusable_failure(filled_in: bool, setting: &str) -> (reason: String)
    ensures
        reason@ == unusable_reason(filled_in, setting@),
{
    if filled_in {
        "Failed to deserialize merged config: ".to_owned().concat(setting)
    } else {
        "Failed to deserialize original config: ".to_owned().concat(setting)
    }
}

/// Words the reason for turning down a text that is no TOML document, from
/// the parser's words.
pub fn parse_failure(text: &str) -> (reason: String)
    ensures
        reason@ == "Failed to parse config file: "@ + text@,
{
    "Failed to parse config file: ".to_owned().concat(text)
}

/// Words the reason for giving up settings that could not be written back
/// to their file, from the system's words.
pub fn write_failure(text: &str) -> (reason: String)
    ensures
        reason@ == "Failed to write updated config: "@ + text@,
{
    "Failed to write updated config: ".to_owned().concat(text)
}

/// Makes up the settings in force from what a configuration file gives,
/// with the default in place of each setting that is missing, and tells
/// whether any was. A file that gives an unusable value for a setting is
/// an error, which names the first such setting.
pub fn merge_defaults(found: FileSettings) -> (merged: Result<Merged, ConfigError>)
    ensures
        merges_to(found@, merged),
{
    let lacking = lacks_setting(&found);
    match first_unusable(&found) {
        Some(setting) => Err(ConfigError { reason: unusable_failure(lacking, setting) }),
        None => {
            let fallback = Config::default();
            let config = Config {
                keywords: list_or(found.keywords, fallback.keywords),
                match_all_entries: flag_or(found.match_all_entries, fallback.match_all_entries),
                ignored_keywords: list_or(found.ignored_keywords, fallback.ignored_keywords),
                case_sensitive: flag_or(found.case_sensitive, fallback.case_sensitive),
                include_summary_in_query: flag_or(
                    found.include_summary_in_query,
                    fallback.include_summary_in_query,
                ),
                prune_missing_days: number_or(
                    found.prune_missing_days,
                    fallback.prune_missing_days,
                ),
                prune_age_days: number_or(found.prune_age_days, fallback.prune_age_days),
                rss_feed_urls: list_or(found.rss_feed_urls, fallback.rss_feed_urls),
                show_summary: flag_or(found.show_summary, fallback.show_summary),
                mark_as_read_automatically: flag_or(
                    found.mark_as_read_automatically,
                    fallback.mark_as_read_automatically,
                ),
                warn_only: flag_or(found.warn_only, fallback.warn_only),
                cache_path: string_or(found.cache_path, fallback.cache_path),
            };
            Ok(Merged { config, filled_in: lacking })
        },
    }
}

/// What the parts of a TOML table hold that settings are read from: the
/// keys that hold a boolean, an integer, a string or an array, each with
/// what it holds.
pub struct TableContents {
    pub flags: Map<Seq<char>, bool>,
    pub numbers: Map<Seq<char>, i64>,
    pub texts: Map<Seq<char>, Seq<char>>,
    pub lists: Map<Seq<char>, Seq<Option<Seq<char>>>>,
}

/// Declares `toml::map::Map`, the tables of a TOML document. Nothing
/// inside a table is read but through the functions below.
#[verifier::external_type_specification]
#[verifier::external_body]
#[verifier::reject_recursive_types(K)]
#[verifier::reject_recursive_types(V)]
pub struct ExTable<K, V>(toml::map::Map<K, V>);

/// Declares `toml::Value`, a value of a TOML document.
#[verifier::external_type_specification]
#[verifier::external_body]
pub struct ExValue(toml::Value);

/// Declares `toml::de::Error`, the error of a document that is no TOML.
#[verifier::external_type_specification]
#[verifier::external_body]
pub struct ExDocumentError(toml::de::Error);

/// The keys of a table that hold a boolean, each with its value.
pub uninterp spec fn table_flags(table: toml::Table) -> Map<Seq<char>, bool>;

/// The keys of a table that hold an integer, each with its value.
pub uninterp spec fn table_numbers(table: toml::Table) -> Map<Seq<char>, i64>;

/// The keys of a table that hold a string, each with its value.
pub uninterp spec fn table_texts(table: toml::Table) -> Map<Seq<char>, Seq<char>>;

/// The keys of a table that hold an array, each with the array's members in
/// their order: the text of a member that is a string, `None` for any
/// other member.
pub uninterp spec fn table_lists(table: toml::Table) -> Map<Seq<char>, Seq<Option<Seq<char>>>>;

/// The table that the text of a TOML document stands for, by what it holds,
/// or `None` where the text is no TOML document.
pub uninterp spec fn document_contents(text: Seq<char>) -> Option<TableContents>;

/// What a table holds.
pub open spec fn contents_of(table: toml::Table) -> TableContents {
    TableContents {
        flags: table_flags(table),
        numbers: table_numbers(table),
        texts: table_texts(table),
        lists: table_lists(table),
    }
}

/// What stands under `key`, if anything does.
pub open spec fn lookup<V>(entries: Map<Seq<char>, V>, key: Seq<char>) -> Option<V> {
    if entries.contains_key(key) {
        Some(entries[key])
    } else {
        None
    }
}

/// What a table gives for a setting that holds whatever its type holds.
pub open spec fn given_of<T>(found: Option<T>) -> Given<T> {
    match found {
        Some(value) => Given::Value(value),
        None => Given::Missing,
    }
}

/// What a table gives for a count of days: an integer that is not negative
/// is the count, a negative one cannot be used.
pub open spec fn days_of(number: Option<i64>) -> Given<u64> {
    match number {
        Some(n) => if n >= 0 {
            Given::Value(n as u64)
        } else {
            Given::Unusable
        },
        None => Given::Missing,
    }
}

/// Every member is a string.
pub open spec fn all_strings(members: Seq<Option<Seq<char>>>) -> bool {
    forall|i: int| 0 <= i < members.len() ==> (#[trigger] members[i]) is Some
}

/// The strings that the members are.
pub open spec fn strings_of(members: Seq<Option<Seq<char>>>) -> Seq<Seq<char>> {
    Seq::new(members.len(), |i: int| members[i].unwrap())
}

/// What a table gives for a list of strings: an array of strings is the
/// list, an array with any other member cannot be used.
pub open spec fn list_given(found: Option<Seq<Option<Seq<char>>>>) -> Given<Seq<Seq<char>>> {
    match found {
        Some(members) => if all_strings(members) {
            Given::Value(strings_of(members))
        } else {
            Given::Unusable
        },
        None => Given::Missing,
    }
}

/// The settings that a table gives: each one that stands under its own
/// name with a value of its own type.
pub open spec fn settings_of(contents: TableContents) -> FileSettingsView {
    FileSettingsView {
        keywords: list_given(lookup(contents.lists, "keywords"@)),
        match_all_entries: given_of(lookup(contents.flags, "match_all_entries"@)),
        ignored_keywords: list_given(lookup(contents.lists, "ignored_keywords"@)),
        case_sensitive: given_of(lookup(contents.flags, "case_sensitive"@)),
        include_summary_in_query: given_of(lookup(contents.flags, "include_summary_in_query"@)),
        prune_missing_days: days_of(lookup(contents.numbers, "prune_missing_days"@)),
        prune_age_days: days_of(lookup(contents.numbers, "prune_age_days"@)),
        rss_feed_urls: list_given(lookup(contents.lists, "rss_feed_urls"@)),
        show_summary: given_of(lookup(contents.flags, "show_summary"@)),
        mark_as_read_automatically: given_of(
            lookup(contents.flags, "mark_as_read_automatically"@),
        ),
        warn_only: given_of(lookup(contents.flags, "warn_only"@)),
        cache_path: given_of(lookup(contents.texts, "cache_path"@)),
    }
}

/// The members of an array as they are handed out: the text of each member
/// that is a string, `None` for any other.
pub open spec fn members_of(found: Option<Vec<Option<String>>>) -> Option<Seq<Option<Seq<char>>>> {
    match found {
        Some(members) => Some(Seq::new(members@.len(), |i: int| text_of(members@[i]))),
        None => None,
    }
}

/// Trusted: the parsing of a TOML document into a table, `str::parse` for
/// `toml::Table`. Which table comes of a text depends on the text alone; it
/// is only given a name, by what the table holds.
#[verifier::external_body]
fn parse_table(text: &str) -> (parsed: Result<toml::Table, toml::de::Error>)
    ensures
        match parsed {
            Ok(table) => document_contents(text@) == Some(contents_of(table)),
            Err(_) => document_contents(text@) is None,
        },
{
    text.parse::<toml::Table>()
}

/// Trusted: the `Display` form of a `toml::de::Error`. Nothing is claimed of
/// the text.
#[verifier::external_body]
fn document_error_text(error: &toml::de::Error) -> String {
    format!("{error}")
}

/// Trusted: `toml::map::Map::get` and `toml::Value::as_bool`: the boolean
/// under `key`, if a boolean stands there.
#[verifier::external_body]
fn table_flag(table: &toml::Table, key: &str) -> (found: Option<bool>)
    ensures
        found == lookup(table_flags(*table), key@),
{
    table.get(key).and_then(toml::Value::as_bool)
}

/// Trusted: `toml::map::Map::get` and `toml::Value::as_integer`: the integer
/// under `key`, if an integer stands there.
#[verifier::external_body]
fn table_number(table: &toml::Table, key: &str) -> (found: Option<i64>)
    ensures
        found == lookup(table_numbers(*table), key@),
{
    table.get(key).and_then(toml::Value::as_integer)
}

/// Trusted: `toml::map::Map::get` and `toml::Value::as_str`: the string under
/// `key`, if a string stands there.
#[verifier::external_body]
fn table_text(table: &toml::Table, key: &str) -> (found: Option<String>)
    ensures
        text_of(found) == lookup(table_texts(*table), key@),
{
    table.get(key).and_then(toml::Value::as_str).map(String::from)
}

/// Trusted: `toml::map::Map::get`, `toml::Value::as_array` and
/// `toml::Value::as_str`: the members of the array under `key`, if an array
/// stands there, each as its string or as `None` where it is no string.
#[verifier::external_body]
fn table_list(table: &toml::Table, key: &str) -> (found: Option<Vec<Option<String>>>)
    ensures
        members_of(found) == lookup(table_lists(*table), key@),
{
    table.get(key).and_then(toml::Value::as_array).map(
        |members| members.iter().map(|member| member.as_str().map(String::from)).collect(),
    )
}

/// Takes what a table gives under the name of a flag.
pub fn given_flag(found: Option<bool>) -> (given: Given<bool>)
    ensures
        given == given_of(found),
{
    match found {
        Some(flag) => Given::Value(flag),
        None => Given::Missing,
    }
}

/// Takes what a table gives under the name of a text.
pub fn given_text(found: Option<String>) -> (given: Given<String>)
    ensures
        string_of(given) == given_of(text_of(found)),
{
    match found {
        Some(text) => Given::Value(text),
        None => Given::Missing,
    }
}

/// Takes an integer as a count of days, which it is if it is not negative.
pub fn whole_days(number: Option<i64>) -> (days: Given<u64>)
    ensures
        days == days_of(number),
{
    match number {
        Some(n) => {
            if n >= 0 {
                Given::Value(n as u64)
            } else {
                Given::Unusable
            }
        },
        None => Given::Missing,
    }
}

/// Takes the members of an array as a list of strings, which they are if
/// each of them is a string.
pub fn string_list(found: Option<Vec<Option<String>>>) -> (list: Given<Vec<String>>)
    ensures
        list_of(list) == list_given(members_of(found)),
{
    match found {
        None => Given::Missing,
        Some(members) => {
            let ghost all = members@;
            let ghost texts = Seq::new(all.len(), |i: int| text_of(all[i]));
            assert(members_of(found) == Some(texts)) by {
                assert(members_of(found).unwrap() =~= texts);
            }
            let mut strings: Vec<String> = Vec::new();
            for member in iter: members
                invariant
                    iter.seq() == all,
                    texts == Seq::new(all.len(), |i: int| text_of(all[i])),
                    members_of(found) == Some(texts),
                    strings@.len() == iter.index(),
                    forall|j: int|
                        0 <= j < iter.index() ==> (#[trigger] texts[j]) == Some(strings@[j]@),
            {
                let ghost at = iter.index() as int;
                assert(texts[at] == text_of(member));
                match member {
                    Some(text) => {
                        strings.push(text);
                    },
                    None => {
                        assert(!all_strings(texts));
                        return Given::Unusable;
                    },
                }
            }
            assert(all_strings(texts));
            assert(views_of(strings@) =~= strings_of(texts));
            Given::Value(strings)
        },
    }
}

/// Reads out of a table the settings that it gives.
pub fn settings_in(table: &toml::Table) -> (found: FileSettings)
    ensures
        found@ == settings_of(contents_of(*table)),
{
    FileSettings {
        keywords: string_list(table_list(table, "keywords")),
        match_all_entries: given_flag(table_flag(table, "match_all_entries")),
        ignored_keywords: string_list(table_list(table, "ignored_keywords")),
        case_sensitive: given_flag(table_flag(table, "case_sensitive")),
        include_summary_in_query: given_flag(table_flag(table, "include_summary_in_query")),
        prune_missing_days: whole_days(table_number(table, "prune_missing_days")),
        prune_age_days: whole_days(table_number(table, "prune_age_days")),
        rss_feed_urls: string_list(table_list(table, "rss_feed_urls")),
        show_summary: given_flag(table_flag(table, "show_summary")),
        mark_as_read_automatically: given_flag(table_flag(table, "mark_as_read_automatically")),
        warn_only: given_flag(table_flag(table, "warn_only")),
        cache_path: given_text(table_text(table, "cache_path")),
    }
}

/// What was found where the configuration file is looked for.
#[derive(Debug)]
pub enum ConfigSource {
    /// There is no file.
    Missing,
    /// There is a file, but it cannot be read; `reason` says why.
    Unreadable { reason: String },
    /// There is a file, and this is its text.
    Found { content: String },
}

/// What is left to do once the settings are made up.
#[derive(Debug, PartialEq, Eq)]
pub enum FollowUp {
    /// Nothing.
    Nothing,
    /// Write the default settings to a new configuration file.
    CreateFile,
    /// Write the settings back to the file, which lacked some.
    RewriteFile,
    /// Tell the user that the file cannot be used and that the defaults are
    /// in force until it is mended.
    ReportBroken { reason: String },
}

/// The settings in force and what is left to do about the file.
#[derive(Debug)]
pub struct Loaded {
    pub config: Config,
    pub follow_up: FollowUp,
}

/// What loading makes of the outcome of reading a file's text: the
/// defaults and the reason to report where the text is turned down; else
/// the settings read, and the file to be written anew where it lacked any.
pub open spec fn loads_to(read: Result<Merged, ConfigError>, loaded: Loaded) -> bool {
    match read {
        Ok(made) => {
            &&& loaded.config@ == made.config@
            &&& if made.filled_in {
                loaded.follow_up is RewriteFile
            } else {
                loaded.follow_up is Nothing
            }
        },
        Err(error) => {
            &&& loaded.config@ == default_settings()
            &&& loaded.follow_up matches FollowUp::ReportBroken { reason: told }
            &&& told@ == error.reason@
        },
    }
}

/// What loading makes of the settings that a file gives: the defaults, and
/// the reason to report, where a setting is unusable; else the settings in
/// force, and the file to be written anew where it lacked any.
pub open spec fn loaded_from(found: FileSettingsView, loaded: Loaded) -> bool {
    match unusable_setting(found) {
        Some(setting) => {
            &&& loaded.config@ == default_settings()
            &&& loaded.follow_up matches FollowUp::ReportBroken { reason: told }
            &&& told@ == unusable_reason(lacks_any(found), setting)
        },
        None => {
            &&& loaded.config@ == merged_settings(found)
            &&& if is_complete(found) {
                loaded.follow_up is Nothing
            } else {
                loaded.follow_up is RewriteFile
            }
        },
    }
}

impl Config {
    /// Makes up the settings from the text of a configuration file: what
    /// the file gives, with the default in place of each setting that it
    /// lacks or gives with a value of another type. A text that is no TOML
    /// document is an error, and so is a file that gives an unusable value
    /// for a setting.
    pub fn load_from_file(content: &str) -> (loaded: Result<Merged, ConfigError>)
        ensures
            match document_contents(content@) {
                Some(contents) => merges_to(settings_of(contents), loaded),
                None => {
                    &&& loaded matches Err(error)
                    &&& "Failed to parse config file: "@.is_prefix_of(error.reason@)
                },
            },
    {
        match parse_table(content) {
            Ok(table) => merge_defaults(settings_in(&table)),
            Err(error) => {
                let text = document_error_text(&error);
                let reason = parse_failure(text.as_str());
                assert("Failed to parse config file: "@.is_prefix_of(reason@)) by {
                    assert(reason@.subrange(0, "Failed to parse config file: "@.len() as int)
                        =~= "Failed to parse config file: "@);
                }
                Err(ConfigError { reason })
            },
        }
    }

    /// Makes up the settings in force from what was found where the
    /// configuration file is looked for. Without a file the defaults are in
    /// force and a file is to be created; with a file that cannot be read
    /// or used the defaults are in force and the user is to be told why;
    /// else the file's settings are in force, with defaults for the missing
    /// ones, and the file is to be written anew if any was missing.
    pub fn load(source: ConfigSource) -> (loaded: Loaded)
        ensures
            match source {
                ConfigSource::Missing => {
                    &&& loaded.config@ == default_settings()
                    &&& loaded.follow_up is CreateFile
                },
                ConfigSource::Unreadable { reason } => {
                    &&& loaded.config@ == default_settings()
                    &&& loaded.follow_up matches FollowUp::ReportBroken { reason: told }
                    &&& told@ == reason@
                },
                ConfigSource::Found { content } => match document_contents(content@) {
                    Some(contents) => loaded_from(settings_of(contents), loaded),
                    None => {
                        &&& loaded.config@ == default_settings()
                        &&& loaded.follow_up matches FollowUp::ReportBroken { reason: told }
                        &&& "Failed to parse config file: "@.is_prefix_of(told@)
                    },
                },
            },
    {
        match source {
            ConfigSource::Missing => Loaded {
                config: Config::default(),
                follow_up: FollowUp::CreateFile,
            },
            ConfigSource::Unreadable { reason } => Loaded {
                config: Config::default(),
                follow_up: FollowUp::ReportBroken { reason },
            },
            ConfigSource::Found { content } => {
                let read = Config::load_from_file(content.as_str());
                let loaded = Config::settle(read);
                loaded
            },
        }
    }

    /// Settles what is in force once a file's text was read: the settings
    /// read, and the file to be written anew where it lacked any; or the
    /// defaults, and the reason to report, where the text was turned down.
    pub fn settle(read: Result<Merged, ConfigError>) -> (loaded: Loaded)
        ensures
            loads_to(read, loaded),
    {
        match read {
            Ok(merged) => {
                let follow_up = if merged.filled_in {
                    FollowUp::RewriteFile
                } else {
                    FollowUp::Nothing
                };
                Loaded { config: merged.config, follow_up }
            },
            Err(error) => Loaded {
                config: Config::default(),
                follow_up: FollowUp::ReportBroken { reason: error.reason },
            },
        }
    }

    /// Settles what is in force once the settings were to be written back
    /// to their file: the settings themselves where that went well; the
    /// defaults, and the reason to report, where it failed with `failure`.
    pub fn after_rewrite(config: Config, failure: Option<String>) -> (loaded: Loaded)
        ensures
            match failure {
                None => {
                    &&& loaded.config@ == config@
                    &&& loaded.follow_up is Nothing
                },
                Some(text) => {
                    &&& loaded.config@ == default_settings()
                    &&& loaded.follow_up matches FollowUp::ReportBroken { reason: told }
                    &&& told@ == "Failed to write updated config: "@ + text@
                },
            },
    {
        match failure {
            None => Loaded { config, follow_up: FollowUp::Nothing },
            Some(text) => Loaded {
                config: Config::default(),
                follow_up: FollowUp::ReportBroken { reason: write_failure(text.as_str()) },
            },
        }
    }
}

} // verus!
