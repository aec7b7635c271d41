use arch_manwarn::config::Config;
use arch_manwarn::config::{
    config_path, given_flag, given_text, merge_defaults, parse_failure, settings_in, string_list,
    unusable_failure, whole_days, write_failure, ConfigSource, FileSettings, FollowUp, Given,
};

#[test]
fn default_settings() {
    let config = Config::default();
    assert_eq!(config.cache_path, "/var/cache/arch-manwarn.json");
    assert_eq!(config.rss_feed_urls, vec!["https://archlinux.org/feeds/news/".to_string()]);
    assert_eq!(config.keywords, vec!["manual intervention".to_string()]);
    assert!(config.ignored_keywords.is_empty());
    assert!(!config.case_sensitive);
    assert!(config.include_summary_in_query);
    assert_eq!(config.prune_missing_days, 30);
    assert_eq!(config.prune_age_days, 60);
    assert!(!config.match_all_entries);
    assert!(!config.show_summary);
    assert!(config.mark_as_read_automatically);
    assert!(!config.warn_only);
}

fn nothing_given() -> FileSettings {
    FileSettings {
        keywords: Given::Missing,
        match_all_entries: Given::Missing,
        ignored_keywords: Given::Missing,
        case_sensitive: Given::Missing,
        include_summary_in_query: Given::Missing,
        prune_missing_days: Given::Missing,
        prune_age_days: Given::Missing,
        rss_feed_urls: Given::Missing,
        show_summary: Given::Missing,
        mark_as_read_automatically: Given::Missing,
        warn_only: Given::Missing,
        cache_path: Given::Missing,
    }
}

fn everything_given() -> FileSettings {
    FileSettings {
        keywords: Given::Value(vec!["a".to_string(), "b".to_string()]),
        match_all_entries: Given::Value(true),
        ignored_keywords: Given::Value(vec!["c".to_string()]),
        case_sensitive: Given::Value(true),
        include_summary_in_query: Given::Value(false),
        prune_missing_days: Given::Value(3),
        prune_age_days: Given::Value(4),
        rss_feed_urls: Given::Value(vec![]),
        show_summary: Given::Value(true),
        mark_as_read_automatically: Given::Value(false),
        warn_only: Given::Value(true),
        cache_path: Given::Value("/tmp/cache.json".to_string()),
    }
}

#[test]
fn merge_defaults_fills_in_what_is_missing() {
    let merged = merge_defaults(nothing_given()).unwrap();
    assert!(merged.filled_in);
    assert_eq!(merged.config.keywords, vec!["manual intervention".to_string()]);
    assert_eq!(merged.config.prune_missing_days, 30);
    assert_eq!(merged.config.prune_age_days, 60);
    assert_eq!(merged.config.cache_path, "/var/cache/arch-manwarn.json");
    assert!(merged.config.mark_as_read_automatically);

    let merged = merge_defaults(FileSettings {
        warn_only: Given::Missing,
        ..everything_given()
    })
    .unwrap();
    assert!(merged.filled_in);
    assert!(!merged.config.warn_only);
    assert_eq!(merged.config.keywords, vec!["a".to_string(), "b".to_string()]);
}

#[test]
fn merge_defaults_keeps_what_is_given() {
    let merged = merge_defaults(everything_given()).unwrap();
    assert!(!merged.filled_in);
    let config = merged.config;
    assert_eq!(config.keywords, vec!["a".to_string(), "b".to_string()]);
    assert!(config.match_all_entries);
    assert_eq!(config.ignored_keywords, vec!["c".to_string()]);
    assert!(config.case_sensitive);
    assert!(!config.include_summary_in_query);
    assert_eq!(config.prune_missing_days, 3);
    assert_eq!(config.prune_age_days, 4);
    assert!(config.rss_feed_urls.is_empty());
    assert!(config.show_summary);
    assert!(!config.mark_as_read_automatically);
    assert!(config.warn_only);
    assert_eq!(config.cache_path, "/tmp/cache.json");
}

#[test]
fn merge_defaults_turns_down_what_cannot_be_used() {
    let error = merge_defaults(FileSettings {
        prune_age_days: Given::Unusable,
        ..everything_given()
    })
    .unwrap_err();
    assert_eq!(
        error.reason,
        "Failed to deserialize original config: prune_age_days"
    );

    let error = merge_defaults(FileSettings {
        rss_feed_urls: Given::Unusable,
        prune_age_days: Given::Unusable,
        warn_only: Given::Missing,
        ..everything_given()
    })
    .unwrap_err();
    assert_eq!(
        error.reason,
        "Failed to deserialize merged config: prune_age_days"
    );

    let error = merge_defaults(FileSettings {
        keywords: Given::Unusable,
        ..nothing_given()
    })
    .unwrap_err();
    assert_eq!(error.reason, "Failed to deserialize merged config: keywords");
}

#[test]
fn reasons_are_worded_with_their_prefix() {
    assert_eq!(parse_failure("at line 1"), "Failed to parse config file: at line 1");
    assert_eq!(parse_failure(""), "Failed to parse config file: ");
    assert_eq!(write_failure("denied"), "Failed to write updated config: denied");
    assert_eq!(
        unusable_failure(true, "keywords"),
        "Failed to deserialize merged config: keywords"
    );
    assert_eq!(
        unusable_failure(false, "keywords"),
        "Failed to deserialize original config: keywords"
    );
}

const FULL: &str = "\
keywords = [\"a\", \"b\"]
match_all_entries = true
ignored_keywords = [\"c\"]
case_sensitive = true
include_summary_in_query = false
prune_missing_days = 3
prune_age_days = 4
rss_feed_urls = []
show_summary = true
mark_as_read_automatically = false
warn_only = true
cache_path = \"/tmp/cache.json\"
";

#[test]
fn settings_in_reads_each_setting_by_its_type() {
    let table: toml::Table = FULL.parse().unwrap();
    let found = settings_in(&table);
    assert_eq!(found.keywords, Given::Value(vec!["a".to_string(), "b".to_string()]));
    assert_eq!(found.match_all_entries, Given::Value(true));
    assert_eq!(found.ignored_keywords, Given::Value(vec!["c".to_string()]));
    assert_eq!(found.case_sensitive, Given::Value(true));
    assert_eq!(found.include_summary_in_query, Given::Value(false));
    assert_eq!(found.prune_missing_days, Given::Value(3));
    assert_eq!(found.prune_age_days, Given::Value(4));
    assert_eq!(found.rss_feed_urls, Given::Value(vec![]));
    assert_eq!(found.show_summary, Given::Value(true));
    assert_eq!(found.mark_as_read_automatically, Given::Value(false));
    assert_eq!(found.warn_only, Given::Value(true));
    assert_eq!(found.cache_path, Given::Value("/tmp/cache.json".to_string()));
}

#[test]
fn settings_in_tells_another_type_from_an_unusable_value() {
    let table: toml::Table = "\
keywords = \"a\"
ignored_keywords = [\"c\", 1]
case_sensitive = \"yes\"
prune_missing_days = -3
prune_age_days = 4.5
cache_path = 7
unknown = true
"
    .parse()
    .unwrap();
    let found = settings_in(&table);
    assert_eq!(found.keywords, Given::Missing);
    assert_eq!(found.ignored_keywords, Given::Unusable);
    assert_eq!(found.case_sensitive, Given::Missing);
    assert_eq!(found.prune_missing_days, Given::Unusable);
    assert_eq!(found.prune_age_days, Given::Missing);
    assert_eq!(found.cache_path, Given::Missing);
    assert_eq!(found.warn_only, Given::Missing);
    assert_eq!(found.rss_feed_urls, Given::Missing);
}

#[test]
fn whole_days_are_not_negative() {
    assert_eq!(whole_days(None), Given::Missing);
    assert_eq!(whole_days(Some(-1)), Given::Unusable);
    assert_eq!(whole_days(Some(0)), Given::Value(0));
    assert_eq!(whole_days(Some(i64::MAX)), Given::Value(i64::MAX as u64));
}

#[test]
fn string_list_wants_strings_alone() {
    assert_eq!(string_list(None), Given::Missing);
    assert_eq!(string_list(Some(vec![])), Given::Value(vec![]));
    assert_eq!(
        string_list(Some(vec![Some("a".to_string()), Some("b".to_string())])),
        Given::Value(vec!["a".to_string(), "b".to_string()])
    );
    assert_eq!(
        string_list(Some(vec![Some("a".to_string()), None])),
        Given::Unusable
    );
    assert_eq!(string_list(Some(vec![None])), Given::Unusable);
}

#[test]
fn flags_and_texts_are_given_or_missing() {
    assert_eq!(given_flag(None), Given::Missing);
    assert_eq!(given_flag(Some(false)), Given::Value(false));
    assert_eq!(given_text(None), Given::Missing);
    assert_eq!(given_text(Some("x".to_string())), Given::Value("x".to_string()));
}

#[test]
fn load_from_file_fills_in_what_the_text_lacks() {
    let merged = Config::load_from_file(FULL).unwrap();
    assert!(!merged.filled_in);
    assert_eq!(merged.config.prune_age_days, 4);
    assert_eq!(merged.config.cache_path, "/tmp/cache.json");

    let merged = Config::load_from_file("prune_age_days = 9\nwarn_only = 1\n").unwrap();
    assert!(merged.filled_in);
    assert_eq!(merged.config.prune_age_days, 9);
    assert!(!merged.config.warn_only);
    assert_eq!(merged.config.prune_missing_days, 30);
    assert_eq!(merged.config.keywords, vec!["manual intervention".to_string()]);

    let merged = Config::load_from_file("").unwrap();
    assert!(merged.filled_in);
    assert_eq!(merged.config.prune_age_days, 60);
}

#[test]
fn load_from_file_turns_down_what_is_no_toml() {
    let error = Config::load_from_file("keywords = [").unwrap_err();
    assert!(error.reason.starts_with("Failed to parse config file: "));
    assert!(error.reason.len() > "Failed to parse config file: ".len());
}

#[test]
fn load_from_file_turns_down_unusable_settings() {
    let error = Config::load_from_file("prune_missing_days = -3\n").unwrap_err();
    assert_eq!(
        error.reason,
        "Failed to deserialize merged config: prune_missing_days"
    );

    let error = Config::load_from_file("keywords = [\"a\", 1]\n").unwrap_err();
    assert_eq!(error.reason, "Failed to deserialize merged config: keywords");

    let full_but_negative = FULL.replace("prune_age_days = 4", "prune_age_days = -4");
    let error = Config::load_from_file(&full_but_negative).unwrap_err();
    assert_eq!(
        error.reason,
        "Failed to deserialize original config: prune_age_days"
    );
}

#[test]
fn load_says_what_to_do_about_the_file() {
    let loaded = Config::load(ConfigSource::Missing);
    assert_eq!(loaded.follow_up, FollowUp::CreateFile);
    assert_eq!(loaded.config.prune_age_days, 60);

    let loaded = Config::load(ConfigSource::Unreadable {
        reason: "permission denied".to_string(),
    });
    assert_eq!(
        loaded.follow_up,
        FollowUp::ReportBroken {
            reason: "permission denied".to_string()
        }
    );
    assert_eq!(loaded.config.keywords, vec!["manual intervention".to_string()]);

    let loaded = Config::load(ConfigSource::Found {
        content: FULL.to_string(),
    });
    assert_eq!(loaded.follow_up, FollowUp::Nothing);
    assert_eq!(loaded.config.prune_age_days, 4);

    let loaded = Config::load(ConfigSource::Found {
        content: "prune_missing_days = 3\n".to_string(),
    });
    assert_eq!(loaded.follow_up, FollowUp::RewriteFile);
    assert_eq!(loaded.config.prune_age_days, 60);
    assert_eq!(loaded.config.prune_missing_days, 3);

    let loaded = Config::load(ConfigSource::Found {
        content: "= broken".to_string(),
    });
    match &loaded.follow_up {
        FollowUp::ReportBroken { reason } => {
            assert!(reason.starts_with("Failed to parse config file: "))
        }
        other => panic!("unexpected follow-up: {other:?}"),
    }
    assert_eq!(loaded.config.prune_missing_days, 30);

    let loaded = Config::load(ConfigSource::Found {
        content: "prune_missing_days = -1\nprune_age_days = 9\n".to_string(),
    });
    assert_eq!(
        loaded.follow_up,
        FollowUp::ReportBroken {
            reason: "Failed to deserialize merged config: prune_missing_days".to_string()
        }
    );
    assert_eq!(loaded.config.prune_age_days, 60);
}

#[test]
fn a_failed_rewrite_brings_the_defaults_into_force() {
    let merged = Config::load_from_file("prune_age_days = 9\n").unwrap();
    let loaded = Config::after_rewrite(merged.config, None);
    assert_eq!(loaded.follow_up, FollowUp::Nothing);
    assert_eq!(loaded.config.prune_age_days, 9);

    let merged = Config::load_from_file("prune_age_days = 9\n").unwrap();
    let loaded = Config::after_rewrite(merged.config, Some("read-only".to_string()));
    assert_eq!(
        loaded.follow_up,
        FollowUp::ReportBroken {
            reason: "Failed to write updated config: read-only".to_string()
        }
    );
    assert_eq!(loaded.config.prune_age_days, 60);
}

#[test]
fn settle_turns_an_outcome_into_what_is_in_force() {
    let loaded = Config::settle(Config::load_from_file(FULL));
    assert_eq!(loaded.follow_up, FollowUp::Nothing);
    assert!(loaded.config.warn_only);

    let loaded = Config::settle(Config::load_from_file("warn_only = true\n"));
    assert_eq!(loaded.follow_up, FollowUp::RewriteFile);
    assert!(loaded.config.warn_only);

    let loaded = Config::settle(Config::load_from_file("rss_feed_urls = [1]\n"));
    assert_eq!(
        loaded.follow_up,
        FollowUp::ReportBroken {
            reason: "Failed to deserialize merged config: rss_feed_urls".to_string()
        }
    );
    assert!(!loaded.config.warn_only);
}

#[test]
fn config_path_is_fixed_unless_overridden() {
    assert_eq!(config_path(None), "/etc/arch-manwarn/config.toml");
    assert_eq!(config_path(Some("/tmp/c.toml".to_string())), "/tmp/c.toml");
}
