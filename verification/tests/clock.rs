use arch_manwarn::cache::current_unix_time;

#[test]
fn current_unix_time_is_after_the_year_2020() {
    let now = current_unix_time();
    assert!(matches!(now, Some(seconds) if seconds > 1_577_836_800));
}
