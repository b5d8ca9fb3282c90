use hop_cli::{
    apply_live_result, check_version, now_secs, plan_check, CheckPlan, Release, UpdateCheckCache,
    UpdateError, Version,
};

fn cache_of(ts: u64, version: &str) -> UpdateCheckCache {
    UpdateCheckCache { last_version_check: Some((ts.to_string(), version.to_string())) }
}

#[test]
fn stale_cache_forces_live_fetch() {
    let now: u64 = 1_700_000_000;
    let current = Version::from_string("1.0.0").unwrap();
    let cache = cache_of(now - 4000, "1.0.0");
    assert!(matches!(plan_check(&cache, now, &current).unwrap(), CheckPlan::Live));
}

#[test]
fn fresh_cache_never_fetches_live() {
    let now: u64 = 1_700_000_000;
    let current = Version::from_string("1.0.0").unwrap();
    let cache = cache_of(now - 10, "1.0.0");
    assert!(matches!(plan_check(&cache, now, &current).unwrap(), CheckPlan::Quiet));
}

#[test]
fn fresh_cache_compares_against_cached_version() {
    let now: u64 = 1_700_000_000;
    let current = Version::from_string("1.0.0").unwrap();
    let cache = cache_of(now - 10, "9.9.9");
    match plan_check(&cache, now, &current).unwrap() {
        CheckPlan::Notice(v) => assert_eq!((v.major, v.minor, v.patch), (9, 9, 9)),
        _ => panic!("expected a notice for the cached newer version"),
    }
}

#[test]
fn threshold_is_strict() {
    let now: u64 = 1_700_000_000;
    let current = Version::from_string("1.0.0").unwrap();
    // exactly one hour old: still fresh
    let cache = cache_of(now - 3600, "1.0.0");
    assert!(matches!(plan_check(&cache, now, &current).unwrap(), CheckPlan::Quiet));
    // one second past the hour: live
    let cache = cache_of(now - 3601, "1.0.0");
    assert!(matches!(plan_check(&cache, now, &current).unwrap(), CheckPlan::Live));
}

#[test]
fn missing_cache_forces_live_fetch() {
    let now: u64 = 1_700_000_000;
    let current = Version::from_string("1.0.0").unwrap();
    let cache = UpdateCheckCache { last_version_check: None };
    assert!(matches!(plan_check(&cache, now, &current).unwrap(), CheckPlan::Live));
}

#[test]
fn unreadable_timestamp_counts_as_fresh() {
    let now: u64 = 1_700_000_000;
    let current = Version::from_string("1.0.0").unwrap();
    let cache = UpdateCheckCache {
        last_version_check: Some(("yesterday".to_string(), "1.0.0".to_string())),
    };
    assert!(matches!(plan_check(&cache, now, &current).unwrap(), CheckPlan::Quiet));
}

#[test]
fn unreadable_cached_version_is_parse_error() {
    let now: u64 = 1_700_000_000;
    let current = Version::from_string("1.0.0").unwrap();
    let cache = cache_of(now - 10, "garbage");
    assert_eq!(plan_check(&cache, now, &current).unwrap_err(), UpdateError::Parse);
}

#[test]
fn live_update_rewrites_cache_and_notifies() {
    let now: u64 = 1_700_000_000;
    let current = Version::from_string("1.2.0").unwrap();
    let latest = Version::from_string("1.3.0").unwrap();
    let mut cache = UpdateCheckCache { last_version_check: None };
    let notice = apply_live_result(&mut cache, now, &current, Some((true, latest)));
    let n = notice.expect("an update was reported");
    assert_eq!((n.major, n.minor, n.patch), (1, 3, 0));
    let pair = cache.last_version_check.unwrap();
    assert_eq!(pair.0, "1700000000");
    assert_eq!(pair.1, "1.3.0");
}

#[test]
fn live_no_update_rewrites_cache_quietly() {
    let now: u64 = 42;
    let current = Version::from_string("2.0.0").unwrap();
    let mut cache = cache_of(1, "1.0.0");
    let notice = apply_live_result(&mut cache, now, &current, Some((false, current.clone())));
    assert!(notice.is_none());
    let pair = cache.last_version_check.unwrap();
    assert_eq!(pair.0, "42");
    assert_eq!(pair.1, "2.0.0");
}

#[test]
fn failed_live_check_caches_current_version() {
    let now: u64 = 100_000;
    let current = Version::from_string("1.5.2").unwrap();
    let mut cache = UpdateCheckCache { last_version_check: None };
    let notice = apply_live_result(&mut cache, now, &current, None);
    assert!(notice.is_none());
    let pair = cache.last_version_check.unwrap();
    assert_eq!(pair.0, "100000");
    assert_eq!(pair.1, "1.5.2");
}

#[test]
fn end_to_end_stale_cache_finds_update() {
    let now: u64 = 1_700_000_000;
    let current = Version::from_string("1.2.0").unwrap();
    let mut cache = cache_of(now - 4000, "1.2.0");

    // the cache is stale, so the feed must be consulted
    assert!(matches!(plan_check(&cache, now, &current).unwrap(), CheckPlan::Live));

    let feed = vec![Release { tag_name: "1.3.0".to_string(), prerelease: false, draft: false }];
    let live = check_version(&current, &feed, false).unwrap();
    assert!(live.0);

    let notice = apply_live_result(&mut cache, now, &current, Some(live));
    let n = notice.expect("update available");
    assert_eq!((n.major, n.minor, n.patch), (1, 3, 0));
    let pair = cache.last_version_check.unwrap();
    assert_eq!(pair.0, now.to_string());
    assert_eq!(pair.1, "1.3.0");
}

#[test]
fn clock_reads_a_plausible_present() {
    // seconds since the epoch, well past 2020
    assert!(now_secs() > 1_577_836_800);
}
