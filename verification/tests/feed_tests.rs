use hop_cli::{check_version, select_latest, Release, UpdateError, Version};

fn rel(tag: &str, prerelease: bool, draft: bool) -> Release {
    Release { tag_name: tag.to_string(), prerelease, draft }
}

#[test]
fn skips_prerelease_unless_allowed() {
    let feed = vec![rel("v2.0.0", true, false), rel("v1.9.0", false, false)];
    assert_eq!(select_latest(&feed, false).unwrap(), "v1.9.0");
    assert_eq!(select_latest(&feed, true).unwrap(), "v2.0.0");
}

#[test]
fn first_draft_never_selected() {
    let feed = vec![rel("v3.0.0", false, true), rel("v2.0.0", false, false)];
    assert_eq!(select_latest(&feed, false).unwrap(), "v2.0.0");
    assert_eq!(select_latest(&feed, true).unwrap(), "v2.0.0");
}

#[test]
fn draft_prerelease_never_selected() {
    let feed = vec![rel("v3.0.0", true, true), rel("v2.5.0", true, false)];
    assert_eq!(select_latest(&feed, true).unwrap(), "v2.5.0");
}

#[test]
fn empty_feed_is_not_found() {
    let feed: Vec<Release> = vec![];
    assert_eq!(select_latest(&feed, false).unwrap_err(), UpdateError::NotFound);
}

#[test]
fn feed_of_only_drafts_and_prereleases_is_not_found() {
    let feed = vec![rel("v2.0.0", true, false), rel("v1.0.0", false, true)];
    assert_eq!(select_latest(&feed, false).unwrap_err(), UpdateError::NotFound);
}

#[test]
fn selection_takes_first_eligible_not_maximum() {
    // the feed is trusted to be newest-first; a larger version later
    // in the list is deliberately not preferred
    let feed = vec![rel("v1.5.0", false, false), rel("v9.0.0", false, false)];
    assert_eq!(select_latest(&feed, false).unwrap(), "v1.5.0");
}

#[test]
fn check_version_reports_newer_release() {
    let current = Version::from_string("1.2.0").unwrap();
    let feed = vec![rel("1.3.0", false, false)];
    let (update, latest) = check_version(&current, &feed, false).unwrap();
    assert!(update);
    assert_eq!((latest.major, latest.minor, latest.patch), (1, 3, 0));
}

#[test]
fn check_version_returns_current_when_not_newer() {
    let current = Version::from_string("2.0.0").unwrap();
    let feed = vec![rel("1.3.0", false, false)];
    let (update, latest) = check_version(&current, &feed, false).unwrap();
    assert!(!update);
    assert_eq!((latest.major, latest.minor, latest.patch), (2, 0, 0));
}

#[test]
fn check_version_equal_version_is_no_update() {
    let current = Version::from_string("1.3.0").unwrap();
    let feed = vec![rel("v1.3.0", false, false)];
    let (update, _) = check_version(&current, &feed, false).unwrap();
    assert!(!update);
}

#[test]
fn check_version_malformed_tag_is_parse_error() {
    let current = Version::from_string("1.0.0").unwrap();
    let feed = vec![rel("nightly", false, false)];
    assert_eq!(check_version(&current, &feed, false).unwrap_err(), UpdateError::Parse);
}

#[test]
fn error_messages_name_each_failure() {
    assert_eq!(UpdateError::Parse.message(), "failed to parse version");
    assert_eq!(UpdateError::Network.message(), "failed to reach the release host");
    assert_eq!(UpdateError::NotFound.message(), "no eligible release found");
    assert_eq!(UpdateError::Io.message(), "archive extraction failed");
    assert_eq!(UpdateError::Execution.message(), "update commands exited with failure");
}
