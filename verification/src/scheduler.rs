use vstd::prelude::*;

use crate::decimal::all_digits;
use crate::decimal::dec_digits;
use crate::decimal::dec_val;
use crate::decimal::parse_u64;
use crate::decimal::u64_to_string;
use crate::errors::UpdateError;
use crate::feed::spec_triple_newer;
use crate::version::spec_parse_version;
use crate::version::spec_version_chars;
use crate::version::Version;

verus! {

/// A cached check older than this many seconds forces a live fetch.
pub const HOUR_IN_SECONDS: u64 = 3600;

/// The persisted pair behind update scheduling: the Unix timestamp of
/// the last live check and the newest version it reported, both kept
/// as strings by the surrounding context store. Passed explicitly in
/// and out; the scheduler never reaches into ambient state.
pub struct UpdateCheckCache {
    pub last_version_check: Option<(String, String)>,
}

/// What a scheduling pass decided: consult the feed now, emit a
/// notice for a cached newer version, or stay quiet.
#[derive(Debug)]
pub enum CheckPlan {
    /// The cache is absent or stale; the release feed must be queried.
    Live,
    /// The cache is fresh and its last-known-newest version is newer
    /// than the running one.
    Notice(Version),
    /// The cache is fresh and holds nothing newer.
    Quiet,
}

/// The seconds value a cached timestamp string stands for: an
/// unreadable one counts as the present moment, so it never forces
/// a live fetch by itself.
pub open spec fn spec_cached_seconds(ts: Seq<char>, now: u64) -> nat {
    if ts.len() >= 1 && all_digits(ts) && dec_val(ts) <= u64::MAX {
        dec_val(ts)
    } else {
        now as nat
    }
}

/// Decides between reusing the cache and a live check.
///
/// With no cached pair the plan is always `Live`. With one, the
/// cached version string must parse (else the pass fails with a parse
/// error, as reusing it would); then the plan is `Live` exactly when
/// more than an hour has passed since the cached timestamp, and
/// otherwise compares the cached newest version directly against the
/// running one: `Notice` when it is newer, `Quiet` when it is not.
pub fn plan_check(cache: &UpdateCheckCache, now: u64, current: &Version) -> (r: Result<
    CheckPlan,
    UpdateError,
>)
    ensures
        match cache.last_version_check {
            None => r matches Ok(p) && p is Live,
            Some(pair) => {
                if spec_parse_version(pair.1@) is None {
                    r matches Err(e) && e is Parse
                } else {
                    let t = spec_parse_version(pair.1@)->0;
                    let lc = spec_cached_seconds(pair.0@, now);
                    if now as int - lc as int > HOUR_IN_SECONDS as int {
                        r matches Ok(p) && p is Live
                    } else if spec_triple_newer(t, *current) {
                        r matches Ok(p) && (p matches CheckPlan::Notice(v) && v.major as nat == t.0
                            && v.minor as nat == t.1 && v.patch as nat == t.2 && v.suffix@ == t.3)
                    } else {
                        r matches Ok(p) && p is Quiet
                    }
                }
            },
        },
{
    match &cache.last_version_check {
        None => Ok(CheckPlan::Live),
        Some(pair) => {
            let last_newest = match Version::from_string(pair.1.as_str()) {
                Ok(v) => v,
                Err(e) => {
                    return Err(e);
                },
            };
            let last_checked = match parse_u64(pair.0.as_str()) {
                Some(t) => t,
                None => now,
            };
            if now > HOUR_IN_SECONDS && last_checked < now - HOUR_IN_SECONDS {
                Ok(CheckPlan::Live)
            } else if last_newest.is_newer_than(current) {
                Ok(CheckPlan::Notice(last_newest))
            } else {
                Ok(CheckPlan::Quiet)
            }
        },
    }
}

/// Records the outcome of a live check and says whether to notify.
///
/// The cache is rewritten unconditionally — timestamp of this moment,
/// version the feed reported (the running version when the live check
/// failed and nothing came back) — so the next pass within the hour
/// is free. A notice is returned exactly when the live check reported
/// an update.
pub fn apply_live_result(
    cache: &mut UpdateCheckCache,
    now: u64,
    current: &Version,
    live: Option<(bool, Version)>,
) -> (notice: Option<Version>)
    ensures
        ({
            let latest = if live is Some {
                (live->0).1
            } else {
                *current
            };
            final(cache).last_version_check matches Some(pair) && pair.0@ == dec_digits(
                now as nat,
            ) && pair.1@ == spec_version_chars(
                latest.major as nat,
                latest.minor as nat,
                latest.patch as nat,
            )
        }),
        notice is Some <==> (live matches Some(pr) && pr.0),
        notice matches Some(n) ==> (live matches Some(pr) && n == pr.1),
{
    let (update, latest) = match live {
        Some(pr) => pr,
        None => (false, current.clone()),
    };
    let ts = u64_to_string(now);
    let vs = latest.to_string();
    cache.last_version_check = Some((ts, vs));
    if update {
        Some(latest)
    } else {
        None
    }
}

/// Relies on std::time::SystemTime::now and Duration::as_secs: the
/// whole seconds of the system clock since the Unix epoch, zero when
/// the clock reads before the epoch. Nothing is promised of a clock.
#[verifier::external_body]
pub fn now_secs() -> u64 {
    match std::time::SystemTime::now().duration_since(std::time::UNIX_EPOCH) {
        Ok(d) => d.as_secs(),
        Err(_) => 0,
    }
}

} // verus!
