use vstd::prelude::*;

use crate::errors::UpdateError;
use crate::version::spec_parse_version;
use crate::version::Version;

verus! {

/// One entry of the release feed: a tag identifier with its
/// prerelease and draft markers. The feed lists entries newest first.
pub struct Release {
    pub tag_name: String,
    pub prerelease: bool,
    pub draft: bool,
}

/// A release may be installed when it is not a draft and, unless
/// prereleases are allowed, not a prerelease.
pub open spec fn spec_eligible(r: Release, allow_prerelease: bool) -> bool {
    !r.draft && (allow_prerelease || !r.prerelease)
}

/// Index of the first eligible entry, if any. Selection deliberately
/// trusts the feed's newest-first ordering rather than maximising by
/// version.
pub open spec fn spec_first_eligible(s: Seq<Release>, allow_prerelease: bool) -> Option<int>
    decreases s.len(),
{
    if s.len() == 0 {
        None
    } else if spec_eligible(s[0], allow_prerelease) {
        Some(0int)
    } else {
        match spec_first_eligible(s.drop_first(), allow_prerelease) {
            Some(i) => Some(i + 1),
            None => None,
        }
    }
}

/// What the selected index means: it is in range, eligible, and
/// nothing before it is eligible; `None` means nothing qualifies.
pub proof fn lemma_first_eligible_sound(s: Seq<Release>, allow_prerelease: bool)
    ensures
        match spec_first_eligible(s, allow_prerelease) {
            Some(i) => 0 <= i < s.len() && spec_eligible(s[i], allow_prerelease) && forall|j: int|
                0 <= j < i ==> !spec_eligible(s[j], allow_prerelease),
            None => forall|j: int| 0 <= j < s.len() ==> !spec_eligible(s[j], allow_prerelease),
        },
    decreases s.len(),
{
    if s.len() > 0 && !spec_eligible(s[0], allow_prerelease) {
        lemma_first_eligible_sound(s.drop_first(), allow_prerelease);
        assert forall|j: int| 0 <= j < s.len() && spec_eligible(s[j], allow_prerelease) implies j
            >= 1 by {}
        assert(forall|j: int| 1 <= j < s.len() ==> s[j] == s.drop_first()[j - 1]);
    }
}

/// A position where nothing earlier is eligible and the entry itself
/// is eligible is exactly the selected one.
pub proof fn lemma_first_eligible_at(s: Seq<Release>, allow_prerelease: bool, i: int)
    requires
        0 <= i < s.len(),
        spec_eligible(s[i], allow_prerelease),
        forall|j: int| 0 <= j < i ==> !spec_eligible(s[j], allow_prerelease),
    ensures
        spec_first_eligible(s, allow_prerelease) == Some(i),
    decreases s.len(),
{
    if i > 0 {
        assert(forall|j: int| 0 <= j < s.drop_first().len() ==> s.drop_first()[j] == s[j + 1]);
        lemma_first_eligible_at(s.drop_first(), allow_prerelease, i - 1);
    }
}

/// A draft entry is never the selected one, wherever it stands and
/// whether or not prereleases are allowed.
pub proof fn lemma_draft_never_selected(s: Seq<Release>, allow_prerelease: bool, i: int)
    requires
        0 <= i < s.len(),
        s[i].draft,
    ensures
        spec_first_eligible(s, allow_prerelease) != Some(i),
{
    lemma_first_eligible_sound(s, allow_prerelease);
}

/// Scans the feed in order and hands back the tag of the first
/// eligible entry; fails exactly when no entry qualifies.
pub fn select_latest(releases: &Vec<Release>, allow_prerelease: bool) -> (r: Result<
    String,
    UpdateError,
>)
    ensures
        match r {
            Ok(tag) => spec_first_eligible(releases@, allow_prerelease) matches Some(i) && tag@
                == releases@[i].tag_name@,
            Err(e) => spec_first_eligible(releases@, allow_prerelease) is None && e is NotFound,
        },
{
    let n = releases.len();
    let mut i: usize = 0;
    while i < n
        invariant
            i <= n,
            n == releases@.len(),
            forall|j: int| 0 <= j < i ==> !spec_eligible(releases@[j], allow_prerelease),
        decreases n - i,
    {
        let rel = &releases[i];
        if !rel.draft && (allow_prerelease || !rel.prerelease) {
            proof {
                lemma_first_eligible_at(releases@, allow_prerelease, i as int);
            }
            return Ok(rel.tag_name.clone());
        }
        i += 1;
    }
    proof {
        lemma_first_eligible_sound(releases@, allow_prerelease);
    }
    Err(UpdateError::NotFound)
}

/// How a parsed tag's numeric triple compares against the running
/// version: strictly greater, lexicographically.
pub open spec fn spec_triple_newer(t: (nat, nat, nat, Seq<char>), cur: Version) -> bool {
    t.0 > cur.major || (t.0 == cur.major && (t.1 > cur.minor || (t.1 == cur.minor && t.2
        > cur.patch)))
}

/// Selects the newest qualifying release from the feed and compares
/// it against the running version. Returns whether an update is
/// available together with the candidate: the parsed feed version
/// when it is newer, the running version otherwise. Fails with
/// `NotFound` when nothing in the feed qualifies and with `Parse`
/// when the selected tag is malformed.
pub fn check_version(current: &Version, releases: &Vec<Release>, beta: bool) -> (r: Result<
    (bool, Version),
    UpdateError,
>)
    ensures
        match r {
            Ok((update, v)) => spec_first_eligible(releases@, beta) matches Some(i)
                && spec_parse_version(releases@[i].tag_name@) matches Some(t) && update
                == spec_triple_newer(t, *current) && (update ==> v.major as nat == t.0
                && v.minor as nat == t.1 && v.patch as nat == t.2 && v.suffix@ == t.3) && (!update
                ==> v.major == current.major && v.minor == current.minor && v.patch
                == current.patch && v.suffix@ == current.suffix@),
            Err(e) => (e is NotFound && spec_first_eligible(releases@, beta) is None) || (
            e is Parse && (spec_first_eligible(releases@, beta) matches Some(i)
                && spec_parse_version(releases@[i].tag_name@) is None)),
        },
{
    let tag = match select_latest(releases, beta) {
        Ok(tag) => tag,
        Err(e) => {
            return Err(e);
        },
    };
    let latest = match Version::from_string(tag.as_str()) {
        Ok(v) => v,
        Err(e) => {
            return Err(e);
        },
    };
    if latest.is_newer_than(current) {
        Ok((true, latest))
    } else {
        Ok((false, current.clone()))
    }
}

} // verus!
