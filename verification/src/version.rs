use vstd::prelude::*;
use vstd::string::StrSliceExecFns;
use vstd::string::StringExecFns;

use crate::decimal::count_digits;
use crate::decimal::dec_digits;
use crate::decimal::dec_val;
use crate::decimal::is_digit;
use crate::decimal::is_digit_at;
use crate::decimal::leading_digits;
use crate::decimal::lemma_dec_digits_all_digits;
use crate::decimal::lemma_dec_val_dec_digits;
use crate::decimal::lemma_leading_digits_concat;
use crate::decimal::read_digits_value;
use crate::decimal::u64_to_string;
use crate::errors::UpdateError;

verus! {

/// A parsed version identifier: an ordered numeric triple, with
/// whatever trailed the patch segment kept as an uninterpreted suffix.
/// Ordering and the canonical string ignore the suffix.
#[derive(Debug)]
pub struct Version {
    pub major: u64,
    pub minor: u64,
    pub patch: u64,
    pub suffix: String,
}

/// A tag with its leading non-digit characters removed; parsing
/// starts at the first digit, so prefixes such as `v` are ignored.
pub open spec fn spec_skip_prefix(s: Seq<char>) -> Seq<char>
    decreases s.len(),
{
    if s.len() > 0 && !is_digit(s[0]) {
        spec_skip_prefix(s.drop_first())
    } else {
        s
    }
}

/// What parsing a tag yields: the numeric triple and the suffix, or
/// nothing when a segment is missing, non-numeric, or too large for
/// a `u64`.
pub open spec fn spec_parse_version(s: Seq<char>) -> Option<(nat, nat, nat, Seq<char>)> {
    let t1 = spec_skip_prefix(s);
    let k1 = leading_digits(t1);
    let r1 = t1.skip(k1 as int);
    if k1 == 0 || dec_val(t1.take(k1 as int)) > u64::MAX || r1.len() == 0 || r1[0] != '.' {
        None
    } else {
        let t2 = r1.drop_first();
        let k2 = leading_digits(t2);
        let r2 = t2.skip(k2 as int);
        if k2 == 0 || dec_val(t2.take(k2 as int)) > u64::MAX || r2.len() == 0 || r2[0] != '.' {
            None
        } else {
            let t3 = r2.drop_first();
            let k3 = leading_digits(t3);
            if k3 == 0 || dec_val(t3.take(k3 as int)) > u64::MAX {
                None
            } else {
                Some(
                    (
                        dec_val(t1.take(k1 as int)),
                        dec_val(t2.take(k2 as int)),
                        dec_val(t3.take(k3 as int)),
                        t3.skip(k3 as int),
                    ),
                )
            }
        }
    }
}

/// The canonical string of a version: the numeric triple joined by
/// dots, without the suffix.
pub open spec fn spec_version_chars(major: nat, minor: nat, patch: nat) -> Seq<char> {
    dec_digits(major) + "."@ + dec_digits(minor) + "."@ + dec_digits(patch)
}

impl Version {
    /// Strict greater-than on the numeric triple; the suffix plays
    /// no part, so equal triples with different suffixes order equal.
    pub open spec fn spec_is_newer_than(self, other: Version) -> bool {
        self.major > other.major || (self.major == other.major && (self.minor > other.minor || (
        self.minor == other.minor && self.patch > other.patch)))
    }

    pub fn is_newer_than(&self, other: &Version) -> (r: bool)
        ensures
            r == self.spec_is_newer_than(*other),
    {
        if self.major != other.major {
            self.major > other.major
        } else if self.minor != other.minor {
            self.minor > other.minor
        } else {
            self.patch > other.patch
        }
    }

    /// Parses a tag string. Fails exactly when the tag does not carry
    /// a dot-separated numeric triple after its non-digit prefix.
    #[verifier::rlimit(100)]
    pub fn from_string(s: &str) -> (r: Result<Version, UpdateError>)
        ensures
            match r {
                Ok(v) => spec_parse_version(s@) == Some(
                    (v.major as nat, v.minor as nat, v.patch as nat, v.suffix@),
                ),
                Err(e) => spec_parse_version(s@) is None && e is Parse,
            },
    {
        let len = s.unicode_len();
        let mut p: usize = 0;
        proof {
            assert(s@.skip(0) =~= s@);
        }
        while p < len && !is_digit_at(s, p)
            invariant
                p <= len,
                len == s@.len(),
                spec_skip_prefix(s@) == spec_skip_prefix(s@.skip(p as int)),
            decreases len - p,
        {
            proof {
                assert(s@.skip(p as int)[0] == s@[p as int]);
                assert(s@.skip(p as int).drop_first() =~= s@.skip(p as int + 1));
            }
            p += 1;
        }
        proof {
            if p < len {
                assert(s@.skip(p as int)[0] == s@[p as int]);
            }
            assert(spec_skip_prefix(s@) == s@.skip(p as int));
        }
        let ghost t1 = spec_skip_prefix(s@);
        let k1 = count_digits(s, p);
        if k1 == 0 {
            return Err(UpdateError::Parse);
        }
        proof {
            assert(t1.take(k1 as int) =~= s@.subrange(p as int, p + k1));
        }
        let major = match read_digits_value(s, p, k1) {
            Some(v) => v,
            None => {
                return Err(UpdateError::Parse);
            },
        };
        let q1 = p + k1;
        proof {
            assert(t1.skip(k1 as int) =~= s@.skip(q1 as int));
        }
        if q1 >= len {
            return Err(UpdateError::Parse);
        }
        if s.get_char(q1) != '.' {
            proof {
                assert(t1.skip(k1 as int)[0] == s@[q1 as int]);
            }
            return Err(UpdateError::Parse);
        }
        proof {
            assert(t1.skip(k1 as int)[0] == s@[q1 as int]);
            assert(t1.skip(k1 as int).drop_first() =~= s@.skip(q1 + 1));
        }
        let p2 = q1 + 1;
        let ghost t2 = t1.skip(k1 as int).drop_first();
        let k2 = count_digits(s, p2);
        if k2 == 0 {
            return Err(UpdateError::Parse);
        }
        proof {
            assert(t2.take(k2 as int) =~= s@.subrange(p2 as int, p2 + k2));
        }
        let minor = match read_digits_value(s, p2, k2) {
            Some(v) => v,
            None => {
                return Err(UpdateError::Parse);
            },
        };
        let q2 = p2 + k2;
        proof {
            assert(t2.skip(k2 as int) =~= s@.skip(q2 as int));
        }
        if q2 >= len {
            return Err(UpdateError::Parse);
        }
        if s.get_char(q2) != '.' {
            proof {
                assert(t2.skip(k2 as int)[0] == s@[q2 as int]);
            }
            return Err(UpdateError::Parse);
        }
        proof {
            assert(t2.skip(k2 as int)[0] == s@[q2 as int]);
            assert(t2.skip(k2 as int).drop_first() =~= s@.skip(q2 + 1));
        }
        let p3 = q2 + 1;
        let ghost t3 = t2.skip(k2 as int).drop_first();
        let k3 = count_digits(s, p3);
        if k3 == 0 {
            return Err(UpdateError::Parse);
        }
        proof {
            assert(t3.take(k3 as int) =~= s@.subrange(p3 as int, p3 + k3));
        }
        let patch = match read_digits_value(s, p3, k3) {
            Some(v) => v,
            None => {
                return Err(UpdateError::Parse);
            },
        };
        let q3 = p3 + k3;
        let suffix = s.substring_char(q3, len).to_owned();
        proof {
            assert(t3.skip(k3 as int) =~= s@.subrange(q3 as int, len as int));
        }
        Ok(Version { major, minor, patch, suffix })
    }

    /// The canonical "major.minor.patch" string of this version.
    pub fn to_string(&self) -> (r: String)
        ensures
            r@ == spec_version_chars(self.major as nat, self.minor as nat, self.patch as nat),
    {
        let mut s = u64_to_string(self.major);
        s.append(".");
        let mid = u64_to_string(self.minor);
        s.append(mid.as_str());
        s.append(".");
        let last = u64_to_string(self.patch);
        s.append(last.as_str());
        proof {
            assert(s@ =~= spec_version_chars(
                self.major as nat,
                self.minor as nat,
                self.patch as nat,
            ));
        }
        s
    }
}

impl Clone for Version {
    fn clone(&self) -> (r: Self)
        ensures
            r.major == self.major,
            r.minor == self.minor,
            r.patch == self.patch,
            r.suffix@ == self.suffix@,
    {
        Version {
            major: self.major,
            minor: self.minor,
            patch: self.patch,
            suffix: self.suffix.clone(),
        }
    }
}

/// Parsing the canonical string of any numeric triple yields that
/// same triple back, with an empty suffix: the round trip through
/// `to_string` and `from_string` preserves (major, minor, patch).
pub proof fn lemma_version_string_round_trip(major: u64, minor: u64, patch: u64)
    ensures
        spec_parse_version(spec_version_chars(major as nat, minor as nat, patch as nat)) == Some(
            (major as nat, minor as nat, patch as nat, Seq::<char>::empty()),
        ),
{
    reveal_strlit(".");
    let dot = "."@;
    let a = dec_digits(major as nat);
    let b = dec_digits(minor as nat);
    let c = dec_digits(patch as nat);
    let s = spec_version_chars(major as nat, minor as nat, patch as nat);
    lemma_dec_digits_all_digits(major as nat);
    lemma_dec_digits_all_digits(minor as nat);
    lemma_dec_digits_all_digits(patch as nat);
    lemma_dec_val_dec_digits(major as nat);
    lemma_dec_val_dec_digits(minor as nat);
    lemma_dec_val_dec_digits(patch as nat);
    assert(dot.len() == 1 && dot[0] == '.');
    assert(!is_digit('.'));

    let rest1 = dot + b + dot + c;
    assert(s =~= a + rest1);
    assert(s[0] == a[0]);
    assert(spec_skip_prefix(s) == s);
    lemma_leading_digits_concat(a, rest1);
    assert(leading_digits(s) == a.len());
    let k1 = leading_digits(s);
    assert(s.take(k1 as int) =~= a);
    assert(dec_val(a) == major as nat);
    let r1 = s.skip(k1 as int);
    assert(r1 =~= rest1);
    assert(r1[0] == '.');

    let t2 = r1.drop_first();
    let rest2 = dot + c;
    assert(t2 =~= b + rest2);
    lemma_leading_digits_concat(b, rest2);
    let k2 = leading_digits(t2);
    assert(k2 == b.len());
    assert(t2.take(k2 as int) =~= b);
    assert(dec_val(b) == minor as nat);
    let r2 = t2.skip(k2 as int);
    assert(r2 =~= rest2);
    assert(r2[0] == '.');

    let t3 = r2.drop_first();
    assert(t3 =~= c + Seq::<char>::empty());
    lemma_leading_digits_concat(c, Seq::<char>::empty());
    let k3 = leading_digits(t3);
    assert(k3 == c.len());
    assert(t3.take(k3 as int) =~= c);
    assert(dec_val(c) == patch as nat);
    assert(t3.skip(k3 as int) =~= Seq::<char>::empty());
}

/// `is_newer_than` never holds of a version against itself.
pub proof fn lemma_newer_irreflexive(a: Version)
    ensures
        !a.spec_is_newer_than(a),
{
}

/// `is_newer_than` holds in at most one direction between two
/// versions.
pub proof fn lemma_newer_asymmetric(a: Version, b: Version)
    ensures
        a.spec_is_newer_than(b) ==> !b.spec_is_newer_than(a),
{
}

/// `is_newer_than` is transitive.
pub proof fn lemma_newer_transitive(a: Version, b: Version, c: Version)
    ensures
        a.spec_is_newer_than(b) && b.spec_is_newer_than(c) ==> a.spec_is_newer_than(c),
{
}

/// Between any two versions, either one is newer than the other or
/// their numeric triples are equal: the order is total on the triple,
/// and blind to the suffix.
pub proof fn lemma_newer_total(a: Version, b: Version)
    ensures
        a.spec_is_newer_than(b) || b.spec_is_newer_than(a) || (a.major == b.major && a.minor
            == b.minor && a.patch == b.patch),
{
}

} // verus!
