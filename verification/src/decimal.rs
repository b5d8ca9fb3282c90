use vstd::prelude::*;
use vstd::string::StrSliceExecFns;
use vstd::string::StringExecFns;

verus! {

/// A decimal digit, `'0'` through `'9'` (code points 48 through 57).
pub open spec fn is_digit(c: char) -> bool {
    48 <= c as u32 && c as u32 <= 57
}

/// Numeric value of a decimal digit character.
pub open spec fn digit_val(c: char) -> nat {
    ((c as u32) - 48) as nat
}

/// The digit character for a value below ten.
pub open spec fn char_of_digit(d: nat) -> char {
    ((d + 48) as u8) as char
}

/// The decimal representation of `n`, most significant digit first,
/// with no leading zeros and at least one digit.
pub open spec fn dec_digits(n: nat) -> Seq<char>
    decreases n,
{
    if n < 10 {
        seq![char_of_digit(n)]
    } else {
        dec_digits(n / 10).push(char_of_digit(n % 10))
    }
}

/// The numeric value of a digit string, read most significant first.
pub open spec fn dec_val(s: Seq<char>) -> nat
    decreases s.len(),
{
    if s.len() == 0 {
        0
    } else {
        dec_val(s.drop_last()) * 10 + digit_val(s.last())
    }
}

pub open spec fn all_digits(s: Seq<char>) -> bool {
    forall|i: int| 0 <= i < s.len() ==> is_digit(s[i])
}

/// Every character of a decimal representation is a digit, and there
/// is at least one of them.
pub proof fn lemma_dec_digits_all_digits(n: nat)
    ensures
        dec_digits(n).len() >= 1,
        all_digits(dec_digits(n)),
    decreases n,
{
    if n < 10 {
        assert(is_digit(char_of_digit(n)));
    } else {
        lemma_dec_digits_all_digits(n / 10);
        assert(is_digit(char_of_digit(n % 10)));
        assert forall|i: int| 0 <= i < dec_digits(n).len() implies is_digit(
            dec_digits(n)[i],
        ) by {
            if i < dec_digits(n / 10).len() {
                assert(dec_digits(n)[i] == dec_digits(n / 10)[i]);
            }
        }
    }
}

/// Reading the decimal representation of `n` back gives `n`.
pub proof fn lemma_dec_val_dec_digits(n: nat)
    ensures
        dec_val(dec_digits(n)) == n,
    decreases n,
{
    if n < 10 {
        let s = dec_digits(n);
        assert(s == seq![char_of_digit(n)]);
        assert(s.drop_last() =~= Seq::<char>::empty());
        assert(s.last() == char_of_digit(n));
        assert(digit_val(char_of_digit(n)) == n);
        assert(dec_val(s) == dec_val(s.drop_last()) * 10 + digit_val(s.last()));
        assert(dec_val(s) == n);
    } else {
        lemma_dec_val_dec_digits(n / 10);
        let s = dec_digits(n);
        assert(s == dec_digits(n / 10).push(char_of_digit(n % 10)));
        assert(s.drop_last() =~= dec_digits(n / 10));
        assert(s.last() == char_of_digit(n % 10));
        assert(digit_val(char_of_digit(n % 10)) == n % 10);
        assert(dec_val(s) == dec_val(s.drop_last()) * 10 + digit_val(s.last()));
        assert(n / 10 * 10 + n % 10 == n);
        assert(dec_val(s) == n);
    }
}

/// The value of a digit string only grows as digits are appended.
pub proof fn lemma_dec_val_prefix_le(s: Seq<char>, i: int)
    requires
        0 <= i <= s.len(),
    ensures
        dec_val(s.take(i)) <= dec_val(s),
    decreases s.len(),
{
    if i == s.len() {
        assert(s.take(i) =~= s);
    } else {
        assert(s.take(i) =~= s.drop_last().take(i));
        lemma_dec_val_prefix_le(s.drop_last(), i);
    }
}

/// Number of consecutive digit characters at the front of `s`.
pub open spec fn leading_digits(s: Seq<char>) -> nat
    decreases s.len(),
{
    if s.len() > 0 && is_digit(s[0]) {
        1 + leading_digits(s.drop_first())
    } else {
        0
    }
}

/// The leading digit run stops at the string's end or at the first
/// non-digit character.
pub proof fn lemma_leading_digits_stop(s: Seq<char>)
    ensures
        leading_digits(s) <= s.len(),
        leading_digits(s) < s.len() ==> !is_digit(s[leading_digits(s) as int]),
    decreases s.len(),
{
    if s.len() > 0 && is_digit(s[0]) {
        lemma_leading_digits_stop(s.drop_first());
        assert(forall|j: int|
            0 <= j < s.drop_first().len() ==> s.drop_first()[j] == s[j + 1]);
    }
}

/// A run of digits followed by a non-digit (or nothing) has exactly
/// that run as its leading digits.
pub proof fn lemma_leading_digits_concat(a: Seq<char>, b: Seq<char>)
    requires
        all_digits(a),
        b.len() == 0 || !is_digit(b[0]),
    ensures
        leading_digits(a + b) == a.len(),
    decreases a.len(),
{
    if a.len() == 0 {
        assert(a + b =~= b);
    } else {
        assert((a + b)[0] == a[0]);
        assert((a + b).drop_first() =~= a.drop_first() + b);
        assert(all_digits(a.drop_first()));
        lemma_leading_digits_concat(a.drop_first(), b);
    }
}

/// The digit character for a value below ten, as a one-character
/// string slice.
pub fn digit_str(d: u64) -> (r: &'static str)
    requires
        d < 10,
    ensures
        r@ == seq![char_of_digit(d as nat)],
{
    let r: &'static str = match d {
        0 => "0",
        1 => "1",
        2 => "2",
        3 => "3",
        4 => "4",
        5 => "5",
        6 => "6",
        7 => "7",
        8 => "8",
        _ => "9",
    };
    proof {
        reveal_strlit("0");
        reveal_strlit("1");
        reveal_strlit("2");
        reveal_strlit("3");
        reveal_strlit("4");
        reveal_strlit("5");
        reveal_strlit("6");
        reveal_strlit("7");
        reveal_strlit("8");
        reveal_strlit("9");
        assert(r@ =~= seq![char_of_digit(d as nat)]);
    }
    r
}

/// The decimal representation of `n` as a string.
pub fn u64_to_string(n: u64) -> (r: String)
    ensures
        r@ == dec_digits(n as nat),
    decreases n,
{
    if n < 10 {
        let s = digit_str(n).to_owned();
        proof {
            assert(s@ =~= dec_digits(n as nat));
        }
        s
    } else {
        let mut s = u64_to_string(n / 10);
        s.append(digit_str(n % 10));
        proof {
            assert(s@ =~= dec_digits(n as nat));
        }
        s
    }
}

/// Whether the character of `s` at `i` is a decimal digit.
pub fn is_digit_at(s: &str, i: usize) -> (b: bool)
    requires
        i < s@.len(),
    ensures
        b == is_digit(s@[i as int]),
{
    let u = s.get_char(i) as u32;
    48 <= u && u <= 57
}

/// Number of consecutive digit characters in `s` starting at `from`.
pub fn count_digits(s: &str, from: usize) -> (k: usize)
    requires
        from <= s@.len(),
    ensures
        from + k <= s@.len(),
        k as nat == leading_digits(s@.skip(from as int)),
        forall|j: int| from <= j < from + k ==> is_digit(s@[j]),
{
    let len = s.unicode_len();
    let mut i = from;
    while i < len && is_digit_at(s, i)
        invariant
            from <= i <= len,
            len == s@.len(),
            leading_digits(s@.skip(from as int)) == (i - from) + leading_digits(
                s@.skip(i as int),
            ),
            forall|j: int| from <= j < i ==> is_digit(s@[j]),
        decreases len - i,
    {
        proof {
            assert(s@.skip(i as int)[0] == s@[i as int]);
            assert(s@.skip(i as int).drop_first() =~= s@.skip(i as int + 1));
        }
        i += 1;
    }
    proof {
        if i < len {
            assert(s@.skip(i as int)[0] == s@[i as int]);
            assert(leading_digits(s@.skip(i as int)) == 0);
        } else {
            assert(s@.skip(i as int).len() == 0);
        }
    }
    i - from
}

/// Reads the value of the `k` digits of `s` starting at `from`;
/// `None` exactly when the value does not fit in a `u64`.
pub fn read_digits_value(s: &str, from: usize, k: usize) -> (r: Option<u64>)
    requires
        from + k <= s@.len(),
        from + k <= usize::MAX,
        forall|j: int| from <= j < from + k ==> is_digit(s@[j]),
    ensures
        match r {
            Some(v) => v as nat == dec_val(s@.subrange(from as int, from + k)),
            None => dec_val(s@.subrange(from as int, from + k)) > u64::MAX,
        },
{
    let mut val: u64 = 0;
    let mut j: usize = 0;
    while j < k
        invariant
            0 <= j <= k,
            from + k <= s@.len(),
            from + k <= usize::MAX,
            forall|jj: int| from <= jj < from + k ==> is_digit(s@[jj]),
            val as nat == dec_val(s@.subrange(from as int, from + j)),
        decreases k - j,
    {
        let c = s.get_char(from + j);
        let d: u64 = ((c as u32) - 48) as u64;
        proof {
            let sub = s@.subrange(from as int, from + j + 1);
            assert(sub.drop_last() =~= s@.subrange(from as int, from + j));
            assert(sub.last() == s@[from + j]);
        }
        let stepped: Option<u64> = match val.checked_mul(10) {
            Some(m) => m.checked_add(d),
            None => None,
        };
        match stepped {
            Some(v) => {
                val = v;
            },
            None => {
                proof {
                    let whole = s@.subrange(from as int, from + k);
                    let part = s@.subrange(from as int, from + j + 1);
                    assert(dec_val(part) > u64::MAX);
                    assert(part =~= whole.take(j + 1));
                    lemma_dec_val_prefix_le(whole, j + 1);
                }
                return None;
            },
        }
        j += 1;
    }
    Some(val)
}

/// Reads a whole string as a decimal `u64`: it must be non-empty,
/// all digits, and fit.
pub fn parse_u64(s: &str) -> (r: Option<u64>)
    ensures
        match r {
            Some(v) => s@.len() >= 1 && all_digits(s@) && v as nat == dec_val(s@),
            None => s@.len() == 0 || !all_digits(s@) || dec_val(s@) > u64::MAX,
        },
{
    let len = s.unicode_len();
    let k = count_digits(s, 0);
    proof {
        assert(s@.skip(0) =~= s@);
    }
    if len == 0 {
        return None;
    }
    if k < len {
        proof {
            lemma_leading_digits_stop(s@);
        }
        return None;
    }
    let r = read_digits_value(s, 0, len);
    proof {
        assert(s@.subrange(0, len as int) =~= s@);
    }
    r
}

} // verus!
