//! Small verified helpers over string slices.

use vstd::prelude::*;
use vstd::string::StrSliceExecFns;

verus! {

/// Compares two string slices character by character.
#[verifier::loop_isolation(false)]
pub fn str_eq(a: &str, b: &str) -> (r: bool)
    ensures
        r == (a@ == b@),
{
    let n = a.unicode_len();
    if n != b.unicode_len() {
        return false;
    }
    let mut i: usize = 0;
    while i < n
        invariant
            i <= n,
            forall|j: int| 0 <= j < i ==> a@[j] == b@[j],
        decreases n - i,
    {
        if a.get_char(i) != b.get_char(i) {
            return false;
        }
        i += 1;
    }
    proof {
        assert(a@ =~= b@);
    }
    true
}

/// Whether `s` ends with `suffix`.
pub open spec fn spec_ends_with(s: Seq<char>, suffix: Seq<char>) -> bool {
    suffix.len() <= s.len() && s.skip(s.len() - suffix.len()) == suffix
}

/// Tests whether `s` ends with `suffix`.
#[verifier::loop_isolation(false)]
pub fn str_ends_with(s: &str, suffix: &str) -> (r: bool)
    ensures
        r == spec_ends_with(s@, suffix@),
{
    let n = s.unicode_len();
    let m = suffix.unicode_len();
    if m > n {
        return false;
    }
    let mut i: usize = 0;
    while i < m
        invariant
            i <= m,
            forall|j: int| 0 <= j < i ==> s@[n - m + j] == suffix@[j],
        decreases m - i,
    {
        if s.get_char(n - m + i) != suffix.get_char(i) {
            proof {
                assert(s@.skip(n - m)[i as int] != suffix@[i as int]);
            }
            return false;
        }
        i += 1;
    }
    proof {
        assert(s@.skip(n - m) =~= suffix@);
    }
    true
}

/// The numeric value of a decimal digit, or none for any other character.
pub open spec fn spec_digit(c: char) -> Option<u64> {
    if '0' <= c <= '9' {
        Some((c as u64 - '0' as u64) as u64)
    } else {
        None
    }
}

/// The value of a non-empty all-digit decimal numeral that fits in 64
/// bits; anything else parses to nothing.
pub open spec fn spec_parse_u64(s: Seq<char>) -> Option<u64>
    decreases s.len(),
{
    if s.len() == 0 {
        None
    } else {
        let last = spec_digit(s.last());
        if s.len() == 1 {
            last
        } else {
            match (spec_parse_u64(s.drop_last()), last) {
                (Some(head), Some(d)) => if head <= (u64::MAX - d) / 10 {
                    Some((10 * head + d) as u64)
                } else {
                    None
                },
                _ => None,
            }
        }
    }
}

/// Parses a non-empty decimal numeral.
#[verifier::loop_isolation(false)]
pub fn parse_u64(s: &str) -> (r: Option<u64>)
    ensures
        r == spec_parse_u64(s@),
{
    let n = s.unicode_len();
    if n == 0 {
        return None;
    }
    let mut value: u64 = 0;
    let mut i: usize = 0;
    let mut acc: Option<u64> = None;
    while i < n
        invariant
            i <= n,
            acc == spec_parse_u64(s@.take(i as int)),
            i > 0 ==> (acc matches Some(v) ==> value == v),
            i == 0 ==> acc is None,
        decreases n - i,
    {
        let c = s.get_char(i);
        proof {
            assert(s@.take(i + 1).drop_last() =~= s@.take(i as int));
            assert(s@.take(i + 1).last() == s@[i as int]);
        }
        let digit: Option<u64> = if '0' <= c && c <= '9' {
            Some(c as u64 - '0' as u64)
        } else {
            None
        };
        if i == 0 {
            acc = digit;
            value = match digit {
                Some(d) => d,
                None => 0,
            };
        } else {
            acc = match (acc, digit) {
                (Some(_), Some(d)) => {
                    if value <= (u64::MAX - d) / 10 {
                        value = 10 * value + d;
                        Some(value)
                    } else {
                        None
                    }
                },
                _ => None,
            };
        }
        i += 1;
    }
    proof {
        assert(s@.take(n as int) =~= s@);
    }
    acc
}

/// Builds `prefix + text` as one string.
pub fn prefixed(prefix: &str, text: &str) -> (r: String)
    ensures
        r@ == prefix@ + text@,
{
    let mut s = prefix.to_owned();
    s.append(text);
    s
}

/// Case-insensitive match of one character against a lowercase letter:
/// equal outright, or the uppercase form of it.
pub open spec fn ci_eq(c: char, lower: char) -> bool {
    c == lower || ('A' <= c <= 'Z' && c as int + 32 == lower as int)
}

/// Whether `needle` matches `hay` at position `at`, case-insensitively
/// for a lowercase needle.
pub open spec fn ci_match_at(hay: Seq<char>, needle: Seq<char>, at: int) -> bool {
    forall|j: int| 0 <= j < needle.len() ==> ci_eq(hay[at + j], #[trigger] needle[j])
}

/// Whether `hay` contains `needle` anywhere, case-insensitively for a
/// lowercase needle.
pub open spec fn ci_contains(hay: Seq<char>, needle: Seq<char>) -> bool {
    exists|at: int| 0 <= at <= hay.len() - needle.len() && #[trigger] ci_match_at(hay, needle, at)
}

fn ci_char_eq(c: char, lower: char) -> (r: bool)
    ensures
        r == ci_eq(c, lower),
{
    c == lower || ('A' <= c && c <= 'Z' && c as u32 + 32 == lower as u32)
}

/// Tests whether `hay` contains `needle`, case-insensitively for a
/// lowercase needle.
#[verifier::loop_isolation(false)]
pub fn ci_contains_str(hay: &str, needle: &str) -> (r: bool)
    ensures
        r == ci_contains(hay@, needle@),
{
    let n = hay.unicode_len();
    let m = needle.unicode_len();
    if m > n {
        return false;
    }
    let mut at: usize = 0;
    while at <= n - m
        invariant
            at <= n - m + 1,
            m <= n,
            forall|a: int| 0 <= a < at ==> !ci_match_at(hay@, needle@, a),
        decreases n - m + 1 - at,
    {
        let mut j: usize = 0;
        let mut matched = true;
        let ghost mut bad: int = 0;
        while j < m
            invariant
                j <= m,
                at + m <= n,
                matched ==> forall|k: int| 0 <= k < j ==> ci_eq(hay@[at + k], #[trigger] needle@[k]),
                !matched ==> 0 <= bad < m && !ci_eq(hay@[at + bad], needle@[bad]),
            decreases m - j,
        {
            if !ci_char_eq(hay.get_char(at + j), needle.get_char(j)) {
                proof {
                    bad = j as int;
                }
                matched = false;
                j = m;
            } else {
                j += 1;
            }
        }
        if matched {
            assert(ci_match_at(hay@, needle@, at as int));
            return true;
        }
        assert(!ci_match_at(hay@, needle@, at as int)) by {
            assert(!ci_eq(hay@[at + bad], needle@[bad]));
        }
        at += 1;
    }
    false
}

} // verus!
