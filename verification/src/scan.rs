//! Reading a version out of what `cargo --version` or `rustc --version` prints.
//!
//! The text is free-form. The version is the first `MAJOR.MINOR.PATCH` in it:
//! three runs of decimal digits, joined by dots, each run taken whole and each
//! number small enough for a `u32`. The version is a nightly if the text
//! mentions `nightly` anywhere, or if a date follows the release number
//! directly, as in `1.70.0-2023-04-01`.

use crate::text::chars_of;
use crate::text::contains;
use crate::text::contains_chars;
use crate::version::Version;
use vstd::prelude::*;

verus! {

/// `c` is one of the decimal digits `0` to `9`.
pub open spec fn is_digit(c: char) -> bool {
    '0' <= c && c <= '9'
}

/// The number that the digit `c` stands for.
pub open spec fn digit_value(c: char) -> nat
    recommends
        is_digit(c),
{
    (c as u32 - '0' as u32) as nat
}

/// The end of the longest run of digits of `s` that starts at `from`: the
/// index of the first character at or after `from` that is no digit, or the
/// length of `s`.
pub open spec fn digits_end(s: Seq<char>, from: int) -> int
    decreases s.len() - from,
{
    if 0 <= from < s.len() && is_digit(s[from]) {
        digits_end(s, from + 1)
    } else {
        from
    }
}

/// The number that `digits` write in decimal.
pub open spec fn number(digits: Seq<char>) -> nat
    decreases digits.len(),
{
    if digits.len() == 0 {
        0
    } else {
        number(digits.drop_last()) * 10 + digit_value(digits.last())
    }
}

/// A release number found in a text, and the index at which it ends.
pub ghost struct Release {
    pub major: nat,
    pub minor: nat,
    pub patch: nat,
    pub end: int,
}

/// The release number that starts at index `at` of `s`, if one starts there.
///
/// One starts there if a run of digits begins at `at` (the character before
/// it, if any, is no digit), a dot and a second run follow it, a dot and a
/// third run follow that, and each of the three numbers fits in a `u32`.
pub open spec fn release_at(s: Seq<char>, at: int) -> Option<Release> {
    let a = digits_end(s, at);
    let b = digits_end(s, a + 1);
    let c = digits_end(s, b + 1);
    let major = number(s.subrange(at, a));
    let minor = number(s.subrange(a + 1, b));
    let patch = number(s.subrange(b + 1, c));
    if {
        &&& 0 <= at < a
        &&& (at == 0 || !is_digit(s[at - 1]))
        &&& a < s.len() && s[a] == '.' && a + 1 < b
        &&& b < s.len() && s[b] == '.' && b + 1 < c
        &&& major <= u32::MAX && minor <= u32::MAX && patch <= u32::MAX
    } {
        Some(Release { major, minor, patch, end: c })
    } else {
        None
    }
}

/// The first release number of `s` that starts at index `from` or later.
pub open spec fn first_release(s: Seq<char>, from: int) -> Option<Release>
    decreases s.len() - from,
{
    if from < 0 || from >= s.len() {
        None
    } else if release_at(s, from) is Some {
        release_at(s, from)
    } else {
        first_release(s, from + 1)
    }
}

/// A date stands in `s` at index `at`, behind a hyphen: `-YYYY-MM-DD`.
pub open spec fn dated_at(s: Seq<char>, at: int) -> bool {
    &&& 0 <= at && at + 11 <= s.len()
    &&& s[at] == '-' && s[at + 5] == '-' && s[at + 8] == '-'
    &&& is_digit(s[at + 1]) && is_digit(s[at + 2]) && is_digit(s[at + 3]) && is_digit(s[at + 4])
    &&& is_digit(s[at + 6]) && is_digit(s[at + 7])
    &&& is_digit(s[at + 9]) && is_digit(s[at + 10])
}

/// The version that the text `s` reports, if it reports one.
pub open spec fn parse_version(s: Seq<char>) -> Option<Version> {
    match first_release(s, 0) {
        Some(release) => Some(
            Version {
                major: release.major as u32,
                minor: release.minor as u32,
                patch: release.patch as u32,
                is_nightly: contains(s, "nightly"@) || dated_at(s, release.end),
            },
        ),
        None => None,
    }
}

/// The run of digits that starts at `from` ends at `from` or later, within
/// `s`, and holds digits only.
pub proof fn lemma_digits_end(s: Seq<char>, from: int)
    requires
        0 <= from <= s.len(),
    ensures
        from <= digits_end(s, from) <= s.len(),
        forall|k: int| from <= k < digits_end(s, from) ==> is_digit(s[k]),
        digits_end(s, from) < s.len() ==> !is_digit(s[digits_end(s, from)]),
    decreases s.len() - from,
{
    if from < s.len() && is_digit(s[from]) {
        lemma_digits_end(s, from + 1);
    }
}

/// `first_release` finds the release number that starts first: none starts
/// between `from` and the one it finds, and where it finds none, none
/// starts at `from` or later.
pub proof fn lemma_first_release_is_leftmost(s: Seq<char>, from: int)
    requires
        0 <= from,
    ensures
        match first_release(s, from) {
            Some(release) => exists|at: int|
                {
                    &&& from <= at < s.len()
                    &&& #[trigger] release_at(s, at) == Some(release)
                    &&& forall|k: int| from <= k < at ==> #[trigger] release_at(s, k) is None
                },
            None => forall|k: int| from <= k ==> #[trigger] release_at(s, k) is None,
        },
    decreases s.len() - from,
{
    if from >= s.len() {
        assert forall|k: int| from <= k implies #[trigger] release_at(s, k) is None by {
            assert(digits_end(s, k) == k);
        }
    } else if release_at(s, from) is Some {
    } else {
        lemma_first_release_is_leftmost(s, from + 1);
        match first_release(s, from + 1) {
            Some(release) => {
                let at = choose|at: int|
                    {
                        &&& from + 1 <= at < s.len()
                        &&& #[trigger] release_at(s, at) == Some(release)
                        &&& forall|k: int| from + 1 <= k < at ==> #[trigger] release_at(s, k) is None
                    };
                assert(from <= at < s.len() && release_at(s, at) == Some(release));
            },
            None => {},
        }
    }
}

/// A text reports a version if and only if a release number starts
/// somewhere in it.
pub proof fn lemma_parse_version_finds_any(s: Seq<char>)
    ensures
        parse_version(s) is Some <==> exists|at: int| #[trigger] release_at(s, at) is Some,
{
    lemma_first_release_is_leftmost(s, 0);
    if exists|at: int| #[trigger] release_at(s, at) is Some {
        let at = choose|at: int| #[trigger] release_at(s, at) is Some;
        assert(0 <= at);
    }
}

/// A text without a digit reports no version.
pub proof fn lemma_text_without_digits_has_no_version(s: Seq<char>)
    requires
        forall|k: int| 0 <= k < s.len() ==> !is_digit(#[trigger] s[k]),
    ensures
        parse_version(s) is None,
{
    lemma_first_release_is_leftmost(s, 0);
    assert forall|at: int| 0 <= at implies #[trigger] release_at(s, at) is None by {
        assert(digits_end(s, at) == at);
    }
}

/// A text too short to hold a release number reports no version. The empty
/// text is such a one.
pub proof fn lemma_short_text_has_no_version(s: Seq<char>)
    requires
        s.len() < 5,
    ensures
        parse_version(s) is None,
{
    lemma_first_release_is_leftmost(s, 0);
    assert forall|at: int| 0 <= at implies #[trigger] release_at(s, at) is None by {
        if at <= s.len() {
            lemma_digits_end(s, at);
            let a = digits_end(s, at);
            if a + 1 <= s.len() {
                lemma_digits_end(s, a + 1);
                let b = digits_end(s, a + 1);
                if b + 1 <= s.len() {
                    lemma_digits_end(s, b + 1);
                }
            }
        } else {
            assert(digits_end(s, at) == at);
        }
    }
}

/// Whether `c` is a decimal digit.
fn is_digit_char(c: char) -> (r: bool)
    ensures
        r == is_digit(c),
{
    '0' <= c && c <= '9'
}

/// Reads the run of digits of `chars` that starts at `from`: where it ends,
/// and the number it writes if that fits in a `u32`.
fn read_number(chars: &Vec<char>, from: usize) -> (r: (usize, Option<u32>))
    requires
        from <= chars.len(),
    ensures
        r.0 == digits_end(chars@, from as int),
        from <= r.0 <= chars.len(),
        r.1 == if number(chars@.subrange(from as int, r.0 as int)) <= u32::MAX {
            Some(number(chars@.subrange(from as int, r.0 as int)) as u32)
        } else {
            None
        },
{
    let mut end: usize = from;
    let mut value: Option<u32> = Some(0);
    assert(chars@.subrange(from as int, from as int) == Seq::<char>::empty());
    while end < chars.len() && is_digit_char(chars[end])
        invariant
            from <= end <= chars.len(),
            digits_end(chars@, from as int) == digits_end(chars@, end as int),
            value == if number(chars@.subrange(from as int, end as int)) <= u32::MAX {
                Some(number(chars@.subrange(from as int, end as int)) as u32)
            } else {
                None
            },
        decreases chars.len() - end,
    {
        let digit: u32 = chars[end] as u32 - '0' as u32;
        assert(chars@.subrange(from as int, end + 1).drop_last() == chars@.subrange(
            from as int,
            end as int,
        ));
        value =
        match value {
            Some(n) => if n <= (u32::MAX - digit) / 10 {
                Some(n * 10 + digit)
            } else {
                None
            },
            None => None,
        };
        end += 1;
    }
    (end, value)
}

/// Reads the release number of `chars` that starts at index `at`, if one
/// starts there: its three numbers and the index at which it ends.
fn read_release(chars: &Vec<char>, at: usize) -> (r: Option<(u32, u32, u32, usize)>)
    requires
        at < chars.len(),
    ensures
        match r {
            Some((major, minor, patch, end)) => release_at(chars@, at as int) == Some(
                Release { major: major as nat, minor: minor as nat, patch: patch as nat, end: end as int },
            ),
            None => release_at(chars@, at as int) is None,
        },
{
    if at > 0 && is_digit_char(chars[at - 1]) {
        return None;
    }
    let (a, major) = read_number(chars, at);
    if a == at || a >= chars.len() || chars[a] != '.' {
        return None;
    }
    let (b, minor) = read_number(chars, a + 1);
    if b == a + 1 || b >= chars.len() || chars[b] != '.' {
        return None;
    }
    let (c, patch) = read_number(chars, b + 1);
    if c == b + 1 {
        return None;
    }
    match (major, minor, patch) {
        (Some(major), Some(minor), Some(patch)) => Some((major, minor, patch, c)),
        _ => None,
    }
}

/// Whether a date stands in `chars` at index `at`, behind a hyphen.
fn has_date_at(chars: &Vec<char>, at: usize) -> (r: bool)
    ensures
        r == dated_at(chars@, at as int),
{
    if chars.len() < 11 || at > chars.len() - 11 {
        return false;
    }
    chars[at] == '-' && chars[at + 5] == '-' && chars[at + 8] == '-' && is_digit_char(
        chars[at + 1],
    ) && is_digit_char(chars[at + 2]) && is_digit_char(chars[at + 3]) && is_digit_char(
        chars[at + 4],
    ) && is_digit_char(chars[at + 6]) && is_digit_char(chars[at + 7]) && is_digit_char(
        chars[at + 9],
    ) && is_digit_char(chars[at + 10])
}

impl Version {
    /// Reads the version out of `text`, the output of `cargo --version` or of
    /// `rustc --version`.
    ///
    /// Returns `None` if the text holds no release number.
    pub fn extract(text: &str) -> (version: Option<Version>)
        ensures
            version == parse_version(text@),
    {
        let chars = chars_of(text);
        let mut at: usize = 0;
        while at < chars.len()
            invariant
                at <= chars.len(),
                chars@ == text@,
                first_release(chars@, 0) == first_release(chars@, at as int),
            decreases chars.len() - at,
        {
            match read_release(&chars, at) {
                Some((major, minor, patch, end)) => {
                    let marker = chars_of("nightly");
                    let is_nightly = contains_chars(&chars, &marker) || has_date_at(&chars, end);
                    return Some(Version { major, minor, patch, is_nightly });
                },
                None => {},
            }
            at += 1;
        }
        None
    }
}

} // verus!
