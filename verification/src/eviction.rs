//! The eviction policy: how long a stored fragment may be served.
//!
//! The time to live comes with each lookup, as the `rotate` argument in
//! seconds. Zero, a negative number, a missing or an unreadable `rotate` mean
//! that the fragment never expires.

use vstd::prelude::*;
use crate::arguments::{ArgEntries, Arguments};
use crate::canonical::{unquote, unquoted, ROTATE};
use crate::table::{has_key, map_of};

verus! {

/// The time to live that never expires.
pub const NEVER_EXPIRES: i64 = 0;

/// The byte of the minus sign.
pub const MINUS: u8 = 45;

/// The byte of the plus sign.
pub const PLUS: u8 = 43;

/// The byte of the digit zero.
pub const DIGIT_ZERO: u8 = 48;

/// The byte of the digit nine.
pub const DIGIT_NINE: u8 = 57;

/// The greatest magnitude of a number of seconds: that of the least `i64`.
pub const MAGNITUDE_LIMIT: u64 = 9223372036854775808;

/// Whether `c` is a decimal digit.
pub open spec fn is_digit(c: char) -> bool {
    '0' <= c <= '9'
}

/// The value of the decimal digit `c`.
pub open spec fn digit_value(c: char) -> int {
    c as u32 - '0' as u32
}

/// Whether `s` consists of decimal digits only.
pub open spec fn all_digits(s: Seq<char>) -> bool {
    forall|i: int| 0 <= i < s.len() ==> is_digit(#[trigger] s[i])
}

/// The number that the decimal digits `s` write.
pub open spec fn decimal_value(s: Seq<char>) -> int
    decreases s.len(),
{
    if s.len() == 0 {
        0
    } else {
        decimal_value(s.drop_last()) * 10 + digit_value(s.last())
    }
}

/// Whether `s` starts with a sign.
pub open spec fn has_sign(s: Seq<char>) -> bool {
    s.len() > 0 && (s[0] == '-' || s[0] == '+')
}

/// `s` without its sign.
pub open spec fn magnitude_digits(s: Seq<char>) -> Seq<char> {
    if has_sign(s) {
        s.drop_first()
    } else {
        s
    }
}

/// The integer that `s` writes: an optional sign followed by one or more
/// decimal digits and nothing else. `None` where `s` writes no integer.
pub open spec fn integer_value(s: Seq<char>) -> Option<int> {
    let digits = magnitude_digits(s);
    if digits.len() > 0 && all_digits(digits) {
        if s[0] == '-' {
            Some(-decimal_value(digits))
        } else {
            Some(decimal_value(digits))
        }
    } else {
        None
    }
}

/// The number of seconds that `s` writes, or zero where `s` writes no
/// integer or one that does not fit.
pub open spec fn seconds_of(s: Seq<char>) -> i64 {
    match integer_value(s) {
        Some(v) => if i64::MIN <= v <= i64::MAX {
            v as i64
        } else {
            NEVER_EXPIRES
        },
        None => NEVER_EXPIRES,
    }
}

/// The time to live that an argument set asks for: the seconds that its
/// unquoted `rotate` writes, or zero where it has no such string.
pub open spec fn rotate_of(entries: ArgEntries) -> i64 {
    if has_key(entries, ROTATE@) {
        match map_of(entries)[ROTATE@] {
            Some(text) => seconds_of(unquoted(text)),
            None => NEVER_EXPIRES,
        }
    } else {
        NEVER_EXPIRES
    }
}

/// The age in seconds at `now` of what was created at `created`; zero where
/// the clock has gone back.
pub open spec fn age_at(now: u64, created: u64) -> u64 {
    if now >= created {
        (now - created) as u64
    } else {
        0
    }
}

/// Whether a fragment of age `age` has outlived the time to live
/// `ttl_seconds`. With a time to live of zero or less nothing expires.
pub open spec fn expired(ttl_seconds: i64, age: u64) -> bool {
    ttl_seconds > 0 && age > ttl_seconds
}

/// What the policy says of a key.
#[derive(Debug, Clone, Copy, PartialEq, Eq, Structural)]
pub enum Verdict {
    /// Nothing is stored under the key.
    Absent,
    /// The stored fragment may be served.
    Keep,
    /// The stored fragment has expired and is to be removed.
    Evict,
}

/// The verdict on a key under which a fragment of age `age` is stored, or
/// nothing where `age` is `None`.
pub open spec fn verdict_of(ttl_seconds: i64, age: Option<u64>) -> Verdict {
    match age {
        None => Verdict::Absent,
        Some(a) => if expired(ttl_seconds, a) {
            Verdict::Evict
        } else {
            Verdict::Keep
        },
    }
}

/// A prefix of a string of digits writes at most what the whole string writes.
pub proof fn lemma_decimal_value_prefix(s: Seq<char>, k: int)
    requires
        all_digits(s),
        0 <= k <= s.len(),
    ensures
        0 <= decimal_value(s.take(k)) <= decimal_value(s),
    decreases s.len() - k,
{
    if k == s.len() {
        assert(s.take(k) =~= s);
        lemma_decimal_value_nonnegative(s);
    } else {
        lemma_decimal_value_prefix(s, k + 1);
        assert(s.take(k + 1).drop_last() =~= s.take(k));
        lemma_decimal_value_nonnegative(s.take(k));
    }
}

/// A string of digits writes no negative number.
pub proof fn lemma_decimal_value_nonnegative(s: Seq<char>)
    requires
        all_digits(s),
    ensures
        0 <= decimal_value(s),
    decreases s.len(),
{
    if s.len() > 0 {
        assert(all_digits(s.drop_last())) by {
            assert forall|i: int| 0 <= i < s.drop_last().len() implies is_digit(
                #[trigger] s.drop_last()[i],
            ) by {
                assert(is_digit(s[i]));
            }
        }
        lemma_decimal_value_nonnegative(s.drop_last());
    }
}

/// The age in seconds at `now` of what was created at `created`.
pub fn age(now: u64, created: u64) -> (seconds: u64)
    ensures
        seconds == age_at(now, created),
{
    if now >= created {
        now - created
    } else {
        0
    }
}

/// Decides whether a fragment of age `age` may be served under the time to
/// live `ttl_seconds`: it is kept while its age is at most the time to live,
/// and always where the time to live is zero or less.
pub fn verdict(ttl_seconds: i64, age: Option<u64>) -> (v: Verdict)
    ensures
        v == verdict_of(ttl_seconds, age),
{
    match age {
        None => Verdict::Absent,
        Some(a) => {
            if ttl_seconds > 0 && a > ttl_seconds as u64 {
                Verdict::Evict
            } else {
                Verdict::Keep
            }
        },
    }
}

/// Reads a number of seconds: an optional sign followed by decimal digits.
/// Whatever else `s` holds, and a number that does not fit, give zero.
pub fn parse_seconds(s: &str) -> (seconds: i64)
    ensures
        seconds == seconds_of(s@),
{
    if !s.is_ascii() {
        proof {
            let j = choose|j: int| 0 <= j < s@.len() && !('\0' <= #[trigger] s@[j] <= '\u{7f}');
            if has_sign(s@) {
                assert(magnitude_digits(s@)[j - 1] == s@[j]);
            } else {
                assert(!is_digit(magnitude_digits(s@)[j]));
            }
        }
        return NEVER_EXPIRES;
    }
    let bytes = s.as_bytes();
    let n = bytes.len();
    proof {
        vstd::string::is_ascii_spec_bytes(s);
    }
    if n == 0 {
        return NEVER_EXPIRES;
    }
    let negative = bytes[0] == MINUS;
    let signed = negative || bytes[0] == PLUS;
    let start: usize = if signed {
        1
    } else {
        0
    };
    let ghost digits = magnitude_digits(s@);
    proof {
        assert(signed == has_sign(s@));
    }
    if start == n {
        return NEVER_EXPIRES;
    }
    let limit: u64 = MAGNITUDE_LIMIT;
    let mut magnitude: u64 = 0;
    let mut i: usize = start;
    proof {
        assert(digits.take(0) =~= Seq::<char>::empty());
    }
    while i < n
        invariant
            start <= i <= n,
            n == bytes@.len(),
            n == s@.len(),
            start <= 1,
            digits.len() == n - start,
            forall|j: int| 0 <= j < n ==> bytes@[j] == #[trigger] s@[j] as u8,
            forall|j: int| 0 <= j < n ==> '\0' <= #[trigger] s@[j] <= '\u{7f}',
            digits == s@.subrange(start as int, n as int),
            digits == magnitude_digits(s@),
            all_digits(digits.take(i - start)),
            magnitude == decimal_value(digits.take(i - start)),
            magnitude <= limit,
            limit == MAGNITUDE_LIMIT,
        decreases n - i,
    {
        let b = bytes[i];
        proof {
            assert(b == s@[i as int] as u8);
        }
        if b < DIGIT_ZERO || b > DIGIT_NINE {
            proof {
                assert(!is_digit(digits[i - start]));
            }
            return NEVER_EXPIRES;
        }
        let d: u64 = (b - DIGIT_ZERO) as u64;
        proof {
            let next = digits.take(i - start + 1);
            assert(next.drop_last() =~= digits.take(i - start));
            assert forall|j: int| 0 <= j < next.len() implies is_digit(#[trigger] next[j]) by {
                if j < i - start {
                    assert(digits.take(i - start)[j] == next[j]);
                }
            }
        }
        if magnitude > (limit - d) / 10 {
            proof {
                if all_digits(digits) {
                    lemma_decimal_value_prefix(digits, i - start + 1);
                }
            }
            return NEVER_EXPIRES;
        }
        magnitude = magnitude * 10 + d;
        i += 1;
    }
    proof {
        assert(digits.take(i - start) =~= digits);
    }
    if negative {
        if magnitude == limit {
            i64::MIN
        } else {
            -(magnitude as i64)
        }
    } else if magnitude == limit {
        NEVER_EXPIRES
    } else {
        magnitude as i64
    }
}

/// The time to live in seconds that `args` asks for with `rotate`; zero where
/// `rotate` is missing, is not a string or writes no number of seconds.
pub fn rotate_seconds(args: &Arguments) -> (ttl_seconds: i64)
    requires
        args.wf(),
    ensures
        ttl_seconds == rotate_of(args@),
{
    match args.get(ROTATE) {
        Some(value) => match value.as_text() {
            Some(text) => parse_seconds(unquote(text)),
            None => NEVER_EXPIRES,
        },
        None => NEVER_EXPIRES,
    }
}

} // verus!
