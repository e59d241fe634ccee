use vstd::prelude::*;

verus! {

/// Seconds in one calendar day.
pub const SECONDS_PER_DAY: i64 = 86400;

/// The first day whose midnight is representable as an `i64` second count.
pub const MIN_DAY: i64 = -106751991167300;

/// The largest day offset that the resolver keeps; any larger offset already
/// lies before `MIN_DAY` from every representable anchor.
pub const MAX_DAYS_AGO: u64 = 213503982334601;

/// An absolute UTC instant, as whole seconds since the Unix epoch.
#[derive(Debug, Clone, Copy, PartialEq, Eq, Structural)]
pub struct UtcInstant {
    pub unix_seconds: i64,
}

/// The calendar day (days since 1970-01-01) on which an instant falls.
pub open spec fn day_of(secs: int) -> int {
    secs / (SECONDS_PER_DAY as int)
}

/// The instant at 00:00:00 UTC of a day.
pub open spec fn midnight_of(day: int) -> int {
    day * (SECONDS_PER_DAY as int)
}

/// The relative-date vocabulary: the two known forms and a fallback.
#[derive(Debug, Clone, Copy, PartialEq, Eq, Structural)]
pub enum RelativeDate {
    Today,
    DaysAgo(u64),
    Unrecognized,
}

/// The token that stands for the anchor's own day.
pub open spec fn today_token() -> Seq<char> {
    seq!['今', '日']
}

/// The marker that follows the day count in a days-ago token.
pub open spec fn days_ago_marker() -> Seq<char> {
    seq!['日', '前']
}

pub open spec fn is_ascii_digit(c: char) -> bool {
    '0' <= c && c <= '9'
}

pub open spec fn all_digits(s: Seq<char>) -> bool {
    forall|i: int| 0 <= i < s.len() ==> is_ascii_digit(#[trigger] s[i])
}

/// The value of a string of decimal digits.
pub open spec fn decimal_value(s: Seq<char>) -> nat
    decreases s.len(),
{
    if s.len() == 0 {
        0
    } else {
        decimal_value(s.drop_last()) * 10 + ((s.last() as nat) - ('0' as nat)) as nat
    }
}

/// `<N>日前`: one or more decimal digits immediately followed by the marker.
pub open spec fn is_days_ago_shape(s: Seq<char>) -> bool {
    &&& s.len() >= 3
    &&& s.subrange(s.len() - 2, s.len() as int) == days_ago_marker()
    &&& all_digits(s.subrange(0, s.len() - 2))
}

/// The day count of a days-ago token.
pub open spec fn days_ago_count(s: Seq<char>) -> nat {
    decimal_value(s.subrange(0, s.len() - 2))
}

/// Which form a token has.
pub open spec fn classify_spec(s: Seq<char>) -> RelativeDate {
    if s == today_token() {
        RelativeDate::Today
    } else if is_days_ago_shape(s) && days_ago_count(s) <= MAX_DAYS_AGO {
        RelativeDate::DaysAgo(days_ago_count(s) as u64)
    } else {
        RelativeDate::Unrecognized
    }
}

/// The day that a token names against an anchor, if it has a known form.
pub open spec fn target_day(s: Seq<char>, anchor: int) -> Option<int> {
    if s == today_token() {
        Some(day_of(anchor))
    } else if is_days_ago_shape(s) {
        Some(day_of(anchor) - days_ago_count(s))
    } else {
        None
    }
}

/// The resolved instant of a token against an anchor, in seconds: midnight
/// UTC of the day it names, where that midnight is representable.
pub open spec fn resolve_spec(s: Seq<char>, anchor: int) -> Option<int> {
    match target_day(s, anchor) {
        Some(day) => if day >= MIN_DAY {
            Some(midnight_of(day))
        } else {
            None
        },
        None => None,
    }
}

proof fn lemma_day_bounds(s: int, d: int, r: int)
    requires
        s == d * 86400 + r,
        0 <= r < 86400,
        i64::MIN <= s <= i64::MAX,
    ensures
        MIN_DAY - 1 <= d <= i64::MAX / SECONDS_PER_DAY,
{
    assert(i64::MAX / SECONDS_PER_DAY == 106751991167300);
    if d < -106751991167301 {
        assert(d * 86400 <= -9223372036854892800) by (nonlinear_arith)
            requires
                d <= -106751991167302,
        ;
    }
    if d > 106751991167300 {
        assert(d * 86400 >= 9223372036854806400) by (nonlinear_arith)
            requires
                d >= 106751991167301,
        ;
    }
}

impl UtcInstant {
    /// The calendar day of this instant.
    pub fn day_number(&self) -> (d: i64)
        ensures
            d == day_of(self.unix_seconds as int),
            MIN_DAY - 1 <= d <= i64::MAX / SECONDS_PER_DAY,
    {
        proof {
            let s = self.unix_seconds as int;
            lemma_day_bounds(s, day_of(s), s % 86400);
        }
        let q = self.unix_seconds / SECONDS_PER_DAY;
        let r = self.unix_seconds % SECONDS_PER_DAY;
        if r < 0 {
            q - 1
        } else {
            q
        }
    }
}

/// Midnight UTC of a day, for a day whose midnight fits the representation.
pub fn date_to_utc_midnight(day: i64) -> (r: UtcInstant)
    requires
        MIN_DAY <= day <= i64::MAX / SECONDS_PER_DAY,
    ensures
        r.unix_seconds == midnight_of(day as int),
{
    UtcInstant { unix_seconds: day * SECONDS_PER_DAY }
}

proof fn lemma_decimal_value_step(s: Seq<char>, i: int)
    requires
        0 <= i < s.len(),
    ensures
        decimal_value(s.subrange(0, i + 1)) == decimal_value(s.subrange(0, i)) * 10 + ((s[i] as nat)
            - ('0' as nat)) as nat,
{
    assert(s.subrange(0, i + 1).drop_last() =~= s.subrange(0, i));
}

proof fn lemma_decimal_value_prefix_monotone(s: Seq<char>, i: int, j: int)
    requires
        0 <= i <= j <= s.len(),
        all_digits(s),
    ensures
        decimal_value(s.subrange(0, i)) <= decimal_value(s.subrange(0, j)),
    decreases j - i,
{
    if i < j {
        lemma_decimal_value_prefix_monotone(s, i, j - 1);
        lemma_decimal_value_step(s, j - 1);
    }
}

/// Sorts a token into one of the relative-date forms.
pub fn classify_date_token(raw: &str) -> (r: RelativeDate)
    ensures
        r == classify_spec(raw@),
{
    let n = raw.unicode_len();
    if n == 2 && raw.get_char(0) == '今' && raw.get_char(1) == '日' {
        assert(raw@ =~= today_token());
        return RelativeDate::Today;
    }
    assert(raw@ != today_token()) by {
        if raw@ == today_token() {
            assert(raw@[0] == '今' && raw@[1] == '日');
        }
    }
    if n < 3 || raw.get_char(n - 2) != '日' || raw.get_char(n - 1) != '前' {
        assert(!is_days_ago_shape(raw@)) by {
            if is_days_ago_shape(raw@) {
                assert(raw@.subrange(n - 2, n as int)[0] == raw@[n - 2]);
                assert(raw@.subrange(n - 2, n as int)[1] == raw@[n - 1]);
            }
        }
        return RelativeDate::Unrecognized;
    }
    assert(raw@.subrange(n - 2, n as int) =~= days_ago_marker());
    let ghost digits = raw@.subrange(0, n - 2);
    let mut value: u64 = 0;
    let mut i: usize = 0;
    while i < n - 2
        invariant
            n == raw@.len(),
            3 <= n,
            digits == raw@.subrange(0, n - 2),
            0 <= i <= n - 2,
            all_digits(digits.subrange(0, i as int)),
            value == decimal_value(digits.subrange(0, i as int)),
            value <= MAX_DAYS_AGO,
        decreases n - 2 - i,
    {
        let c = raw.get_char(i);
        if c < '0' || c > '9' {
            assert(!all_digits(digits)) by {
                assert(digits[i as int] == c);
            }
            return RelativeDate::Unrecognized;
        }
        proof {
            lemma_decimal_value_step(digits, i as int);
        }
        let d: u64 = (c as u64) - ('0' as u64);
        if value > (MAX_DAYS_AGO - d) / 10 {
            proof {
                assert(all_digits(digits.subrange(0, i + 1)) ) by {
                    assert forall|k: int| 0 <= k < i + 1 implies is_ascii_digit(
                        #[trigger] digits.subrange(0, i + 1)[k],
                    ) by {
                        if k < i {
                            assert(digits.subrange(0, i + 1)[k] == digits.subrange(0, i as int)[k]);
                        }
                    }
                }
                if all_digits(digits) {
                    lemma_decimal_value_prefix_monotone(digits, i + 1, digits.len() as int);
                    assert(digits.subrange(0, digits.len() as int) =~= digits);
                }
            }
            return RelativeDate::Unrecognized;
        }
        value = value * 10 + d;
        i = i + 1;
        assert(all_digits(digits.subrange(0, i as int))) by {
            assert forall|k: int| 0 <= k < i implies is_ascii_digit(
                #[trigger] digits.subrange(0, i as int)[k],
            ) by {
                if k < i - 1 {
                    assert(digits.subrange(0, i as int)[k] == digits.subrange(0, i - 1)[k]);
                }
            }
        }
    }
    assert(digits.subrange(0, i as int) =~= digits);
    RelativeDate::DaysAgo(value)
}

/// Resolves a relative-date token against an anchor instant to midnight UTC
/// of the day it names, or `None` for a token of no known form.
pub fn parse_viewed_at(raw: &str, snapshot_at: UtcInstant) -> (r: Option<UtcInstant>)
    ensures
        match r {
            Some(t) => resolve_spec(raw@, snapshot_at.unix_seconds as int) == Some(
                t.unix_seconds as int,
            ),
            None => resolve_spec(raw@, snapshot_at.unix_seconds as int).is_none(),
        },
{
    let base_day = snapshot_at.day_number();
    match classify_date_token(raw) {
        RelativeDate::Today => if base_day < MIN_DAY {
            None
        } else {
            Some(date_to_utc_midnight(base_day))
        },
        RelativeDate::DaysAgo(days) => {
            let target = base_day - (days as i64);
            if target < MIN_DAY {
                None
            } else {
                Some(date_to_utc_midnight(target))
            }
        },
        RelativeDate::Unrecognized => {
            assert(is_days_ago_shape(raw@) ==> day_of(snapshot_at.unix_seconds as int)
                - days_ago_count(raw@) < MIN_DAY);
            None
        },
    }
}

} // verus!
